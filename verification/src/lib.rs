//! Decides whether the bytes of a value of one type may be reinterpreted as a
//! value of another type, and performs the reinterpretation when it may.
//!
//! Types take part through their layout descriptors ([`layout::Layout`]) and
//! their stability promises ([`stability::Type`]). The decision is made by
//! the oracle ([`oracle::check`]) in three tiers: soundness, safety and
//! stability. A caller may neglect some of the checks ([`options`]) and then
//! answers for them.
//!
//! The conversions are built on the oracle: of single values
//! ([`transmute`]), of views of a sequence ([`slice`]) and of growable
//! buffers ([`vec`]). None of them copies or alters a byte.

pub mod cast;
pub mod elements;
pub mod layout;
pub mod mem;
pub mod options;
pub mod oracle;
mod sealed;
pub mod slice;
pub mod stability;
pub mod transmute;
pub mod vec;
