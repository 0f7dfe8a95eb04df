//! Keeps the set of option types closed.

use vstd::prelude::*;

verus! {

/// Implemented by the option types of this crate only: a trait that has it as
/// a supertrait cannot be implemented elsewhere.
pub trait Sealed {

}

} // verus!
