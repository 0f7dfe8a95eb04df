//! Conversions of sequences of values: views of elements and growable buffers.
//!
//! A cast reads the elements of one type that a sequence holds as elements of
//! another type. The bytes stay where they are; only the element type, and
//! with it the count of elements, changes.

use crate::options::Neglect;
use crate::options::SafeTransmuteOptions;
use crate::options::TransmuteOptions;
use crate::oracle::Denial;
use crate::stability::Type;
use crate::stability::TypeModel;
use vstd::prelude::*;

verus! {

/// Selections that the unchecked casts accept: every selection of checks.
pub trait CastOptions: TransmuteOptions {

}

/// Selections that the checked casts accept: those that the checked
/// conversions of single values accept.
pub trait SafeCastOptions: CastOptions + SafeTransmuteOptions {

}

impl<N: TransmuteOptions> CastOptions for N {

}

impl<N: SafeTransmuteOptions> SafeCastOptions for N {

}

/// Makes a sequence of `Self` out of a sequence `Src`, by reading its
/// elements as elements of another type.
///
/// The counterpart of [`CastInto`].
pub trait CastFrom<Src, N: CastOptions = ()>: Sized {
    /// Whether `r` is what casting `src` to elements of type `dst` gives
    /// when the checks of `neglect` are left out.
    spec fn cast(src: Src, dst: TypeModel, neglect: Neglect, r: Result<Self, Denial>) -> bool;

    /// Casts `src` to elements of type `dst`, with every check made but,
    /// where `N` says so, that of stability.
    fn cast_from(src: Src, dst: &Type) -> (r: Result<Self, Denial>) where N: SafeCastOptions
        ensures
            Self::cast(src, dst@, N::neglect(), r),
            N::neglect().safe(),
    ;

    /// Casts `src` to elements of type `dst`, with the checks that `N` names
    /// left out. The caller answers for each of them.
    fn unsafe_cast_from(src: Src, dst: &Type) -> (r: Result<Self, Denial>)
        ensures
            Self::cast(src, dst@, N::neglect(), r),
    ;
}

/// Makes a sequence `Dst` out of `Self`, by reading its elements as elements
/// of another type.
///
/// The counterpart of [`CastFrom`], and had by every type for which that is
/// implemented.
pub trait CastInto<Dst, N: CastOptions = ()>: Sized where Dst: CastFrom<Self, N> {
    /// Casts `self` to elements of type `dst`, with every check made but,
    /// where `N` says so, that of stability.
    fn cast_into(self, dst: &Type) -> (r: Result<Dst, Denial>) where N: SafeCastOptions
        ensures
            Dst::cast(self, dst@, N::neglect(), r),
            N::neglect().safe(),
    ;

    /// Casts `self` to elements of type `dst`, with the checks that `N` names
    /// left out. The caller answers for each of them.
    fn unsafe_cast_into(self, dst: &Type) -> (r: Result<Dst, Denial>)
        ensures
            Dst::cast(self, dst@, N::neglect(), r),
    ;
}

impl<Src, Dst, N> CastInto<Dst, N> for Src where Dst: CastFrom<Src, N>, N: CastOptions {
    fn cast_into(self, dst: &Type) -> (r: Result<Dst, Denial>) where N: SafeCastOptions {
        Dst::cast_from(self, dst)
    }

    fn unsafe_cast_into(self, dst: &Type) -> (r: Result<Dst, Denial>) {
        Dst::unsafe_cast_from(self, dst)
    }
}

} // verus!
