//! Comparisons of the size and the alignment of two described types.

use crate::layout::Layout;
use crate::layout::LayoutModel;
use crate::stability::Type;
use vstd::prelude::*;

verus! {

/// Something that has a layout descriptor.
pub trait Described {
    /// The descriptor.
    spec fn described(&self) -> LayoutModel;

    /// The descriptor.
    fn layout(&self) -> (r: &Layout)
        ensures
            r@ == self.described(),
    ;
}

impl Described for Layout {
    open spec fn described(&self) -> LayoutModel {
        self@
    }

    fn layout(&self) -> (r: &Layout) {
        self
    }
}

impl Described for Type {
    open spec fn described(&self) -> LayoutModel {
        self@.layout
    }

    fn layout(&self) -> (r: &Layout) {
        &self.layout
    }
}

/// Whether the alignment of `Self` is at most that of `Rhs`.
pub trait AlignLtEq<Rhs: Described>: Described {
    /// Whether `self` is aligned no more strictly than `rhs`.
    fn align_lt_eq(&self, rhs: &Rhs) -> (r: bool)
        ensures
            r == (self.described().alignment <= rhs.described().alignment),
    ;
}

impl<Lhs: Described, Rhs: Described> AlignLtEq<Rhs> for Lhs {
    fn align_lt_eq(&self, rhs: &Rhs) -> (r: bool) {
        self.layout().alignment() <= rhs.layout().alignment()
    }
}

/// Whether the alignments of `Self` and `Rhs` are equal: each is at most the
/// other.
pub trait AlignEq<Rhs: Described>: Described {
    /// Whether `self` and `rhs` are aligned alike.
    fn align_eq(&self, rhs: &Rhs) -> (r: bool)
        ensures
            r == (self.described().alignment == rhs.described().alignment),
    ;
}

impl<Lhs: AlignLtEq<Rhs>, Rhs: AlignLtEq<Lhs>> AlignEq<Rhs> for Lhs {
    fn align_eq(&self, rhs: &Rhs) -> (r: bool) {
        self.align_lt_eq(rhs) && rhs.align_lt_eq(self)
    }
}

/// Whether the size of `Self` is at most that of `Rhs`.
pub trait SizeLtEq<Rhs: Described>: Described {
    /// Whether `self` takes up no more bytes than `rhs`.
    fn size_lt_eq(&self, rhs: &Rhs) -> (r: bool)
        ensures
            r == (self.described().size <= rhs.described().size),
    ;
}

impl<Lhs: Described, Rhs: Described> SizeLtEq<Rhs> for Lhs {
    fn size_lt_eq(&self, rhs: &Rhs) -> (r: bool) {
        self.layout().size() <= rhs.layout().size()
    }
}

/// Whether the sizes of `Self` and `Rhs` are equal: each is at most the other.
pub trait SizeEq<Rhs: Described>: Described {
    /// Whether `self` and `rhs` take up as many bytes.
    fn size_eq(&self, rhs: &Rhs) -> (r: bool)
        ensures
            r == (self.described().size == rhs.described().size),
    ;
}

impl<Lhs: SizeLtEq<Rhs>, Rhs: SizeLtEq<Lhs>> SizeEq<Rhs> for Lhs {
    fn size_eq(&self, rhs: &Rhs) -> (r: bool) {
        self.size_lt_eq(rhs) && rhs.size_lt_eq(self)
    }
}

} // verus!
