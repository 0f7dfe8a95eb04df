//! The static checks that a caller may neglect, and the entry points that
//! accept each selection.
//!
//! | Option               | Gives up  | Usable with                     |
//! |----------------------|-----------|---------------------------------|
//! | [`NeglectStability`] | stability | checked and unchecked entries   |
//! | [`NeglectAlignment`] | safety    | unchecked entries               |
//! | [`NeglectValidity`]  | safety    | unchecked entries               |
//!
//! Several options are selected together by a tuple of them:
//! `(NeglectAlignment, NeglectValidity)` neglects both checks.

use crate::sealed::Sealed;
use vstd::prelude::*;

verus! {

/// A static check that a caller may choose to neglect.
#[derive(Clone, Copy, Debug, PartialEq, Eq, Structural)]
pub enum Check {
    /// Both types have promised to keep the conversion legal.
    Stability,
    /// The destination's referent is aligned no more strictly than the source's.
    Alignment,
    /// Every bit pattern of the source is a bit pattern of the destination.
    Validity,
}

/// A selection of checks to neglect: any subset of the three.
#[derive(Clone, Copy, Debug, PartialEq, Eq, Structural)]
pub struct Neglect {
    pub stability: bool,
    pub alignment: bool,
    pub validity: bool,
}

impl View for Neglect {
    type V = Set<Check>;

    open spec fn view(&self) -> Set<Check> {
        Set::new(
            |check: Check|
                match check {
                    Check::Stability => self.stability,
                    Check::Alignment => self.alignment,
                    Check::Validity => self.validity,
                },
        )
    }
}

impl Neglect {
    /// Whether the selection neglects nothing but, at most, stability.
    pub open spec fn safe(self) -> bool {
        !self.alignment && !self.validity
    }

    /// The selection that joins `self` and `other`.
    pub open spec fn join(self, other: Neglect) -> Neglect {
        Neglect {
            stability: self.stability || other.stability,
            alignment: self.alignment || other.alignment,
            validity: self.validity || other.validity,
        }
    }

    /// The empty selection: every check is made.
    pub fn nothing() -> (r: Neglect)
        ensures
            r == (Neglect { stability: false, alignment: false, validity: false }),
            r@ == Set::<Check>::empty(),
    {
        let r = Neglect { stability: false, alignment: false, validity: false };
        assert(r@ =~= Set::<Check>::empty());
        r
    }

    /// The selection of one check.
    pub fn only(check: Check) -> (r: Neglect)
        ensures
            r@ == Set::<Check>::empty().insert(check),
            r.stability == (check == Check::Stability),
            r.alignment == (check == Check::Alignment),
            r.validity == (check == Check::Validity),
    {
        let r = match check {
            Check::Stability => Neglect { stability: true, alignment: false, validity: false },
            Check::Alignment => Neglect { stability: false, alignment: true, validity: false },
            Check::Validity => Neglect { stability: false, alignment: false, validity: true },
        };
        assert(r@ =~= Set::<Check>::empty().insert(check));
        r
    }

    /// The selection of every check that `self` or `other` selects.
    pub fn union(self, other: Neglect) -> (r: Neglect)
        ensures
            r == self.join(other),
            r@ == self@.union(other@),
    {
        let r = Neglect {
            stability: self.stability || other.stability,
            alignment: self.alignment || other.alignment,
            validity: self.validity || other.validity,
        };
        assert(r@ =~= self@.union(other@));
        r
    }

    /// Whether `check` is selected.
    pub fn contains(self, check: Check) -> (r: bool)
        ensures
            r == self@.contains(check),
    {
        match check {
            Check::Stability => self.stability,
            Check::Alignment => self.alignment,
            Check::Validity => self.validity,
        }
    }

    /// Whether the selection may be used with the checked entry points: it is
    /// empty, or stability alone. Neglecting stability gives up a promise
    /// about later versions of the types and nothing else.
    pub fn is_safe(self) -> (r: bool)
        ensures
            r == self@.subset_of(Set::<Check>::empty().insert(Check::Stability)),
            r == self.safe(),
    {
        let r = !self.alignment && !self.validity;
        proof {
            let allowed = Set::<Check>::empty().insert(Check::Stability);
            if r {
                assert forall|check: Check| self@.contains(check) implies allowed.contains(
                    check,
                ) by {}
            } else if self.alignment {
                assert(self@.contains(Check::Alignment));
                assert(!allowed.contains(Check::Alignment));
            } else {
                assert(self@.contains(Check::Validity));
                assert(!allowed.contains(Check::Validity));
            }
        }
        r
    }

    /// Whether the selection may be used with the unchecked entry points:
    /// every selection may, the empty one too.
    pub fn is_usable_unsafely(self) -> (r: bool)
        ensures
            r,
    {
        true
    }
}

/// Selections that the unchecked entry points accept. The trait is sealed: the
/// options are those of this module and tuples of them.
pub trait TransmuteOptions: Sealed {
    /// The checks that the option neglects.
    spec fn neglect() -> Neglect;

    /// The checks that the option neglects.
    fn selection() -> (r: Neglect)
        ensures
            r == Self::neglect(),
    ;
}

/// Selections that the checked entry points accept.
pub trait SafeTransmuteOptions: TransmuteOptions {
    /// Such an option neglects neither alignment nor validity.
    proof fn lemma_safe()
        ensures
            Self::neglect().safe(),
    ;
}

/// Neglect the stability check: the conversion need not be covered by the
/// promises of the two types.
///
/// This cannot make a conversion unsound or unsafe, so it is the one option
/// that the checked entry points accept. The caller takes on to follow what
/// the types' authors say of their layouts.
#[derive(Clone, Copy, Debug)]
pub struct NeglectStability;

/// Neglect the alignment check: the destination's referent may be aligned
/// more strictly than the source's.
///
/// The caller takes on to see that the reference handed in is aligned as the
/// destination's referent requires.
#[derive(Clone, Copy, Debug)]
pub struct NeglectAlignment;

/// Neglect the validity check: the source may have bit patterns that are not
/// legal instances of the destination.
///
/// The caller takes on to see that the value handed in is a legal instance of
/// the destination.
#[derive(Clone, Copy, Debug)]
pub struct NeglectValidity;

impl Sealed for () {

}

impl Sealed for NeglectStability {

}

impl Sealed for NeglectAlignment {

}

impl Sealed for NeglectValidity {

}

impl<A: Sealed, B: Sealed> Sealed for (A, B) {

}

impl<A: Sealed, B: Sealed, C: Sealed> Sealed for (A, B, C) {

}

impl TransmuteOptions for () {
    open spec fn neglect() -> Neglect {
        Neglect { stability: false, alignment: false, validity: false }
    }

    fn selection() -> (r: Neglect) {
        Neglect::nothing()
    }
}

impl TransmuteOptions for NeglectStability {
    open spec fn neglect() -> Neglect {
        Neglect { stability: true, alignment: false, validity: false }
    }

    fn selection() -> (r: Neglect) {
        Neglect::only(Check::Stability)
    }
}

impl TransmuteOptions for NeglectAlignment {
    open spec fn neglect() -> Neglect {
        Neglect { stability: false, alignment: true, validity: false }
    }

    fn selection() -> (r: Neglect) {
        Neglect::only(Check::Alignment)
    }
}

impl TransmuteOptions for NeglectValidity {
    open spec fn neglect() -> Neglect {
        Neglect { stability: false, alignment: false, validity: true }
    }

    fn selection() -> (r: Neglect) {
        Neglect::only(Check::Validity)
    }
}

impl<A: TransmuteOptions, B: TransmuteOptions> TransmuteOptions for (A, B) {
    open spec fn neglect() -> Neglect {
        A::neglect().join(B::neglect())
    }

    fn selection() -> (r: Neglect) {
        A::selection().union(B::selection())
    }
}

impl<A: TransmuteOptions, B: TransmuteOptions, C: TransmuteOptions> TransmuteOptions for (
    A,
    B,
    C,
) {
    open spec fn neglect() -> Neglect {
        A::neglect().join(B::neglect()).join(C::neglect())
    }

    fn selection() -> (r: Neglect) {
        A::selection().union(B::selection()).union(C::selection())
    }
}

impl SafeTransmuteOptions for () {
    proof fn lemma_safe() {
    }
}

impl SafeTransmuteOptions for NeglectStability {
    proof fn lemma_safe() {
    }
}

impl<A: SafeTransmuteOptions, B: SafeTransmuteOptions> SafeTransmuteOptions for (A, B) {
    proof fn lemma_safe() {
        A::lemma_safe();
        B::lemma_safe();
    }
}

} // verus!
