//! The transmutability oracle: may the bytes of one type be read as another?
//!
//! The answer is found in three tiers, and the first that fails gives the
//! reason of the denial:
//!
//! 1. *Soundness*: the reinterpretation itself is defined. It is never waived.
//! 2. *Safety*: using the result cannot break memory safety. It concerns what
//!    a reference refers to, and is made of an alignment check and a validity
//!    check, each of which can be neglected.
//! 3. *Stability*: both types have promised to keep the conversion legal. It
//!    can be neglected.

use crate::layout::Layout;
use crate::layout::LayoutModel;
use crate::options::Check;
use crate::options::Neglect;
use crate::stability::resolve_stability;
use crate::stability::resolve_stability_of_elements;
use crate::stability::stable;
use crate::stability::stable_elements;
use crate::stability::Type;
use crate::stability::TypeModel;
use vstd::prelude::*;

verus! {

/// The tier at which a conversion was denied.
#[derive(Clone, Copy, Debug, PartialEq, Eq, Structural)]
pub enum Denial {
    /// The sizes differ.
    Soundness,
    /// The referent of the destination is aligned more strictly than that of
    /// the source, or has not all of its bit patterns.
    Safety,
    /// One of the types has made no stability promise, or the promises do not
    /// cover the conversion.
    Stability,
}

/// The oracle's answer.
#[derive(Clone, Copy, Debug, PartialEq, Eq, Structural)]
pub enum Verdict {
    /// The conversion may take place.
    Allowed,
    /// The conversion may not take place, for the reason given.
    Denied(Denial),
}

/// Soundness of reading one value as another: the sizes are equal.
pub open spec fn sound(src: LayoutModel, dst: LayoutModel) -> bool {
    src.size == dst.size
}

/// Safety of reading one value as another. Where the destination is no
/// reference there is nothing to ask. Where it is one, the source must be one
/// too, and each check that is not neglected is made on the two referents:
/// the destination's is aligned no more strictly than the source's, and
/// every bit pattern of the source's is a bit pattern of the destination's.
pub open spec fn safe(src: LayoutModel, dst: LayoutModel, neglect: Neglect) -> bool {
    match dst.referent {
        None => true,
        Some(to) => {
            &&& neglect.alignment || match src.referent {
                None => false,
                Some(from) => to.alignment <= from.alignment,
            }
            &&& neglect.validity || match src.referent {
                None => false,
                Some(from) => from.fits(*to),
            }
        },
    }
}

/// Safety of reading a sequence of `src` elements as a sequence of `dst`
/// elements. The elements are what the two sequences refer to, so each check
/// that is not neglected is made on them: `dst` is aligned no more strictly
/// than `src`, and every run of legal `src` elements reads as legal `dst`
/// elements.
pub open spec fn safe_elements(src: LayoutModel, dst: LayoutModel, neglect: Neglect) -> bool {
    &&& neglect.alignment || dst.alignment <= src.alignment
    &&& neglect.validity || src.elements_fit(dst)
}

/// The answer for reading a value of `src` as a value of `dst`.
pub open spec fn verdict(src: TypeModel, dst: TypeModel, neglect: Neglect) -> Verdict {
    if !sound(src.layout, dst.layout) {
        Verdict::Denied(Denial::Soundness)
    } else if !safe(src.layout, dst.layout, neglect) {
        Verdict::Denied(Denial::Safety)
    } else if neglect.stability {
        Verdict::Allowed
    } else if stable(src, dst) {
        Verdict::Allowed
    } else {
        Verdict::Denied(Denial::Stability)
    }
}

/// The answer for reading a sequence of `src` elements as a sequence of `dst`
/// elements. The sizes need not be equal: the count of elements is adjusted
/// instead.
pub open spec fn verdict_elements(src: TypeModel, dst: TypeModel, neglect: Neglect) -> Verdict {
    if !safe_elements(src.layout, dst.layout, neglect) {
        Verdict::Denied(Denial::Safety)
    } else if neglect.stability {
        Verdict::Allowed
    } else if stable_elements(src, dst) {
        Verdict::Allowed
    } else {
        Verdict::Denied(Denial::Stability)
    }
}

/// Decides [`safe`].
fn is_safe_for_value(src: &Layout, dst: &Layout, neglect: Neglect) -> (r: bool)
    ensures
        r == safe(src@, dst@, neglect),
{
    match dst.referent() {
        None => true,
        Some(to) => {
            if neglect.alignment && neglect.validity {
                return true;
            }
            match src.referent() {
                None => false,
                Some(from) => {
                    if !neglect.alignment && to.alignment() > from.alignment() {
                        return false;
                    }
                    if !neglect.validity && !from.fits(to) {
                        return false;
                    }
                    true
                },
            }
        },
    }
}

/// Decides [`safe_elements`].
fn is_safe_for_elements(src: &Layout, dst: &Layout, neglect: Neglect) -> (r: bool)
    ensures
        r == safe_elements(src@, dst@, neglect),
{
    if !neglect.alignment && dst.alignment() > src.alignment() {
        return false;
    }
    if !neglect.validity && !src.elements_fit(dst) {
        return false;
    }
    true
}

/// A type read as itself is sound and safe, whatever is neglected.
pub proof fn lemma_identity(layout: LayoutModel, neglect: Neglect)
    ensures
        sound(layout, layout),
        safe(layout, layout, neglect),
{
}

/// Decides whether a value of `src` may be read as a value of `dst` with the
/// checks of `neglect` left out.
///
/// A type read as itself with stability neglected is allowed at once, and no
/// tier is gone through.
pub fn check(src: &Type, dst: &Type, neglect: Neglect) -> (v: Verdict)
    ensures
        v == verdict(src@, dst@, neglect),
    decreases
            (if neglect.stability {
                0nat
            } else {
                2nat
            }),
{
    if neglect.stability && src.layout.same(&dst.layout) {
        proof {
            lemma_identity(src@.layout, neglect);
        }
        return Verdict::Allowed;
    }
    if src.layout.size() != dst.layout.size() {
        return Verdict::Denied(Denial::Soundness);
    }
    if !is_safe_for_value(&src.layout, &dst.layout, neglect) {
        return Verdict::Denied(Denial::Safety);
    }
    if neglect.stability {
        Verdict::Allowed
    } else if resolve_stability(src, dst) {
        Verdict::Allowed
    } else {
        Verdict::Denied(Denial::Stability)
    }
}

/// Decides whether a sequence of `src` elements may be read as a sequence of
/// `dst` elements with the checks of `neglect` left out.
pub fn check_elements(src: &Type, dst: &Type, neglect: Neglect) -> (v: Verdict)
    ensures
        v == verdict_elements(src@, dst@, neglect),
    decreases
            (if neglect.stability {
                0nat
            } else {
                2nat
            }),
{
    if !is_safe_for_elements(&src.layout, &dst.layout, neglect) {
        return Verdict::Denied(Denial::Safety);
    }
    if neglect.stability {
        Verdict::Allowed
    } else if resolve_stability_of_elements(src, dst) {
        Verdict::Allowed
    } else {
        Verdict::Denied(Denial::Stability)
    }
}

/// A type may always be read as itself where stability is neglected.
pub proof fn lemma_identity_allowed(ty: TypeModel, other: TypeModel, neglect: Neglect)
    requires
        neglect.stability,
        ty.layout == other.layout,
    ensures
        verdict(ty, other, neglect) == Verdict::Allowed,
{
}

/// Soundness is never waived: where the sizes differ, reading a value of one
/// type as a value of the other is denied for unsoundness, whatever is
/// neglected.
pub proof fn lemma_size_mismatch_denied(src: TypeModel, dst: TypeModel, neglect: Neglect)
    requires
        src.layout.size != dst.layout.size,
    ensures
        verdict(src, dst, neglect) == Verdict::Denied(Denial::Soundness),
{
}

/// Where the sizes are equal and, if the destination is a reference, the
/// source is one too, its referent is aligned at least as strictly and has
/// only bit patterns that the destination's referent has, the conversion is
/// allowed, provided that stability is neglected or the promises of the two
/// types cover it.
pub proof fn lemma_compatible_allowed(src: TypeModel, dst: TypeModel, neglect: Neglect)
    requires
        src.layout.size == dst.layout.size,
        match dst.layout.referent {
            None => true,
            Some(to) => match src.layout.referent {
                None => false,
                Some(from) => to.alignment <= from.alignment && from.fits(*to),
            },
        },
        neglect.stability || stable(src, dst),
    ensures
        verdict(src, dst, neglect) == Verdict::Allowed,
{
}

/// Where the referent of the source has a bit pattern that the referent of
/// the destination has not, and nothing else stands in the way, the
/// conversion is denied as unsafe unless validity is neglected; with validity
/// and stability neglected it is allowed. A selection that the checked entry
/// points accept never neglects validity, so they deny it.
pub proof fn lemma_validity_decides(src: TypeModel, dst: TypeModel, neglect: Neglect)
    requires
        src.layout.size == dst.layout.size,
        match (src.layout.referent, dst.layout.referent) {
            (Some(from), Some(to)) => to.alignment <= from.alignment && !from.fits(*to),
            _ => false,
        },
    ensures
        !neglect.validity ==> verdict(src, dst, neglect) == Verdict::Denied(Denial::Safety),
        neglect.safe() ==> verdict(src, dst, neglect) == Verdict::Denied(Denial::Safety),
        neglect.validity && neglect.stability ==> verdict(src, dst, neglect) == Verdict::Allowed,
{
}

/// The same holds of sequences. Where the elements of the destination are
/// aligned no more strictly than those of the source and every run of legal
/// source elements reads as legal destination elements, the conversion is
/// allowed, provided that stability is neglected or the promises cover it.
/// Where some run does not read so, the conversion is denied as unsafe
/// unless validity is neglected; with validity and stability neglected it is
/// allowed.
pub proof fn lemma_validity_decides_elements(src: TypeModel, dst: TypeModel, neglect: Neglect)
    requires
        dst.layout.alignment <= src.layout.alignment,
    ensures
        src.layout.elements_fit(dst.layout) && (neglect.stability || stable_elements(src, dst))
            ==> verdict_elements(src, dst, neglect) == Verdict::Allowed,
        !src.layout.elements_fit(dst.layout) && !neglect.validity ==> verdict_elements(
            src,
            dst,
            neglect,
        ) == Verdict::Denied(Denial::Safety),
        neglect.validity && neglect.stability ==> verdict_elements(src, dst, neglect)
            == Verdict::Allowed,
{
}

/// A type without an archetype takes part in no conversion that asks for
/// stability: where either type has none and stability is not neglected, a
/// conversion that is sound and safe is denied for want of stability.
pub proof fn lemma_unpromised_denied(src: TypeModel, dst: TypeModel, neglect: Neglect)
    requires
        src.archetype is None || dst.archetype is None,
        !neglect.stability,
        sound(src.layout, dst.layout),
        safe(src.layout, dst.layout, neglect),
    ensures
        verdict(src, dst, neglect) == Verdict::Denied(Denial::Stability),
{
}

/// The same holds of sequences: without an archetype on both sides, a
/// conversion of elements that is safe is denied for want of stability.
pub proof fn lemma_unpromised_elements_denied(src: TypeModel, dst: TypeModel, neglect: Neglect)
    requires
        src.archetype is None || dst.archetype is None,
        !neglect.stability,
        safe_elements(src.layout, dst.layout, neglect),
    ensures
        verdict_elements(src, dst, neglect) == Verdict::Denied(Denial::Stability),
{
}

/// Neglecting more never turns an allowed conversion into a denied one.
pub proof fn lemma_neglect_monotone(src: TypeModel, dst: TypeModel, less: Neglect, more: Neglect)
    requires
        less@.subset_of(more@),
        verdict(src, dst, less) == Verdict::Allowed,
    ensures
        verdict(src, dst, more) == Verdict::Allowed,
{
    assert(less.stability ==> more.stability) by {
        if less.stability {
            assert(less@.contains(Check::Stability));
            assert(more@.contains(Check::Stability));
        }
    }
    assert(less.alignment ==> more.alignment) by {
        if less.alignment {
            assert(less@.contains(Check::Alignment));
            assert(more@.contains(Check::Alignment));
        }
    }
    assert(less.validity ==> more.validity) by {
        if less.validity {
            assert(less@.contains(Check::Validity));
            assert(more@.contains(Check::Validity));
        }
    }
}

} // verus!
