//! Stability promises: what a type's author commits to keep true of its layout.
//!
//! Whether a conversion is sound and safe depends on the layouts of both
//! types, so a change of layout can break code that converts. A type's author
//! may therefore declare an *archetype*: a layout that stands for the most
//! that the type's own layout may ever come to differ. A conversion is stable
//! when both types have an archetype and the conversion between the two
//! archetypes is sound and safe. A type without an archetype takes part only
//! in conversions that neglect stability.

use crate::layout::Layout;
use crate::layout::unconstrained;
use crate::layout::LayoutModel;
use crate::layout::Patterns;
use crate::options::Check;
use crate::options::Neglect;
use crate::oracle::check;
use crate::oracle::check_elements;
use crate::oracle::safe;
use crate::oracle::safe_elements;
use crate::oracle::sound;
use crate::oracle::verdict;
use crate::oracle::verdict_elements;
use crate::oracle::Verdict;
use vstd::arithmetic::power2::is_pow2;
use vstd::prelude::*;

verus! {

/// What is known of a type: its layout and, if its author made a stability
/// promise, its archetype.
pub struct TypeModel {
    pub layout: LayoutModel,
    pub archetype: Option<LayoutModel>,
}

impl TypeModel {
    /// The layout and the archetype are well-formed descriptors.
    pub open spec fn wf(self) -> bool {
        &&& self.layout.wf()
        &&& match self.archetype {
            None => true,
            Some(archetype) => archetype.wf(),
        }
    }

    /// A type that is its own archetype.
    pub open spec fn committed(layout: LayoutModel) -> TypeModel {
        TypeModel { layout, archetype: Some(layout) }
    }

    /// The array of `count` elements of this type. Its archetype is the array
    /// of the element's archetype.
    pub open spec fn array(self, count: nat) -> TypeModel {
        TypeModel {
            layout: self.layout.array(count),
            archetype: match self.archetype {
                None => None,
                Some(archetype) => Some(archetype.array(count)),
            },
        }
    }

    /// The reference to this type. Its archetype is the reference to this
    /// type's archetype.
    pub open spec fn reference(self) -> TypeModel {
        TypeModel {
            layout: LayoutModel::reference(self.layout),
            archetype: match self.archetype {
                None => None,
                Some(archetype) => Some(LayoutModel::reference(archetype)),
            },
        }
    }
}

/// The selection that neglects stability and nothing else.
pub open spec fn neglect_stability() -> Neglect {
    Neglect { stability: true, alignment: false, validity: false }
}

/// Whether the promises of `src` and `dst` cover reading a value of `src` as
/// a value of `dst`: both have an archetype, and reading the archetype of
/// `src` as the archetype of `dst` is sound and, with nothing neglected,
/// safe.
pub open spec fn stable(src: TypeModel, dst: TypeModel) -> bool {
    match (src.archetype, dst.archetype) {
        (Some(from), Some(to)) => sound(from, to) && safe(from, to, neglect_stability()),
        _ => false,
    }
}

/// Whether the promises of `src` and `dst` cover reading a sequence of `src`
/// elements as a sequence of `dst` elements: both have an archetype, and
/// reading elements of the archetype of `src` as elements of the archetype
/// of `dst` is, with nothing neglected, safe.
pub open spec fn stable_elements(src: TypeModel, dst: TypeModel) -> bool {
    match (src.archetype, dst.archetype) {
        (Some(from), Some(to)) => safe_elements(from, to, neglect_stability()),
        _ => false,
    }
}

/// Stability is resolved by the oracle itself: the promises cover a
/// conversion exactly when both types have an archetype and the oracle, with
/// stability neglected and every other check made, allows the conversion of
/// the one archetype to the other.
pub proof fn lemma_stable_by_oracle(src: TypeModel, dst: TypeModel)
    ensures
        stable(src, dst) <==> match (src.archetype, dst.archetype) {
            (Some(from), Some(to)) => verdict(
                TypeModel::committed(from),
                TypeModel::committed(to),
                neglect_stability(),
            ) == Verdict::Allowed,
            _ => false,
        },
        stable_elements(src, dst) <==> match (src.archetype, dst.archetype) {
            (Some(from), Some(to)) => verdict_elements(
                TypeModel::committed(from),
                TypeModel::committed(to),
                neglect_stability(),
            ) == Verdict::Allowed,
            _ => false,
        },
{
}

/// Stability is a matter of the archetypes alone: however the layouts of two
/// types change, a conversion between them stays stable as long as their
/// archetypes stay as they are.
pub proof fn lemma_stable_by_archetypes(
    src: TypeModel,
    dst: TypeModel,
    later_src: TypeModel,
    later_dst: TypeModel,
)
    requires
        src.archetype == later_src.archetype,
        dst.archetype == later_dst.archetype,
    ensures
        stable(src, dst) == stable(later_src, later_dst),
        stable_elements(src, dst) == stable_elements(later_src, later_dst),
{
}

/// An archetype is its own archetype: a promise leads to no further promise.
pub proof fn lemma_archetype_committed(ty: TypeModel)
    requires
        ty.archetype is Some,
    ensures
        TypeModel::committed(ty.archetype->Some_0).archetype == ty.archetype,
        stable(ty, ty) == stable(
            TypeModel::committed(ty.archetype->Some_0),
            TypeModel::committed(ty.archetype->Some_0),
        ),
{
}

/// A type as the oracle sees it.
#[derive(Debug)]
pub struct Type {
    pub layout: Layout,
    pub archetype: Option<Layout>,
}

impl View for Type {
    type V = TypeModel;

    open spec fn view(&self) -> TypeModel {
        TypeModel {
            layout: self.layout@,
            archetype: match self.archetype {
                None => None,
                Some(archetype) => Some(archetype@),
            },
        }
    }
}

impl Clone for Type {
    fn clone(&self) -> (r: Type)
        ensures
            r@ == self@,
    {
        Type {
            layout: self.layout.clone(),
            archetype: match &self.archetype {
                None => None,
                Some(archetype) => Some(archetype.clone()),
            },
        }
    }
}

impl Type {
    /// A type whose author has promised nothing of its layout.
    pub fn new(layout: Layout) -> (r: Type)
        ensures
            r@ == (TypeModel { layout: layout@, archetype: None }),
    {
        Type { layout, archetype: None }
    }

    /// A type whose author has promised that `archetype` stands for it.
    pub fn with_archetype(layout: Layout, archetype: Layout) -> (r: Type)
        ensures
            r@ == (TypeModel { layout: layout@, archetype: Some(archetype@) }),
    {
        Type { layout, archetype: Some(archetype) }
    }

    /// A type that is its own archetype: its layout will not change.
    pub fn committed(layout: Layout) -> (r: Type)
        ensures
            r@ == TypeModel::committed(layout@),
    {
        let archetype = layout.clone();
        Type { layout, archetype: Some(archetype) }
    }

    /// A numeric type of `size` bytes, which is its own archetype; `None`
    /// unless `size` is a power of two.
    pub fn numeric(size: usize) -> (r: Option<Type>)
        ensures
            r is Some <==> is_pow2(size as int),
            r matches Some(ty) ==> ty@ == TypeModel::committed(
                LayoutModel::owned(size as nat, size as nat, unconstrained(size as nat)),
            ),
    {
        match Layout::numeric(size) {
            None => None,
            Some(layout) => Some(Type::committed(layout)),
        }
    }

    /// The unit type, which is its own archetype. Every zero-sized type with a
    /// single value is described alike.
    pub fn unit() -> (r: Type)
        ensures
            r@ == TypeModel::committed(LayoutModel::owned(0, 1, Patterns::Product(Seq::empty()))),
    {
        Type::committed(Layout::unit())
    }

    /// The empty type, which is its own archetype.
    pub fn empty() -> (r: Type)
        ensures
            r@ == TypeModel::committed(LayoutModel::owned(0, 1, Patterns::Empty)),
    {
        Type::committed(Layout::empty())
    }

    /// The array of `count` elements of this type; `None` if the size of the
    /// array, or of the array of archetypes, does not fit in `usize`.
    pub fn array(&self, count: usize) -> (r: Option<Type>)
        ensures
            r is Some <==> {
                &&& self@.layout.size * count <= usize::MAX
                &&& match self@.archetype {
                    None => true,
                    Some(archetype) => archetype.size * count <= usize::MAX,
                }
            },
            r matches Some(ty) ==> ty@ == self@.array(count as nat),
    {
        let layout = match self.layout.array(count) {
            None => {
                return None;
            },
            Some(layout) => layout,
        };
        match &self.archetype {
            None => Some(Type { layout, archetype: None }),
            Some(archetype) => match archetype.array(count) {
                None => None,
                Some(archetype) => Some(Type { layout, archetype: Some(archetype) }),
            },
        }
    }

    /// The reference to this type.
    pub fn reference(self) -> (r: Type)
        ensures
            r@ == self@.reference(),
    {
        Type {
            layout: Layout::reference(self.layout),
            archetype: match self.archetype {
                None => None,
                Some(archetype) => Some(Layout::reference(archetype)),
            },
        }
    }

    /// The archetype that the type's author declared; `None` if there is no
    /// promise.
    pub fn archetype_of(&self) -> (r: Option<&Layout>)
        ensures
            match r {
                None => self@.archetype is None,
                Some(archetype) => self@.archetype == Some(archetype@),
            },
    {
        match &self.archetype {
            None => None,
            Some(archetype) => Some(archetype),
        }
    }
}

/// Decides [`stable`]: whether the promises of the two types cover reading a
/// value of `src` as a value of `dst`.
pub fn resolve_stability(src: &Type, dst: &Type) -> (r: bool)
    ensures
        r == stable(src@, dst@),
    decreases 1nat,
{
    match (&src.archetype, &dst.archetype) {
        (Some(from), Some(to)) => {
            let from = Type::committed(from.clone());
            let to = Type::committed(to.clone());
            check(&from, &to, Neglect::only(Check::Stability)) == Verdict::Allowed
        },
        _ => false,
    }
}

/// Decides [`stable_elements`]: whether the promises of the two types cover
/// reading a sequence of `src` elements as a sequence of `dst` elements.
pub fn resolve_stability_of_elements(src: &Type, dst: &Type) -> (r: bool)
    ensures
        r == stable_elements(src@, dst@),
    decreases 1nat,
{
    match (&src.archetype, &dst.archetype) {
        (Some(from), Some(to)) => {
            let from = Type::committed(from.clone());
            let to = Type::committed(to.clone());
            check_elements(&from, &to, Neglect::only(Check::Stability)) == Verdict::Allowed
        },
        _ => false,
    }
}

} // verus!
