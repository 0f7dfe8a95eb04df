//! Views of a sequence of elements, and their casts.
//!
//! A view does not own the bytes that it looks at. Casting it gives a view of
//! the same bytes with another element type. Where the sizes of the two
//! element types differ, the count of elements is adjusted: the new view has
//! as many whole elements as the bytes of the old one hold. Bytes at the end
//! that do not fill a whole element stay where they are, out of the new
//! view's reach.

use crate::cast::CastFrom;
use crate::cast::CastOptions;
use crate::cast::SafeCastOptions;
use crate::elements::cast_count;
use crate::elements::cast_len;
use crate::elements::element;
use crate::elements::lemma_cast_len_bound;
use crate::elements::lemma_element_within;
use crate::options::Neglect;
use crate::oracle::check_elements;
use crate::oracle::verdict_elements;
use crate::oracle::Denial;
use crate::oracle::Verdict;
use crate::stability::Type;
use crate::stability::TypeModel;
use vstd::prelude::*;
use vstd::slice::slice_subrange;

verus! {

/// Selections that the unchecked casts of views accept.
pub trait SliceCastOptions: CastOptions {

}

/// Selections that the checked casts of views accept.
pub trait SafeSliceCastOptions: SafeCastOptions + SliceCastOptions {

}

impl<N: CastOptions> SliceCastOptions for N {

}

impl<N: SafeCastOptions> SafeSliceCastOptions for N {

}

/// A view of `len` elements of type `elem`, held one after the other at the
/// start of `bytes`.
pub struct SliceModel {
    pub elem: TypeModel,
    pub bytes: Seq<u8>,
    pub len: nat,
}

impl SliceModel {
    /// The elements lie within the bytes.
    pub open spec fn wf(self) -> bool {
        self.len * self.elem.layout.size <= self.bytes.len()
    }

    /// The bytes of element `i`.
    pub open spec fn element(self, i: int) -> Seq<u8> {
        element(self.bytes, self.elem.layout.size, i)
    }

    /// The bytes within the view's reach: those of its elements.
    pub open spec fn span(self) -> Seq<u8> {
        self.bytes.take((self.len * self.elem.layout.size) as int)
    }

    /// Whether every element is a legal instance of the element type.
    pub open spec fn valid(self) -> bool {
        self.elem.layout.admits_elements(self.bytes, self.len)
    }
}

/// What casting the view `src` to elements of type `dst` gives: where the
/// oracle allows it for sequences, a view of the same bytes with as many
/// whole elements of `dst` as the elements of `src` hold; otherwise the
/// reason of the denial. A view whose elements do not lie within its bytes
/// cannot be read soundly as anything.
pub open spec fn cast_slice(src: SliceModel, dst: TypeModel, neglect: Neglect) -> Result<
    SliceModel,
    Denial,
> {
    if !src.wf() {
        Err(Denial::Soundness)
    } else {
        match verdict_elements(src.elem, dst, neglect) {
            Verdict::Allowed => Ok(
                SliceModel {
                    elem: dst,
                    bytes: src.bytes,
                    len: cast_len(src.len, src.elem.layout.size, dst.layout.size),
                },
            ),
            Verdict::Denied(denial) => Err(denial),
        }
    }
}

/// A shared view of a sequence of elements.
#[derive(Debug)]
pub struct Slice<'a> {
    elem: Type,
    bytes: &'a [u8],
    len: usize,
}

impl<'a> View for Slice<'a> {
    type V = SliceModel;

    closed spec fn view(&self) -> SliceModel {
        SliceModel { elem: self.elem@, bytes: self.bytes@, len: self.len as nat }
    }
}

impl<'a> Slice<'a> {
    /// The elements of every view at run time lie within its bytes.
    #[verifier::type_invariant]
    pub open spec fn well_formed(self) -> bool {
        self@.wf()
    }

    /// The view of the first `len` elements of type `elem` that `bytes`
    /// holds; `None` if `bytes` is too short to hold them.
    pub fn new(elem: Type, bytes: &'a [u8], len: usize) -> (r: Option<Slice<'a>>)
        ensures
            r is Some <==> len * elem@.layout.size <= bytes@.len(),
            r matches Some(slice) ==> slice@ == (SliceModel {
                elem: elem@,
                bytes: bytes@,
                len: len as nat,
            }),
    {
        let total = bytes.len();
        match len.checked_mul(elem.layout.size()) {
            None => None,
            Some(n) => {
                if n > total {
                    None
                } else {
                    Some(Slice { elem, bytes, len })
                }
            },
        }
    }

    /// The type of the elements.
    pub fn elem(&self) -> (r: &Type)
        ensures
            r@ == self@.elem,
    {
        &self.elem
    }

    /// The count of elements.
    pub fn len(&self) -> (r: usize)
        ensures
            r == self@.len,
    {
        self.len
    }

    /// The bytes of element `i`; `None` if there is no such element.
    pub fn get(&self, i: usize) -> (r: Option<&'a [u8]>)
        ensures
            r is Some <==> i < self@.len,
            r matches Some(bytes) ==> bytes@ == self@.element(i as int),
    {
        proof {
            use_type_invariant(self);
        }
        if i >= self.len {
            return None;
        }
        let size = self.elem.layout.size();
        let total = self.bytes.len();
        proof {
            assert(0 <= i * size) by (nonlinear_arith)
                requires
                    0 <= i,
                    0 <= size,
            ;
            assert((i + 1) * size <= self.len * size) by (nonlinear_arith)
                requires
                    i + 1 <= self.len,
            ;
            assert((i + 1) * size == i * size + size) by (nonlinear_arith);
        }
        Some(slice_subrange(self.bytes, i * size, i * size + size))
    }

    /// The bytes within the view's reach: those of its elements, in order.
    pub fn bytes(&self) -> (r: &'a [u8])
        ensures
            r@ == self@.span(),
    {
        proof {
            use_type_invariant(self);
        }
        let total = self.bytes.len();
        slice_subrange(self.bytes, 0, self.len * self.elem.layout.size())
    }

    /// Whether every element is a legal instance of the element type.
    pub fn is_valid(&self) -> (r: bool)
        ensures
            r == self@.valid(),
    {
        proof {
            use_type_invariant(self);
        }
        let size = self.elem.layout.size();
        let total = self.bytes.len();
        let mut i: usize = 0;
        while i < self.len
            invariant
                i <= self.len,
                total == self@.bytes.len(),
                size == self@.elem.layout.size,
                self@.wf(),
                self@.elem.layout.admits_elements(self@.bytes, i as nat),
            decreases self.len - i,
        {
            proof {
                assert((i + 1) * size <= self.len * size) by (nonlinear_arith)
                    requires
                        i + 1 <= self.len,
                ;
                assert((i + 1) * size == i * size + size) by (nonlinear_arith);
                assert(0 <= i * size) by (nonlinear_arith)
                    requires
                        0 <= i,
                        0 <= size,
                ;
            }
            let e = slice_subrange(self.bytes, i * size, i * size + size);
            if !self.elem.layout.validity().admits(e) {
                assert(!self@.elem.layout.admits(self@.element(i as int)));
                return false;
            }
            i += 1;
        }
        true
    }
}

/// Casts a shared view, with the checks of `neglect` left out.
fn recast<'a>(src: Slice<'a>, dst: &Type, neglect: Neglect) -> (r: Result<Slice<'a>, Denial>)
    ensures
        match r {
            Ok(slice) => cast_slice(src@, dst@, neglect) == Ok::<SliceModel, Denial>(slice@),
            Err(denial) => cast_slice(src@, dst@, neglect) == Err::<SliceModel, Denial>(denial),
        },
{
    proof {
        use_type_invariant(&src);
    }
    let total = src.bytes.len();
    match check_elements(&src.elem, dst, neglect) {
        Verdict::Allowed => {
            let len = cast_count(src.len, src.elem.layout.size(), dst.layout.size());
            Ok(Slice { elem: dst.clone(), bytes: src.bytes, len })
        },
        Verdict::Denied(denial) => Err(denial),
    }
}

impl<'a, N: SliceCastOptions> CastFrom<Slice<'a>, N> for Slice<'a> {
    open spec fn cast(
        src: Slice<'a>,
        dst: TypeModel,
        neglect: Neglect,
        r: Result<Self, Denial>,
    ) -> bool {
        match r {
            Ok(slice) => cast_slice(src@, dst, neglect) == Ok::<SliceModel, Denial>(slice@),
            Err(denial) => cast_slice(src@, dst, neglect) == Err::<SliceModel, Denial>(denial),
        }
    }

    fn cast_from(src: Slice<'a>, dst: &Type) -> (r: Result<Self, Denial>) where N: SafeCastOptions {
        proof {
            N::lemma_safe();
        }
        recast(src, dst, N::selection())
    }

    fn unsafe_cast_from(src: Slice<'a>, dst: &Type) -> (r: Result<Self, Denial>) {
        recast(src, dst, N::selection())
    }
}

/// An exclusive view of a sequence of elements: what is written through it is
/// written to the bytes that it was made of.
///
/// The fields are open, so that what becomes of the bytes can be followed
/// through a cast. A view made by hand may claim more elements than its bytes
/// hold; [`SliceModel::wf`] says that it does not, and every operation here
/// tests it.
#[derive(Debug)]
pub struct SliceMut<'a> {
    pub elem: Type,
    pub bytes: &'a mut [u8],
    pub len: usize,
}

impl<'a> View for SliceMut<'a> {
    type V = SliceModel;

    open spec fn view(&self) -> SliceModel {
        SliceModel { elem: self.elem@, bytes: self.bytes@, len: self.len as nat }
    }
}

/// The count of bytes that `len` elements of `size` bytes take up, if they
/// lie within `total` bytes.
fn span_within(len: usize, size: usize, total: usize) -> (r: Option<usize>)
    ensures
        r is Some <==> len * size <= total,
        r matches Some(n) ==> n == len * size,
{
    match len.checked_mul(size) {
        None => None,
        Some(n) => if n > total {
            None
        } else {
            Some(n)
        },
    }
}

impl<'a> SliceMut<'a> {
    /// The view of the first `len` elements of type `elem` that `bytes`
    /// holds; `None` if `bytes` is too short to hold them.
    pub fn new(elem: Type, bytes: &'a mut [u8], len: usize) -> (r: Option<SliceMut<'a>>)
        ensures
            r is Some <==> len * elem@.layout.size <= old(bytes)@.len(),
            r matches Some(slice) ==> {
                &&& slice@ == (SliceModel { elem: elem@, bytes: old(bytes)@, len: len as nat })
                &&& slice@.wf()
                &&& final(bytes)@ == final(slice.bytes)@
            },
            r is None ==> final(bytes)@ == old(bytes)@,
    {
        match span_within(len, elem.layout.size(), bytes.len()) {
            None => None,
            Some(_) => Some(SliceMut { elem, bytes, len }),
        }
    }

    /// The bytes of element `i`; `None` if there is no such element within
    /// the bytes of the view.
    pub fn get(&self, i: usize) -> (r: Option<&[u8]>)
        ensures
            r is Some <==> i < self@.len && (i + 1) * self@.elem.layout.size <= self@.bytes.len(),
            r matches Some(bytes) ==> bytes@ == self@.element(i as int),
    {
        if i >= self.len {
            return None;
        }
        let size = self.elem.layout.size();
        match span_within(i + 1, size, self.bytes.len()) {
            None => None,
            Some(end) => {
                proof {
                    assert((i + 1) * size == i * size + size) by (nonlinear_arith);
                    assert(0 <= i * size) by (nonlinear_arith)
                        requires
                            0 <= i,
                            0 <= size,
                    ;
                }
                Some(slice_subrange(&*self.bytes, end - size, end))
            },
        }
    }
}

impl<'a> SliceMut<'a> {
    /// Casts the view to elements of type `dst`, with the checks of `neglect`
    /// left out; the caller answers for each of them.
    ///
    /// This is what the casts of an exclusive view to an exclusive view do.
    /// What is written through the new view is written to the bytes of the
    /// old one; a cast that is denied leaves them as they were.
    pub fn recast(self, dst: &Type, neglect: Neglect) -> (r: Result<SliceMut<'a>, Denial>)
        ensures
            match r {
                Ok(slice) => {
                    &&& cast_slice(self@, dst@, neglect) == Ok::<SliceModel, Denial>(slice@)
                    &&& final(self.bytes)@ == final(slice.bytes)@
                },
                Err(denial) => {
                    &&& cast_slice(self@, dst@, neglect) == Err::<SliceModel, Denial>(denial)
                    &&& final(self.bytes)@ == old(self.bytes)@
                },
            },
    {
        let size = self.elem.layout.size();
        if span_within(self.len, size, self.bytes.len()).is_none() {
            return Err(Denial::Soundness);
        }
        match check_elements(&self.elem, dst, neglect) {
            Verdict::Allowed => {
                let len = cast_count(self.len, size, dst.layout.size());
                Ok(SliceMut { elem: dst.clone(), bytes: self.bytes, len })
            },
            Verdict::Denied(denial) => Err(denial),
        }
    }

    /// Casts the view to a shared view of elements of type `dst`, with the
    /// checks of `neglect` left out; the caller answers for each of them.
    ///
    /// This is what the casts of an exclusive view to a shared view do.
    /// Nothing is written to the bytes any more: they stay as they are.
    pub fn share(self, dst: &Type, neglect: Neglect) -> (r: Result<Slice<'a>, Denial>)
        ensures
            match r {
                Ok(slice) => cast_slice(self@, dst@, neglect) == Ok::<SliceModel, Denial>(slice@),
                Err(denial) => cast_slice(self@, dst@, neglect) == Err::<SliceModel, Denial>(
                    denial,
                ),
            },
            final(self.bytes)@ == old(self.bytes)@,
    {
        let size = self.elem.layout.size();
        if span_within(self.len, size, self.bytes.len()).is_none() {
            return Err(Denial::Soundness);
        }
        match check_elements(&self.elem, dst, neglect) {
            Verdict::Allowed => {
                let len = cast_count(self.len, size, dst.layout.size());
                Ok(Slice { elem: dst.clone(), bytes: self.bytes, len })
            },
            Verdict::Denied(denial) => Err(denial),
        }
    }
}

impl<'a, N: SliceCastOptions> CastFrom<SliceMut<'a>, N> for SliceMut<'a> {
    open spec fn cast(
        src: SliceMut<'a>,
        dst: TypeModel,
        neglect: Neglect,
        r: Result<Self, Denial>,
    ) -> bool {
        match r {
            Ok(slice) => cast_slice(src@, dst, neglect) == Ok::<SliceModel, Denial>(slice@),
            Err(denial) => cast_slice(src@, dst, neglect) == Err::<SliceModel, Denial>(denial),
        }
    }

    fn cast_from(src: SliceMut<'a>, dst: &Type) -> (r: Result<Self, Denial>) where
        N: SafeCastOptions,
     {
        proof {
            N::lemma_safe();
        }
        src.recast(dst, N::selection())
    }

    fn unsafe_cast_from(src: SliceMut<'a>, dst: &Type) -> (r: Result<Self, Denial>) {
        src.recast(dst, N::selection())
    }
}

impl<'a, N: SliceCastOptions> CastFrom<SliceMut<'a>, N> for Slice<'a> {
    open spec fn cast(
        src: SliceMut<'a>,
        dst: TypeModel,
        neglect: Neglect,
        r: Result<Self, Denial>,
    ) -> bool {
        match r {
            Ok(slice) => cast_slice(src@, dst, neglect) == Ok::<SliceModel, Denial>(slice@),
            Err(denial) => cast_slice(src@, dst, neglect) == Err::<SliceModel, Denial>(denial),
        }
    }

    fn cast_from(src: SliceMut<'a>, dst: &Type) -> (r: Result<Self, Denial>) where
        N: SafeCastOptions,
     {
        proof {
            N::lemma_safe();
        }
        src.share(dst, N::selection())
    }

    fn unsafe_cast_from(src: SliceMut<'a>, dst: &Type) -> (r: Result<Self, Denial>) {
        src.share(dst, N::selection())
    }
}

/// The elements of a cast view lie within the reach of the view that it was
/// cast from, and each is a run of bytes of that view, as they stand.
pub proof fn lemma_cast_reach(src: SliceModel, dst: TypeModel, neglect: Neglect)
    requires
        cast_slice(src, dst, neglect) is Ok,
    ensures
        ({
            let cast = cast_slice(src, dst, neglect)->Ok_0;
            &&& src.wf()
            &&& cast.wf()
            &&& cast.bytes == src.bytes
            &&& cast.len == cast_len(src.len, src.elem.layout.size, dst.layout.size)
            &&& cast.len * dst.layout.size <= src.len * src.elem.layout.size
            &&& forall|j: int|
                0 <= j < cast.len ==> #[trigger] cast.element(j) == src.span().subrange(
                    j * dst.layout.size,
                    (j + 1) * dst.layout.size,
                )
        }),
{
    let cast = cast_slice(src, dst, neglect)->Ok_0;
    let s = src.elem.layout.size as int;
    let d = dst.layout.size as int;
    let n = cast.len as int;
    lemma_cast_len_bound(src.len, src.elem.layout.size, dst.layout.size);
    assert forall|j: int| 0 <= j < cast.len implies #[trigger] cast.element(j)
        == src.span().subrange(j * d, (j + 1) * d) by {
        lemma_element_within(j, n, d);
        assert(cast.element(j) =~= src.span().subrange(j * d, (j + 1) * d));
    }
}

/// A cast that did not neglect validity keeps it: where every element of the
/// view was a legal instance of its type, every element of the cast view is a
/// legal instance of the new type.
pub proof fn lemma_cast_valid(src: SliceModel, dst: TypeModel, neglect: Neglect)
    requires
        src.valid(),
        !neglect.validity,
        cast_slice(src, dst, neglect) is Ok,
    ensures
        cast_slice(src, dst, neglect)->Ok_0.valid(),
{
    let cast = cast_slice(src, dst, neglect)->Ok_0;
    let from = src.elem.layout;
    let to = dst.layout;
    let s = from.size as int;
    let d = to.size as int;
    let span = src.span();
    lemma_cast_reach(src, dst, neglect);
    assert(from.elements_fit(to));
    assert(span.len() == src.len * from.size);
    assert forall|i: int| 0 <= i < src.len implies from.admits(
        #[trigger] element(span, from.size, i),
    ) by {
        lemma_element_within(i, src.len as int, s);
        assert(element(span, from.size, i) =~= element(src.bytes, from.size, i));
    }
    assert(from.admits_elements(span, src.len));
    assert(to.admits_elements(span, cast.len));
    assert forall|j: int| 0 <= j < cast.len implies to.admits(
        #[trigger] element(cast.bytes, to.size, j),
    ) by {
        lemma_element_within(j, cast.len as int, d);
        assert(element(span, to.size, j) =~= element(cast.bytes, to.size, j));
    }
}

} // verus!
