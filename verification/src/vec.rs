//! Growable buffers of elements, and their casts.
//!
//! A buffer owns the bytes of its elements, and has room reserved for a
//! count of elements that may be greater than the count it holds. A cast
//! hands the bytes and both counts, as they are, to a buffer with another
//! element type. Since the counts are kept, the two element types must agree
//! in size and in alignment exactly: with elements of another size the counts
//! would no longer say what the bytes hold.

use crate::cast::CastFrom;
use crate::cast::CastOptions;
use crate::cast::SafeCastOptions;
use crate::elements::element;
use crate::elements::lemma_element_within;
use crate::mem::AlignEq;
use crate::mem::SizeEq;
use crate::options::Neglect;
use crate::oracle::check;
use crate::oracle::verdict;
use crate::oracle::Denial;
use crate::oracle::Verdict;
use crate::stability::Type;
use crate::stability::TypeModel;
use vstd::prelude::*;
use vstd::slice::slice_subrange;

verus! {

/// Selections that the unchecked casts of buffers accept.
pub trait VecCastOptions: CastOptions {

}

/// Selections that the checked casts of buffers accept.
pub trait SafeVecCastOptions: SafeCastOptions + VecCastOptions {

}

impl<N: CastOptions> VecCastOptions for N {

}

impl<N: SafeCastOptions> SafeVecCastOptions for N {

}

/// The answer for handing the bytes of a buffer of `src` elements to a buffer
/// of `dst` elements. The sizes must be equal, which is a matter of
/// soundness as for single values. The alignments must be equal too, whether
/// or not alignment is neglected: that is a matter of safety. What is left is
/// decided as for a single value.
pub open spec fn verdict_buffer(src: TypeModel, dst: TypeModel, neglect: Neglect) -> Verdict {
    if src.layout.size != dst.layout.size {
        Verdict::Denied(Denial::Soundness)
    } else if src.layout.alignment != dst.layout.alignment {
        Verdict::Denied(Denial::Safety)
    } else {
        verdict(src, dst, neglect)
    }
}

/// Decides whether the bytes of a buffer of `src` elements may be handed to a
/// buffer of `dst` elements with the checks of `neglect` left out.
pub fn check_buffer(src: &Type, dst: &Type, neglect: Neglect) -> (v: Verdict)
    ensures
        v == verdict_buffer(src@, dst@, neglect),
{
    if !src.size_eq(dst) {
        Verdict::Denied(Denial::Soundness)
    } else if !src.align_eq(dst) {
        Verdict::Denied(Denial::Safety)
    } else {
        check(src, dst, neglect)
    }
}

/// A buffer of `len` elements of type `elem`, held one after the other in
/// `bytes`, with room reserved for `capacity` elements.
pub struct BufferModel {
    pub elem: TypeModel,
    pub bytes: Seq<u8>,
    pub len: nat,
    pub capacity: nat,
}

impl BufferModel {
    /// The bytes are those of the elements, and the elements held are no
    /// more than there is room for.
    pub open spec fn wf(self) -> bool {
        &&& self.bytes.len() == self.len * self.elem.layout.size
        &&& self.len <= self.capacity
    }

    /// The bytes of element `i`.
    pub open spec fn element(self, i: int) -> Seq<u8> {
        element(self.bytes, self.elem.layout.size, i)
    }

    /// The count of bytes that the buffer has reserved.
    pub open spec fn footprint(self) -> nat {
        self.capacity * self.elem.layout.size
    }
}

/// What casting the buffer `src` to elements of type `dst` gives: where it is
/// allowed, a buffer of the same bytes with the same two counts; otherwise
/// the reason of the denial.
pub open spec fn cast_buffer(src: BufferModel, dst: TypeModel, neglect: Neglect) -> Result<
    BufferModel,
    Denial,
> {
    match verdict_buffer(src.elem, dst, neglect) {
        Verdict::Allowed => Ok(
            BufferModel { elem: dst, bytes: src.bytes, len: src.len, capacity: src.capacity },
        ),
        Verdict::Denied(denial) => Err(denial),
    }
}

/// A growable buffer of elements.
#[derive(Debug)]
pub struct Buffer {
    elem: Type,
    bytes: Vec<u8>,
    len: usize,
    capacity: usize,
}

impl View for Buffer {
    type V = BufferModel;

    closed spec fn view(&self) -> BufferModel {
        BufferModel {
            elem: self.elem@,
            bytes: self.bytes@,
            len: self.len as nat,
            capacity: self.capacity as nat,
        }
    }
}

impl Buffer {
    /// Every buffer at run time holds the bytes of its elements and no more
    /// elements than it has room for.
    #[verifier::type_invariant]
    pub open spec fn well_formed(self) -> bool {
        self@.wf()
    }

    /// The buffer of the `len` elements of type `elem` that `bytes` holds,
    /// with room for `capacity` elements; `None` unless `bytes` are the bytes
    /// of exactly `len` elements and `len` is at most `capacity`.
    pub fn new(elem: Type, bytes: Vec<u8>, len: usize, capacity: usize) -> (r: Option<Buffer>)
        ensures
            r is Some <==> bytes@.len() == len * elem@.layout.size && len <= capacity,
            r matches Some(buffer) ==> buffer@ == (BufferModel {
                elem: elem@,
                bytes: bytes@,
                len: len as nat,
                capacity: capacity as nat,
            }),
    {
        if len > capacity {
            return None;
        }
        let total = bytes.len();
        match len.checked_mul(elem.layout.size()) {
            None => None,
            Some(n) => {
                if n != total {
                    None
                } else {
                    Some(Buffer { elem, bytes, len, capacity })
                }
            },
        }
    }

    /// The type of the elements.
    pub fn elem(&self) -> (r: &Type)
        ensures
            r@ == self@.elem,
    {
        &self.elem
    }

    /// The count of elements held.
    pub fn len(&self) -> (r: usize)
        ensures
            r == self@.len,
    {
        self.len
    }

    /// The count of elements that there is room for.
    pub fn capacity(&self) -> (r: usize)
        ensures
            r == self@.capacity,
    {
        self.capacity
    }

    /// The bytes of the elements, in order.
    pub fn bytes(&self) -> (r: &Vec<u8>)
        ensures
            r@ == self@.bytes,
    {
        &self.bytes
    }

    /// Gives up the buffer for the bytes of its elements.
    pub fn into_bytes(self) -> (r: Vec<u8>)
        ensures
            r@ == self@.bytes,
    {
        self.bytes
    }

    /// The bytes of element `i`; `None` if there is no such element.
    pub fn get(&self, i: usize) -> (r: Option<&[u8]>)
        ensures
            r is Some <==> i < self@.len,
            r matches Some(bytes) ==> bytes@ == self@.element(i as int),
    {
        proof {
            use_type_invariant(self);
        }
        if i >= self.len {
            return None;
        }
        let size = self.elem.layout.size();
        let total = self.bytes.len();
        proof {
            lemma_element_within(i as int, self.len as int, size as int);
        }
        Some(slice_subrange(self.bytes.as_slice(), i * size, i * size + size))
    }
}

/// Casts a buffer, with the checks of `neglect` left out.
fn recast(src: Buffer, dst: &Type, neglect: Neglect) -> (r: Result<Buffer, Denial>)
    ensures
        match r {
            Ok(buffer) => cast_buffer(src@, dst@, neglect) == Ok::<BufferModel, Denial>(buffer@),
            Err(denial) => cast_buffer(src@, dst@, neglect) == Err::<BufferModel, Denial>(denial),
        },
{
    proof {
        use_type_invariant(&src);
    }
    match check_buffer(&src.elem, dst, neglect) {
        Verdict::Allowed => Ok(
            Buffer { elem: dst.clone(), bytes: src.bytes, len: src.len, capacity: src.capacity },
        ),
        Verdict::Denied(denial) => Err(denial),
    }
}

impl<N: VecCastOptions> CastFrom<Buffer, N> for Buffer {
    open spec fn cast(
        src: Buffer,
        dst: TypeModel,
        neglect: Neglect,
        r: Result<Self, Denial>,
    ) -> bool {
        match r {
            Ok(buffer) => cast_buffer(src@, dst, neglect) == Ok::<BufferModel, Denial>(buffer@),
            Err(denial) => cast_buffer(src@, dst, neglect) == Err::<BufferModel, Denial>(denial),
        }
    }

    fn cast_from(src: Buffer, dst: &Type) -> (r: Result<Self, Denial>) where N: SafeCastOptions {
        proof {
            N::lemma_safe();
        }
        recast(src, dst, N::selection())
    }

    fn unsafe_cast_from(src: Buffer, dst: &Type) -> (r: Result<Self, Denial>) {
        recast(src, dst, N::selection())
    }
}

/// Where the sizes of the two element types differ, the cast of a buffer is
/// denied for unsoundness, whatever is neglected and whatever the oracle says
/// of a view of the same elements.
pub proof fn lemma_buffer_needs_equal_sizes(src: BufferModel, dst: TypeModel, neglect: Neglect)
    requires
        src.elem.layout.size != dst.layout.size,
    ensures
        cast_buffer(src, dst, neglect) == Err::<BufferModel, Denial>(Denial::Soundness),
{
}

/// Where the sizes are equal and the alignments differ, the cast of a buffer
/// is denied as unsafe, whether or not alignment is neglected.
pub proof fn lemma_buffer_needs_equal_alignments(
    src: BufferModel,
    dst: TypeModel,
    neglect: Neglect,
)
    requires
        src.elem.layout.size == dst.layout.size,
        src.elem.layout.alignment != dst.layout.alignment,
    ensures
        cast_buffer(src, dst, neglect) == Err::<BufferModel, Denial>(Denial::Safety),
{
}

/// A cast keeps the bytes, the count of elements and the room reserved, and
/// with them the count of bytes that the buffer has reserved.
pub proof fn lemma_buffer_cast_keeps(src: BufferModel, dst: TypeModel, neglect: Neglect)
    requires
        src.wf(),
        cast_buffer(src, dst, neglect) is Ok,
    ensures
        ({
            let cast = cast_buffer(src, dst, neglect)->Ok_0;
            &&& cast.wf()
            &&& cast.elem == dst
            &&& cast.bytes == src.bytes
            &&& cast.len == src.len
            &&& cast.capacity == src.capacity
            &&& cast.footprint() == src.footprint()
            &&& forall|i: int| 0 <= i < src.len ==> #[trigger] cast.element(i) == src.element(i)
        }),
{
}

} // verus!
