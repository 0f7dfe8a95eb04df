//! Layout descriptors: the size, alignment and validity of a type.
//!
//! Validity is described byte by byte. A composite type is described by the
//! ranges of its bytes in their order, so that two types are compared field
//! by field when they are compared position by position.

use vstd::arithmetic::div_mod::lemma_fundamental_div_mod_converse;
use vstd::arithmetic::power2::is_pow2;
use vstd::prelude::*;

verus! {

/// The values that one byte of a type may hold: every value from `lo` to
/// `hi`, both included. A range with `lo > hi` holds no value.
#[derive(Clone, Copy, Debug, PartialEq, Eq, Structural)]
pub struct ByteRange {
    pub lo: u8,
    pub hi: u8,
}

impl ByteRange {
    /// Whether `byte` lies in the range.
    pub open spec fn holds(self, byte: u8) -> bool {
        self.lo <= byte <= self.hi
    }

    /// Whether the range holds at least one value.
    pub open spec fn inhabited(self) -> bool {
        self.lo <= self.hi
    }

    /// Whether every value of this range lies in `other`.
    pub open spec fn within(self, other: ByteRange) -> bool {
        forall|byte: u8| self.holds(byte) ==> other.holds(byte)
    }

    /// The range of all 256 values.
    pub fn any() -> (r: ByteRange)
        ensures
            r == (ByteRange { lo: 0, hi: 255 }),
            forall|byte: u8| r.holds(byte),
    {
        ByteRange { lo: 0, hi: 255 }
    }

    /// Whether every value of this range lies in `other`.
    pub fn is_within(&self, other: &ByteRange) -> (r: bool)
        ensures
            r == self.within(*other),
    {
        let r = self.lo > self.hi || (other.lo <= self.lo && self.hi <= other.hi);
        proof {
            if self.lo <= self.hi && self.within(*other) {
                assert(self.holds(self.lo));
                assert(self.holds(self.hi));
            }
        }
        r
    }
}

/// Whether every range of `ranges` holds at least one value.
pub open spec fn all_inhabited(ranges: Seq<ByteRange>) -> bool {
    forall|i: int| 0 <= i < ranges.len() ==> (#[trigger] ranges[i]).inhabited()
}

/// Whether `bits` has one byte for each range of `ranges`, and each byte lies
/// in the range of its position.
pub open spec fn in_product(ranges: Seq<ByteRange>, bits: Seq<u8>) -> bool {
    &&& bits.len() == ranges.len()
    &&& forall|i: int| 0 <= i < ranges.len() ==> (#[trigger] ranges[i]).holds(bits[i])
}

/// The bit patterns that are legal instances of a type.
///
/// Validity is described byte by byte: a pattern is legal when it has the
/// right length and each of its bytes lies in the range given for its
/// position. The empty type has no legal pattern at all.
pub enum Patterns {
    /// No pattern is legal.
    Empty,
    /// The patterns of `ranges.len()` bytes whose byte `i` lies in `ranges[i]`.
    Product(Seq<ByteRange>),
}

impl Patterns {
    /// Every position admits at least one value, so that a product is never
    /// empty by accident.
    pub open spec fn wf(self) -> bool {
        match self {
            Patterns::Empty => true,
            Patterns::Product(ranges) => all_inhabited(ranges),
        }
    }

    /// Whether `bits` is one of the patterns.
    pub open spec fn admits(self, bits: Seq<u8>) -> bool {
        match self {
            Patterns::Empty => false,
            Patterns::Product(ranges) => in_product(ranges, bits),
        }
    }

    /// Whether every pattern of `self` is a pattern of `other`.
    pub open spec fn subset_of(self, other: Patterns) -> bool {
        forall|bits: Seq<u8>| self.admits(bits) ==> other.admits(bits)
    }

    /// The lowest pattern of a product: each byte at the low end of its range.
    spec fn lowest(self) -> Seq<u8>
        recommends
            self is Product,
    {
        Seq::new(self->Product_0.len(), |i: int| self->Product_0[i].lo)
    }

    /// The patterns of `count` instances laid out one after the other.
    pub open spec fn repeat(self, count: nat) -> Patterns {
        match self {
            Patterns::Empty => if count == 0 {
                Patterns::Product(Seq::empty())
            } else {
                Patterns::Empty
            },
            Patterns::Product(ranges) => Patterns::Product(
                Seq::new(ranges.len() * count, |i: int| ranges[i % (ranges.len() as int)]),
            ),
        }
    }
}

/// The patterns of `len` bytes that may each hold any value.
pub open spec fn unconstrained(len: nat) -> Patterns {
    Patterns::Product(Seq::new(len, |i: int| ByteRange { lo: 0, hi: 255 }))
}

/// A product whose ranges all hold a value admits its lowest pattern, and
/// that pattern with any one byte replaced by another value of its range.
proof fn lemma_witness(p: Patterns, at: int, byte: u8)
    requires
        p.wf(),
        p matches Patterns::Product(ranges) && 0 <= at < ranges.len() && ranges[at].holds(byte),
    ensures
        p.admits(p.lowest().update(at, byte)),
{
    let ranges = p->Product_0;
    let bits = p.lowest().update(at, byte);
    assert forall|i: int| 0 <= i < ranges.len() implies (#[trigger] ranges[i]).holds(bits[i]) by {
        assert(ranges[i].inhabited());
    }
}

/// A product whose ranges all hold a value admits its lowest pattern.
proof fn lemma_lowest(p: Patterns)
    requires
        p.wf(),
        p is Product,
    ensures
        p.admits(p.lowest()),
{
    let ranges = p->Product_0;
    assert forall|i: int| 0 <= i < ranges.len() implies (#[trigger] ranges[i]).holds(
        p.lowest()[i],
    ) by {
        assert(ranges[i].inhabited());
    }
}

/// Whether the two sequences have one length and each range of `src` lies
/// within the range of `dst` at its position.
pub open spec fn ranges_within(src: Seq<ByteRange>, dst: Seq<ByteRange>) -> bool {
    &&& src.len() == dst.len()
    &&& forall|i: int| 0 <= i < src.len() ==> (#[trigger] src[i]).within(dst[i])
}

/// Validity is compared range by range: every pattern of `src` is a pattern
/// of `dst` exactly when `src` has no pattern at all, or both have patterns
/// of one length and each range of `src` lies within that of `dst`.
pub proof fn lemma_subset_by_ranges(src: Patterns, dst: Patterns)
    requires
        src.wf(),
    ensures
        src.subset_of(dst) <==> match (src, dst) {
            (Patterns::Empty, _) => true,
            (Patterns::Product(_), Patterns::Empty) => false,
            (Patterns::Product(from), Patterns::Product(to)) => ranges_within(from, to),
        },
{
    match (src, dst) {
        (Patterns::Empty, _) => {},
        (Patterns::Product(_), Patterns::Empty) => {
            lemma_lowest(src);
        },
        (Patterns::Product(from), Patterns::Product(to)) => {
            lemma_lowest(src);
            if src.subset_of(dst) {
                assert(dst.admits(src.lowest()));
                assert forall|i: int| 0 <= i < from.len() implies (#[trigger] from[i]).within(
                    to[i],
                ) by {
                    assert forall|byte: u8| from[i].holds(byte) implies to[i].holds(byte) by {
                        lemma_witness(src, i, byte);
                        let w = src.lowest().update(i, byte);
                        assert(dst.admits(w));
                        assert(to[i].holds(w[i]));
                    }
                }
            }
            if ranges_within(from, to) {
                assert forall|bits: Seq<u8>| src.admits(bits) implies dst.admits(bits) by {
                    assert forall|j: int| 0 <= j < to.len() implies (#[trigger] to[j]).holds(
                        bits[j],
                    ) by {
                        assert(from[j].within(to[j]));
                        assert(from[j].holds(bits[j]));
                    }
                }
            }
        },
    }
}

/// The validity of a type, as held at run time.
#[derive(Debug)]
pub struct Validity {
    ranges: Option<Vec<ByteRange>>,
}

impl View for Validity {
    type V = Patterns;

    closed spec fn view(&self) -> Patterns {
        match self.ranges {
            None => Patterns::Empty,
            Some(v) => Patterns::Product(v@),
        }
    }
}

impl Validity {
    #[verifier::type_invariant]
    spec fn inv(self) -> bool {
        self@.wf()
    }

    /// The validity of the empty type: no bit pattern is legal.
    pub fn uninhabited() -> (r: Validity)
        ensures
            r@ == Patterns::Empty,
    {
        Validity { ranges: None }
    }

    /// The validity whose byte `i` is constrained to `ranges[i]`; `None` if
    /// one of the ranges holds no value.
    pub fn bytes(ranges: Vec<ByteRange>) -> (r: Option<Validity>)
        ensures
            r is Some <==> Patterns::Product(ranges@).wf(),
            r matches Some(v) ==> v@ == Patterns::Product(ranges@),
    {
        let mut i: usize = 0;
        while i < ranges.len()
            invariant
                i <= ranges.len(),
                forall|j: int| 0 <= j < i ==> (#[trigger] ranges@[j]).inhabited(),
            decreases ranges.len() - i,
        {
            if ranges[i].lo > ranges[i].hi {
                assert(!ranges@[i as int].inhabited());
                return None;
            }
            i += 1;
        }
        Some(Validity { ranges: Some(ranges) })
    }

    /// The validity of `len` bytes that may each hold any value.
    pub fn any(len: usize) -> (r: Validity)
        ensures
            r@ == Patterns::Product(Seq::new(len as nat, |i: int| ByteRange { lo: 0, hi: 255 })),
    {
        let mut ranges: Vec<ByteRange> = Vec::new();
        let mut i: usize = 0;
        while i < len
            invariant
                i <= len,
                ranges@ == Seq::new(i as nat, |j: int| ByteRange { lo: 0, hi: 255 }),
            decreases len - i,
        {
            ranges.push(ByteRange::any());
            i += 1;
        }
        Validity { ranges: Some(ranges) }
    }

    /// The ranges of the bytes, position by position; `None` for the empty
    /// type.
    pub fn ranges(&self) -> (r: Option<&Vec<ByteRange>>)
        ensures
            match r {
                None => self@ == Patterns::Empty,
                Some(ranges) => self@ == Patterns::Product(ranges@),
            },
    {
        match &self.ranges {
            None => None,
            Some(ranges) => Some(ranges),
        }
    }

    /// Whether the validity admits at least one bit pattern.
    pub fn is_inhabited(&self) -> (r: bool)
        ensures
            r == (self@ is Product),
            r == exists|bits: Seq<u8>| self@.admits(bits),
    {
        proof {
            use_type_invariant(self);
            if self@ is Product {
                lemma_lowest(self@);
            }
        }
        self.ranges.is_some()
    }

    /// The number of bytes of every admitted pattern; `None` for the empty
    /// type, which admits none.
    pub fn len(&self) -> (r: Option<usize>)
        ensures
            match self@ {
                Patterns::Empty => r is None,
                Patterns::Product(ranges) => r == Some(ranges.len() as usize) && ranges.len()
                    <= usize::MAX,
            },
    {
        match &self.ranges {
            None => None,
            Some(v) => Some(v.len()),
        }
    }

    /// Whether `bits` is a legal bit pattern.
    pub fn admits(&self, bits: &[u8]) -> (r: bool)
        ensures
            r == self@.admits(bits@),
    {
        match &self.ranges {
            None => false,
            Some(v) => {
                if bits.len() != v.len() {
                    return false;
                }
                let mut i: usize = 0;
                while i < v.len()
                    invariant
                        i <= v.len(),
                        bits@.len() == v@.len(),
                        self@ == Patterns::Product(v@),
                        forall|j: int| 0 <= j < i ==> (#[trigger] v@[j]).holds(bits@[j]),
                    decreases v.len() - i,
                {
                    if bits[i] < v[i].lo || bits[i] > v[i].hi {
                        assert(!v@[i as int].holds(bits@[i as int]));
                        return false;
                    }
                    i += 1;
                }
                true
            },
        }
    }

    /// Whether every bit pattern that `self` admits, `other` admits too.
    pub fn subset_of(&self, other: &Validity) -> (r: bool)
        ensures
            r == self@.subset_of(other@),
    {
        proof {
            use_type_invariant(self);
            lemma_subset_by_ranges(self@, other@);
        }
        match (&self.ranges, &other.ranges) {
            (None, _) => true,
            (Some(_), None) => false,
            (Some(src), Some(dst)) => {
                if src.len() != dst.len() {
                    return false;
                }
                let mut i: usize = 0;
                while i < src.len()
                    invariant
                        i <= src.len(),
                        src@.len() == dst@.len(),
                        self@.subset_of(other@) <==> ranges_within(src@, dst@),
                        forall|j: int| 0 <= j < i ==> (#[trigger] src@[j]).within(dst@[j]),
                    decreases src.len() - i,
                {
                    if !src[i].is_within(&dst[i]) {
                        assert(!src@[i as int].within(dst@[i as int]));
                        return false;
                    }
                    i += 1;
                }
                true
            },
        }
    }

    /// The validity of `count` instances laid out one after the other, each of
    /// `len` bytes.
    fn repeat(&self, len: usize, count: usize) -> (r: Validity)
        requires
            len * count <= usize::MAX,
            self@ matches Patterns::Product(ranges) ==> ranges.len() == len,
        ensures
            r@ == self@.repeat(count as nat),
    {
        proof {
            use_type_invariant(self);
        }
        match &self.ranges {
            None => {
                if count == 0 {
                    Validity { ranges: Some(Vec::new()) }
                } else {
                    Validity { ranges: None }
                }
            },
            Some(src) => {
                let ghost total = (len * count) as nat;
                let mut ranges: Vec<ByteRange> = Vec::new();
                let mut i: usize = 0;
                while i < count
                    invariant
                        i <= count,
                        src@.len() == len,
                        total == len * count,
                        total <= usize::MAX,
                        all_inhabited(src@),
                        ranges@ == Seq::new((len * i) as nat, |p: int| src@[p % (len as int)]),
                    decreases count - i,
                {
                    let mut k: usize = 0;
                    assert(len * i + len <= total) by (nonlinear_arith)
                        requires
                            i < count,
                            total == len * count,
                    ;
                    while k < len
                        invariant
                            k <= len,
                            i < count,
                            src@.len() == len,
                            len * i + len <= usize::MAX,
                            ranges@ == Seq::new(
                                (len * i + k) as nat,
                                |p: int| src@[p % (len as int)],
                            ),
                        decreases len - k,
                    {
                        proof {
                            assert(len * i == i * len) by (nonlinear_arith);
                            lemma_fundamental_div_mod_converse(
                                len * i + k,
                                len as int,
                                i as int,
                                k as int,
                            );
                        }
                        ranges.push(src[k]);
                        k += 1;
                    }
                    assert(len * (i + 1) == len * i + len) by (nonlinear_arith);
                    i += 1;
                }
                proof {
                    assert forall|p: int| 0 <= p < ranges@.len() implies (
                    #[trigger] ranges@[p]).inhabited() by {
                        vstd::arithmetic::div_mod::lemma_mod_bound(p, len as int);
                        assert(src@[p % (len as int)].inhabited());
                    }
                }
                Validity { ranges: Some(ranges) }
            },
        }
    }

    /// Whether `other` admits exactly the same bit patterns.
    pub fn same(&self, other: &Validity) -> (r: bool)
        ensures
            r == (self@ == other@),
    {
        match (&self.ranges, &other.ranges) {
            (None, None) => true,
            (Some(a), Some(b)) => {
                if a.len() != b.len() {
                    return false;
                }
                let mut i: usize = 0;
                while i < a.len()
                    invariant
                        i <= a.len(),
                        a@.len() == b@.len(),
                        self@ == Patterns::Product(a@),
                        other@ == Patterns::Product(b@),
                        forall|j: int| 0 <= j < i ==> a@[j] == b@[j],
                    decreases a.len() - i,
                {
                    if a[i].lo != b[i].lo || a[i].hi != b[i].hi {
                        assert(a@[i as int] != b@[i as int]);
                        return false;
                    }
                    i += 1;
                }
                assert(a@ =~= b@);
                true
            },
            _ => false,
        }
    }
}

impl Clone for Validity {
    fn clone(&self) -> (r: Validity)
        ensures
            r@ == self@,
    {
        proof {
            use_type_invariant(self);
        }
        match &self.ranges {
            None => Validity { ranges: None },
            Some(src) => {
                let mut ranges: Vec<ByteRange> = Vec::new();
                let mut i: usize = 0;
                while i < src.len()
                    invariant
                        i <= src.len(),
                        ranges@ == src@.take(i as int),
                    decreases src.len() - i,
                {
                    ranges.push(src[i]);
                    i += 1;
                }
                assert(ranges@ =~= src@);
                Validity { ranges: Some(ranges) }
            },
        }
    }
}

/// The size of a reference in bytes: that of `usize`.
pub open spec fn pointer_size() -> nat {
    vstd::layout::size_of::<usize>()
}

/// The alignment of a reference: that of `usize`.
pub open spec fn pointer_alignment() -> nat {
    vstd::layout::align_of::<usize>()
}

/// What a layout descriptor says: the size of a type in bytes, its alignment,
/// its legal bit patterns and, for a reference, the descriptor of what it
/// refers to.
pub struct LayoutModel {
    pub size: nat,
    pub alignment: nat,
    pub validity: Patterns,
    pub referent: Option<Box<LayoutModel>>,
}

impl LayoutModel {
    /// The alignment is a power of two, the legal patterns have exactly `size`
    /// bytes, and the same holds of the referent.
    pub open spec fn wf(self) -> bool
        decreases self,
    {
        &&& is_pow2(self.alignment as int)
        &&& self.validity.wf()
        &&& match self.validity {
            Patterns::Empty => true,
            Patterns::Product(ranges) => ranges.len() == self.size,
        }
        &&& match self.referent {
            None => true,
            Some(referent) => referent.wf(),
        }
    }

    /// Whether the descriptor is that of a reference.
    pub open spec fn is_reference(self) -> bool {
        self.referent is Some
    }

    /// Whether `bits` is a legal instance of the type.
    pub open spec fn admits(self, bits: Seq<u8>) -> bool {
        self.validity.admits(bits)
    }

    /// Whether every legal instance of this type is a legal instance of `dst`.
    pub open spec fn fits(self, dst: LayoutModel) -> bool {
        self.validity.subset_of(dst.validity)
    }

    /// The descriptor of a type that is no reference.
    pub open spec fn owned(size: nat, alignment: nat, validity: Patterns) -> LayoutModel {
        LayoutModel { size, alignment, validity, referent: None }
    }

    /// The descriptor of a reference to a type described by `referent`.
    pub open spec fn reference(referent: LayoutModel) -> LayoutModel {
        LayoutModel {
            size: pointer_size(),
            alignment: pointer_alignment(),
            validity: unconstrained(pointer_size()),
            referent: Some(Box::new(referent)),
        }
    }

    /// The descriptor of an array of `count` elements of this type.
    pub open spec fn array(self, count: nat) -> LayoutModel {
        LayoutModel {
            size: self.size * count,
            alignment: self.alignment,
            validity: self.validity.repeat(count),
            referent: None,
        }
    }
}

/// Whether `n` is a power of two.
fn is_power_of_two(n: usize) -> (r: bool)
    ensures
        r == is_pow2(n as int),
{
    if n == 0 {
        proof {
            reveal(is_pow2);
        }
        return false;
    }
    let mut m: usize = n;
    while m % 2 == 0
        invariant
            m > 0,
            is_pow2(m as int) == is_pow2(n as int),
        decreases m,
    {
        proof {
            reveal(is_pow2);
        }
        m = m / 2;
    }
    proof {
        reveal(is_pow2);
    }
    m == 1
}

/// The layout descriptor of a type, as held at run time.
#[derive(Debug)]
pub struct Layout {
    size: usize,
    alignment: usize,
    validity: Validity,
    referent: Option<Box<Layout>>,
}

impl View for Layout {
    type V = LayoutModel;

    closed spec fn view(&self) -> LayoutModel
        decreases self,
    {
        LayoutModel {
            size: self.size as nat,
            alignment: self.alignment as nat,
            validity: self.validity@,
            referent: match self.referent {
                None => None,
                Some(referent) => Some(Box::new((*referent).view())),
            },
        }
    }
}

impl Layout {
    /// Every descriptor at run time is well formed.
    #[verifier::type_invariant]
    pub open spec fn well_formed(self) -> bool {
        self@.wf()
    }

    /// The descriptor of a type that is no reference, from its size, its
    /// alignment and its validity; `None` unless the alignment is a power of
    /// two and the validity speaks of patterns of exactly `size` bytes.
    pub fn new(size: usize, alignment: usize, validity: Validity) -> (r: Option<Layout>)
        ensures
            r is Some <==> LayoutModel::owned(size as nat, alignment as nat, validity@).wf(),
            r matches Some(l) ==> l@ == LayoutModel::owned(
                size as nat,
                alignment as nat,
                validity@,
            ),
    {
        proof {
            use_type_invariant(&validity);
        }
        if !is_power_of_two(alignment) {
            return None;
        }
        match validity.len() {
            Some(len) => {
                if len != size {
                    return None;
                }
            },
            None => {},
        }
        Some(Layout { size, alignment, validity, referent: None })
    }

    /// The size of the type in bytes.
    pub fn size(&self) -> (r: usize)
        ensures
            r == self@.size,
    {
        self.size
    }

    /// The alignment of the type in bytes.
    pub fn alignment(&self) -> (r: usize)
        ensures
            r == self@.alignment,
    {
        self.alignment
    }

    /// The validity of the type.
    pub fn validity(&self) -> (r: &Validity)
        ensures
            r@ == self@.validity,
    {
        &self.validity
    }

    /// Whether the type is a reference.
    pub fn is_reference(&self) -> (r: bool)
        ensures
            r == self@.is_reference(),
    {
        self.referent.is_some()
    }

    /// The descriptor of what a reference refers to; `None` for a type that is
    /// no reference.
    pub fn referent(&self) -> (r: Option<&Layout>)
        ensures
            match r {
                None => self@.referent is None,
                Some(l) => self@.referent == Some(Box::new(l@)),
            },
    {
        match &self.referent {
            None => None,
            Some(referent) => Some(&**referent),
        }
    }

    /// The descriptor of a reference to a type described by `referent`. A
    /// reference has the size and alignment of `usize`; which of its bit
    /// patterns are legal is a matter of what it refers to.
    pub fn reference(referent: Layout) -> (r: Layout)
        ensures
            r@ == LayoutModel::reference(referent@),
    {
        broadcast use vstd::layout::align_properties;

        proof {
            use_type_invariant(&referent);
        }
        let size = core::mem::size_of::<usize>();
        let alignment = core::mem::align_of::<usize>();
        Layout {
            size,
            alignment,
            validity: Validity::any(size),
            referent: Some(Box::new(referent)),
        }
    }

    /// The descriptor of a numeric type of `size` bytes, aligned to its size,
    /// of which every bit pattern is legal; `None` unless `size` is a power
    /// of two.
    pub fn numeric(size: usize) -> (r: Option<Layout>)
        ensures
            r is Some <==> is_pow2(size as int),
            r matches Some(l) ==> l@ == LayoutModel::owned(
                size as nat,
                size as nat,
                unconstrained(size as nat),
            ),
    {
        if !is_power_of_two(size) {
            return None;
        }
        Some(Layout { size, alignment: size, validity: Validity::any(size), referent: None })
    }

    /// The descriptor of the unit type and of every other zero-sized type with
    /// a single value, such as a marker.
    pub fn unit() -> (r: Layout)
        ensures
            r@ == LayoutModel::owned(0, 1, Patterns::Product(Seq::empty())),
    {
        proof {
            reveal(is_pow2);
        }
        let validity = Validity::any(0);
        assert(validity@->Product_0 =~= Seq::empty());
        Layout { size: 0, alignment: 1, validity, referent: None }
    }

    /// The descriptor of the empty type, which has no value.
    pub fn empty() -> (r: Layout)
        ensures
            r@ == LayoutModel::owned(0, 1, Patterns::Empty),
    {
        proof {
            reveal(is_pow2);
        }
        Layout { size: 0, alignment: 1, validity: Validity::uninhabited(), referent: None }
    }

    /// The descriptor of an array of `count` elements of this type; `None` if
    /// the array's size does not fit in `usize`.
    pub fn array(&self, count: usize) -> (r: Option<Layout>)
        ensures
            r is Some <==> self@.size * count <= usize::MAX,
            r matches Some(l) ==> l@ == self@.array(count as nat),
    {
        proof {
            use_type_invariant(self);
        }
        match self.size.checked_mul(count) {
            None => None,
            Some(size) => {
                let validity = self.validity.repeat(self.size, count);
                proof {
                    use_type_invariant(&validity);
                    let model = self@.array(count as nat);
                    assert(validity@ == model.validity);
                    match self@.validity {
                        Patterns::Empty => {
                            if count == 0 {
                                assert(model.validity->Product_0.len() == 0);
                                assert(self@.size * 0 == 0);
                            }
                        },
                        Patterns::Product(ranges) => {
                            assert(model.validity->Product_0.len() == ranges.len() * count);
                        },
                    }
                    assert(model.wf());
                }
                Some(Layout { size, alignment: self.alignment, validity, referent: None })
            },
        }
    }

    /// Whether `other` describes the same layout.
    pub fn same(&self, other: &Layout) -> (r: bool)
        ensures
            r == (self@ == other@),
        decreases self,
    {
        if self.size != other.size || self.alignment != other.alignment {
            return false;
        }
        if !self.validity.same(&other.validity) {
            return false;
        }
        match (&self.referent, &other.referent) {
            (None, None) => true,
            (Some(a), Some(b)) => {
                let r = (&**a).same(&**b);
                r
            },
            _ => false,
        }
    }

    /// Whether every legal instance of this type is a legal instance of `dst`.
    pub fn fits(&self, dst: &Layout) -> (r: bool)
        ensures
            r == self@.fits(dst@),
    {
        self.validity.subset_of(&dst.validity)
    }
}

impl Clone for Layout {
    fn clone(&self) -> (r: Layout)
        ensures
            r@ == self@,
        decreases self,
    {
        proof {
            use_type_invariant(self);
        }
        Layout {
            size: self.size,
            alignment: self.alignment,
            validity: self.validity.clone(),
            referent: match &self.referent {
                None => None,
                Some(referent) => Some(Box::new((&**referent).clone())),
            },
        }
    }
}

} // verus!
