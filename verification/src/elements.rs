//! Runs of elements: values of one type laid out one after the other.
//!
//! A view of a sequence refers to such a run. When the run is read again as
//! elements of another type, the bytes stay and the boundaries between the
//! elements move, so validity has to hold at every position that a byte of
//! the one type can take within an element of the other.

use crate::layout::ByteRange;
use crate::layout::Layout;
use crate::layout::LayoutModel;
use crate::layout::Patterns;
use vstd::arithmetic::div_mod::lemma_fundamental_div_mod_converse;
use vstd::arithmetic::div_mod::lemma_mod_mod;
use vstd::prelude::*;

verus! {

/// Element `i` of a sequence of elements of `size` bytes each, laid out one
/// after the other in `bits`.
pub open spec fn element(bits: Seq<u8>, size: nat, i: int) -> Seq<u8> {
    bits.subrange(i * size, (i + 1) * size)
}

/// The number of whole elements of `dst_size` bytes that the bytes of `count`
/// elements of `src_size` bytes hold; zero where `dst_size` is zero.
pub open spec fn cast_len(count: nat, src_size: nat, dst_size: nat) -> nat {
    if dst_size == 0 {
        0
    } else {
        ((count * src_size) / dst_size) as nat
    }
}

/// The count of whole elements of `dst_size` bytes that `count` elements of
/// `src_size` bytes hold; zero where `dst_size` is zero.
pub fn cast_count(count: usize, src_size: usize, dst_size: usize) -> (r: usize)
    requires
        count * src_size <= usize::MAX,
    ensures
        r == cast_len(count as nat, src_size as nat, dst_size as nat),
        r * dst_size <= count * src_size,
{
    let bytes = count * src_size;
    let r = bytes.checked_div(dst_size).unwrap_or(0);
    proof {
        if dst_size != 0 {
            vstd::arithmetic::div_mod::lemma_fundamental_div_mod(bytes as int, dst_size as int);
            vstd::arithmetic::div_mod::lemma_mod_bound(bytes as int, dst_size as int);
            assert(r * dst_size == dst_size * r) by (nonlinear_arith);
        }
    }
    r
}

/// The elements that a cast gives take up no more bytes than those that it
/// was given.
pub proof fn lemma_cast_len_bound(count: nat, src_size: nat, dst_size: nat)
    ensures
        cast_len(count, src_size, dst_size) * dst_size <= count * src_size,
{
    if dst_size != 0 {
        let bytes = (count * src_size) as int;
        let d = dst_size as int;
        vstd::arithmetic::div_mod::lemma_fundamental_div_mod(bytes, d);
        vstd::arithmetic::div_mod::lemma_mod_bound(bytes, d);
        assert((bytes / d) * d == d * (bytes / d)) by (nonlinear_arith);
        assert(0 <= bytes / d) by {
            vstd::arithmetic::div_mod::lemma_div_pos_is_pos(bytes, d);
        }
    }
}

/// Element `j` of `n` elements of `size` bytes lies within their bytes.
pub proof fn lemma_element_within(j: int, n: int, size: int)
    requires
        0 <= j < n,
        0 <= size,
    ensures
        0 <= j * size <= (j + 1) * size <= n * size,
        (j + 1) * size == j * size + size,
{
    assert(0 <= j * size) by (nonlinear_arith)
        requires
            0 <= j,
            0 <= size,
    ;
    assert((j + 1) * size == j * size + size) by (nonlinear_arith);
    assert((j + 1) * size <= n * size) by (nonlinear_arith)
        requires
            j + 1 <= n,
            0 <= size,
    ;
}

impl LayoutModel {
    /// Whether each of the first `count` elements laid out in `bits` is a legal
    /// instance of the type.
    pub open spec fn admits_elements(self, bits: Seq<u8>, count: nat) -> bool {
        forall|i: int| 0 <= i < count ==> self.admits(#[trigger] element(bits, self.size, i))
    }

    /// Whether every run of legal instances of this type, read again as
    /// elements of `dst`, gives legal instances of `dst` only.
    pub open spec fn elements_fit(self, dst: LayoutModel) -> bool {
        forall|bits: Seq<u8>, count: nat|
            bits.len() == count * self.size && #[trigger] self.admits_elements(bits, count)
                ==> dst.admits_elements(bits, cast_len(count, self.size, dst.size))
    }
}

/// Whether the values that a run of `src` elements may hold at byte position
/// `p` are all values that an element of `dst` may hold there.
pub open spec fn position_fits(src: Seq<ByteRange>, dst: Seq<ByteRange>, p: int) -> bool {
    src[p % (src.len() as int)].within(dst[p % (dst.len() as int)])
}

/// If the positions below a common multiple of both sizes fit, all do.
proof fn lemma_positions_repeat(src: Seq<ByteRange>, dst: Seq<ByteRange>, period: int)
    requires
        src.len() > 0,
        dst.len() > 0,
        period > 0,
        period % (src.len() as int) == 0,
        period % (dst.len() as int) == 0,
        forall|p: int| 0 <= p < period ==> position_fits(src, dst, p),
    ensures
        forall|p: int| 0 <= p ==> position_fits(src, dst, p),
{
    let s = src.len() as int;
    let d = dst.len() as int;
    assert forall|p: int| 0 <= p implies position_fits(src, dst, p) by {
        let q = p % period;
        assert(period == s * (period / s)) by {
            vstd::arithmetic::div_mod::lemma_fundamental_div_mod(period, s);
        }
        assert(period == d * (period / d)) by {
            vstd::arithmetic::div_mod::lemma_fundamental_div_mod(period, d);
        }
        assert(period / s > 0 && period / d > 0) by (nonlinear_arith)
            requires
                period > 0,
                s > 0,
                d > 0,
                period == s * (period / s),
                period == d * (period / d),
        ;
        lemma_mod_mod(p, s, period / s);
        lemma_mod_mod(p, d, period / d);
        assert(q % s == p % s);
        assert(q % d == p % d);
        assert(position_fits(src, dst, q));
    }
}

/// Where every position fits, a run of legal `src` elements reads as legal
/// `dst` elements.
proof fn lemma_positions_fit(src: LayoutModel, dst: LayoutModel)
    requires
        src.wf(),
        dst.wf(),
        src.size > 0,
        dst.size > 0,
        src.validity is Product,
        dst.validity is Product,
        forall|p: int|
            0 <= p ==> position_fits(src.validity->Product_0, dst.validity->Product_0, p),
    ensures
        src.elements_fit(dst),
{
    let rs = src.validity->Product_0;
    let rd = dst.validity->Product_0;
    let s = src.size as int;
    let d = dst.size as int;
    assert forall|bits: Seq<u8>, count: nat|
        bits.len() == count * src.size && #[trigger] src.admits_elements(
            bits,
            count,
        ) implies dst.admits_elements(bits, cast_len(count, src.size, dst.size)) by {
        let n = cast_len(count, src.size, dst.size);
        assert(n * d <= count * s) by {
            vstd::arithmetic::div_mod::lemma_fundamental_div_mod(count * s, d);
            vstd::arithmetic::div_mod::lemma_mod_bound(count * s, d);
            assert(d * ((count * s) / d) == ((count * s) / d) * d) by (nonlinear_arith);
        }
        assert forall|j: int| 0 <= j < n implies dst.admits(
            #[trigger] element(bits, dst.size, j),
        ) by {
            let e = element(bits, dst.size, j);
            assert((j + 1) * d <= n * d) by (nonlinear_arith)
                requires
                    j + 1 <= n,
                    d > 0,
            ;
            assert(0 <= j * d) by (nonlinear_arith)
                requires
                    0 <= j,
                    d > 0,
            ;
            assert((j + 1) * d == j * d + d) by (nonlinear_arith);
            assert(e.len() == d);
            assert forall|k: int| 0 <= k < rd.len() implies (#[trigger] rd[k]).holds(e[k]) by {
                let p = j * d + k;
                assert(e[k] == bits[p]);
                lemma_fundamental_div_mod_converse(p, d, j, k);
                // the byte at `p` belongs to source element `p / s`
                let i = p / s;
                let a = p % s;
                vstd::arithmetic::div_mod::lemma_fundamental_div_mod(p, s);
                vstd::arithmetic::div_mod::lemma_mod_bound(p, s);
                assert(p == s * i + a);
                assert(0 <= i) by {
                    vstd::arithmetic::div_mod::lemma_div_pos_is_pos(p, s);
                }
                assert(i < count) by (nonlinear_arith)
                    requires
                        p == s * i + a,
                        0 <= a,
                        p < count * s,
                        s > 0,
                ;
                let f = element(bits, src.size, i);
                assert(src.admits(f));
                assert(i * s + a == p) by (nonlinear_arith)
                    requires
                        p == s * i + a,
                ;
                assert((i + 1) * s == i * s + s) by (nonlinear_arith);
                assert((i + 1) * s <= count * s) by (nonlinear_arith)
                    requires
                        i + 1 <= count,
                        s > 0,
                ;
                assert(f[a] == bits[p]);
                assert(rs[a].holds(f[a]));
                assert(position_fits(rs, rd, p));
            }
        }
    }
}

/// A run of `count` elements that each hold the lowest pattern of `ranges`,
/// but for the byte at position `at`, which is `byte`.
spec fn lowest_run(ranges: Seq<ByteRange>, count: nat, at: int, byte: u8) -> Seq<u8> {
    Seq::new(
        count * ranges.len(),
        |q: int| if q == at {
            byte
        } else {
            ranges[q % (ranges.len() as int)].lo
        },
    )
}

/// Every element of such a run is a legal instance, where `byte` is a value
/// that the type may hold at position `at`.
proof fn lemma_lowest_run(src: LayoutModel, count: nat, at: int, byte: u8)
    requires
        src.wf(),
        src.size > 0,
        src.validity is Product,
        0 <= at,
        src.validity->Product_0[at % (src.size as int)].holds(byte),
    ensures
        src.admits_elements(lowest_run(src.validity->Product_0, count, at, byte), count),
{
    let rs = src.validity->Product_0;
    let s = src.size as int;
    let bits = lowest_run(rs, count, at, byte);
    assert forall|i: int| 0 <= i < count implies src.admits(
        #[trigger] element(bits, src.size, i),
    ) by {
        let f = element(bits, src.size, i);
        assert((i + 1) * s == i * s + s) by (nonlinear_arith);
        assert((i + 1) * s <= count * s) by (nonlinear_arith)
            requires
                i + 1 <= count,
                s > 0,
        ;
        assert(0 <= i * s) by (nonlinear_arith)
            requires
                0 <= i,
                s > 0,
        ;
        assert(f.len() == s);
        assert forall|c: int| 0 <= c < rs.len() implies (#[trigger] rs[c]).holds(f[c]) by {
            let q = i * s + c;
            assert(f[c] == bits[q]);
            lemma_fundamental_div_mod_converse(q, s, i, c);
            assert(rs[c].inhabited());
        }
    }
}

/// Where some position does not fit, some run of legal `src` elements reads
/// as a `dst` element that is not legal.
proof fn lemma_position_unfit(src: LayoutModel, dst: LayoutModel, p: int)
    requires
        src.wf(),
        dst.wf(),
        src.size > 0,
        dst.size > 0,
        src.validity is Product,
        dst.validity is Product,
        0 <= p,
        !position_fits(src.validity->Product_0, dst.validity->Product_0, p),
    ensures
        !src.elements_fit(dst),
{
    let rs = src.validity->Product_0;
    let rd = dst.validity->Product_0;
    let s = src.size as int;
    let d = dst.size as int;
    let a = p % s;
    let k = p % d;
    let j = p / d;
    vstd::arithmetic::div_mod::lemma_mod_bound(p, s);
    vstd::arithmetic::div_mod::lemma_mod_bound(p, d);
    vstd::arithmetic::div_mod::lemma_fundamental_div_mod(p, d);
    vstd::arithmetic::div_mod::lemma_div_pos_is_pos(p, d);
    let byte = choose|byte: u8| rs[a].holds(byte) && !rd[k].holds(byte);
    let count = (p + d) as nat;
    let bits = lowest_run(rs, count, p, byte);
    lemma_lowest_run(src, count, p, byte);
    assert(j * d + k == p) by (nonlinear_arith)
        requires
            p == d * j + k,
    ;
    assert((j + 1) * d == j * d + d) by (nonlinear_arith);
    assert((j + 1) * d <= count * s) by (nonlinear_arith)
        requires
            (j + 1) * d == j * d + d,
            j * d + k == p,
            0 <= k,
            count == p + d,
            s >= 1,
            p >= 0,
            d > 0,
    ;
    assert(0 <= j * d) by (nonlinear_arith)
        requires
            0 <= j,
            d > 0,
    ;
    let n = cast_len(count, src.size, dst.size);
    assert(j < n) by {
        vstd::arithmetic::div_mod::lemma_fundamental_div_mod(count * s, d);
        vstd::arithmetic::div_mod::lemma_mod_bound(count * s, d);
        let m = (count * s) / d;
        assert(j < m) by (nonlinear_arith)
            requires
                (j + 1) * d <= count * s,
                count * s == d * m + (count * s) % d,
                (count * s) % d < d,
                d > 0,
        ;
    }
    if dst.admits_elements(bits, n) {
        let e = element(bits, dst.size, j);
        assert(dst.admits(e));
        assert(e[k] == bits[p]);
        assert(rd[k].holds(e[k]));
        assert(false);
    }
}

/// A type with a value and a size cannot stand, element by element, for the
/// empty type if that has a size too: the run would hold an element of it.
proof fn lemma_empty_unfit(src: LayoutModel, dst: LayoutModel)
    requires
        src.wf(),
        src.size > 0,
        dst.size > 0,
        src.validity is Product,
        dst.validity is Empty,
    ensures
        !src.elements_fit(dst),
{
    let rs = src.validity->Product_0;
    let s = src.size as int;
    let d = dst.size as int;
    vstd::arithmetic::div_mod::lemma_mod_bound(0, s);
    let byte = rs[0].lo;
    assert(rs[0].inhabited());
    let count = dst.size;
    let bits = lowest_run(rs, count, 0, byte);
    lemma_lowest_run(src, count, 0, byte);
    let n = cast_len(count, src.size, dst.size);
    assert(n == s) by {
        assert(count * s == s * d) by (nonlinear_arith)
            requires
                count == d,
        ;
        vstd::arithmetic::div_mod::lemma_div_multiples_vanish(s, d);
    }
    if dst.admits_elements(bits, n) {
        assert(dst.admits(element(bits, dst.size, 0)));
        assert(false);
    }
}

/// Runs of elements are compared position by position: between two types
/// that have values and sizes, every run of legal `src` elements reads as
/// legal `dst` elements exactly when, at every byte position of a run, each
/// value that `src` may hold there is one that `dst` may hold there.
pub proof fn lemma_elements_fit_by_positions(src: LayoutModel, dst: LayoutModel)
    requires
        src.wf(),
        dst.wf(),
        src.size > 0,
        dst.size > 0,
        src.validity is Product,
        dst.validity is Product,
    ensures
        src.elements_fit(dst) <==> forall|p: int|
            0 <= p ==> position_fits(src.validity->Product_0, dst.validity->Product_0, p),
{
    let from = src.validity->Product_0;
    let to = dst.validity->Product_0;
    if forall|p: int| 0 <= p ==> position_fits(from, to, p) {
        lemma_positions_fit(src, dst);
    } else {
        let p = choose|p: int| 0 <= p && !position_fits(from, to, p);
        lemma_position_unfit(src, dst, p);
    }
}

/// A run of elements fits a type without size, since no element of that type
/// is read from it; and a run of elements without size, or of a type without
/// values, fits every type, since it holds no byte.
pub proof fn lemma_elements_fit_trivially(src: LayoutModel, dst: LayoutModel)
    requires
        dst.size == 0 || src.size == 0 || src.validity is Empty,
    ensures
        src.elements_fit(dst),
{
    assert forall|bits: Seq<u8>, count: nat|
        bits.len() == count * src.size && #[trigger] src.admits_elements(
            bits,
            count,
        ) implies dst.admits_elements(bits, cast_len(count, src.size, dst.size)) by {
        if dst.size != 0 {
            if src.size == 0 {
                assert(count * 0 == 0);
            } else {
                if count > 0 {
                    assert(src.admits(element(bits, src.size, 0)));
                }
                assert(0 * src.size == 0);
            }
            assert(cast_len(count, src.size, dst.size) == 0);
        }
    }
}

/// Between types of one size that is not zero, a run of elements fits
/// exactly when a single value does.
pub proof fn lemma_equal_sizes_fit(src: LayoutModel, dst: LayoutModel)
    requires
        src.wf(),
        dst.wf(),
        src.size == dst.size,
        src.size > 0,
    ensures
        src.elements_fit(dst) <==> src.fits(dst),
{
    let size = src.size as int;
    if src.elements_fit(dst) {
        assert forall|bits: Seq<u8>| src.validity.admits(bits) implies dst.validity.admits(
            bits,
        ) by {
            assert(1 * src.size == src.size);
            assert(element(bits, src.size, 0) =~= bits);
            assert(src.admits_elements(bits, 1));
            assert(cast_len(1, src.size, dst.size) == 1) by {
                vstd::arithmetic::div_mod::lemma_div_by_self(size);
            }
            assert(dst.admits(element(bits, dst.size, 0)));
        }
    }
    if src.fits(dst) {
        assert forall|bits: Seq<u8>, count: nat|
            bits.len() == count * src.size && #[trigger] src.admits_elements(
                bits,
                count,
            ) implies dst.admits_elements(bits, cast_len(count, src.size, dst.size)) by {
            assert(cast_len(count, src.size, dst.size) == count) by {
                vstd::arithmetic::div_mod::lemma_div_multiples_vanish(count as int, size);
            }
            assert forall|i: int| 0 <= i < count implies dst.admits(
                #[trigger] element(bits, dst.size, i),
            ) by {
                assert(src.admits(element(bits, src.size, i)));
            }
        }
    }
}

/// An array holds a legal instance exactly when its bytes are those of
/// `count` legal instances of the element, one after the other.
pub proof fn lemma_array_admits(elem: LayoutModel, count: nat, bits: Seq<u8>)
    requires
        elem.wf(),
    ensures
        elem.array(count).admits(bits) <==> bits.len() == count * elem.size
            && elem.admits_elements(bits, count),
{
    let size = elem.size as int;
    let array = elem.array(count);
    match elem.validity {
        Patterns::Empty => {
            if count > 0 && elem.admits_elements(bits, count) {
                assert(elem.admits(element(bits, elem.size, 0)));
            }
            if count == 0 {
                assert(0 * elem.size == 0);
            }
        },
        Patterns::Product(ranges) => {
            let repeated = array.validity->Product_0;
            assert(repeated.len() == ranges.len() * count);
            assert(ranges.len() * count == count * elem.size) by (nonlinear_arith)
                requires
                    ranges.len() == elem.size,
            ;
            if array.admits(bits) {
                assert forall|i: int| 0 <= i < count implies elem.admits(
                    #[trigger] element(bits, elem.size, i),
                ) by {
                    lemma_element_within(i, count as int, size);
                    let e = element(bits, elem.size, i);
                    assert forall|k: int| 0 <= k < ranges.len() implies (
                    #[trigger] ranges[k]).holds(e[k]) by {
                        let p = i * size + k;
                        lemma_fundamental_div_mod_converse(p, size, i, k);
                        assert(repeated[p].holds(bits[p]));
                        assert(e[k] == bits[p]);
                    }
                }
            }
            if bits.len() == count * elem.size && elem.admits_elements(bits, count) {
                assert forall|p: int| 0 <= p < repeated.len() implies (
                #[trigger] repeated[p]).holds(bits[p]) by {
                    let i = p / size;
                    let k = p % size;
                    vstd::arithmetic::div_mod::lemma_fundamental_div_mod(p, size);
                    vstd::arithmetic::div_mod::lemma_mod_bound(p, size);
                    vstd::arithmetic::div_mod::lemma_div_pos_is_pos(p, size);
                    assert(i < count) by (nonlinear_arith)
                        requires
                            p == size * i + k,
                            0 <= k,
                            p < count * size,
                            size > 0,
                    ;
                    lemma_element_within(i, count as int, size);
                    let e = element(bits, elem.size, i);
                    assert(elem.admits(e));
                    assert(i * size + k == p) by (nonlinear_arith)
                        requires
                            p == size * i + k,
                    ;
                    assert(e[k] == bits[p]);
                    assert(ranges[k].holds(e[k]));
                }
            }
        },
    }
}

impl Layout {
    /// Whether every run of legal instances of this type, read again as
    /// elements of `dst`, gives legal instances of `dst` only.
    ///
    /// A byte at position `p` of the run is byte `p % size` of an element of
    /// this type and byte `p % dst.size` of an element of `dst`. The positions
    /// are compared one by one up to the first common multiple of both sizes,
    /// after which they repeat.
    pub fn elements_fit(&self, dst: &Layout) -> (r: bool)
        ensures
            r == self@.elements_fit(dst@),
    {
        proof {
            use_type_invariant(self);
            use_type_invariant(dst);
        }
        let s = self.size();
        let d = dst.size();
        if d == 0 || s == 0 {
            proof {
                lemma_elements_fit_trivially(self@, dst@);
            }
            return true;
        }
        let src_ranges = match self.validity().ranges() {
            None => {
                proof {
                    lemma_elements_fit_trivially(self@, dst@);
                }
                return true;
            },
            Some(ranges) => ranges,
        };
        let dst_ranges = match dst.validity().ranges() {
            None => {
                proof {
                    lemma_empty_unfit(self@, dst@);
                }
                return false;
            },
            Some(ranges) => ranges,
        };
        let mut a: usize = 0;
        let mut j: usize = 0;
        loop
            invariant_except_break
                j < s,
                a == (j * d) % (s as int),
            invariant
                s == self@.size,
                d == dst@.size,
                s > 0,
                d > 0,
                self@.wf(),
                dst@.wf(),
                self@.validity == Patterns::Product(src_ranges@),
                dst@.validity == Patterns::Product(dst_ranges@),
                a < s,
                j <= s,
                forall|p: int| 0 <= p < j * d ==> position_fits(src_ranges@, dst_ranges@, p),
            ensures
                j > 0,
                a == 0,
                a == (j * d) % (s as int),
            decreases s - j,
        {
            let mut k: usize = 0;
            while k < d
                invariant
                    s == self@.size,
                    d == dst@.size,
                    s > 0,
                    d > 0,
                    self@.wf(),
                    dst@.wf(),
                    self@.validity == Patterns::Product(src_ranges@),
                    dst@.validity == Patterns::Product(dst_ranges@),
                    a < s,
                    k <= d,
                    j < s,
                    a == (j * d + k) % (s as int),
                    forall|p: int|
                        0 <= p < j * d + k ==> position_fits(src_ranges@, dst_ranges@, p),
                decreases d - k,
            {
                let ghost p = j * d + k;
                proof {
                    assert(0 <= j * d) by (nonlinear_arith)
                        requires
                            0 <= j,
                            0 < d,
                    ;
                    lemma_fundamental_div_mod_converse(p, d as int, j as int, k as int);
                    assert(src_ranges@[a as int].inhabited());
                }
                if !src_ranges[a].is_within(&dst_ranges[k]) {
                    proof {
                        assert(!position_fits(src_ranges@, dst_ranges@, p));
                        lemma_position_unfit(self@, dst@, p);
                    }
                    return false;
                }
                proof {
                    assert(position_fits(src_ranges@, dst_ranges@, p));
                    // the next position's place in a source element
                    let q = p / (s as int);
                    vstd::arithmetic::div_mod::lemma_fundamental_div_mod(p, s as int);
                    if a + 1 == s {
                        assert(p + 1 == (q + 1) * s + 0) by (nonlinear_arith)
                            requires
                                p == s * q + a,
                                a + 1 == s,
                        ;
                        lemma_fundamental_div_mod_converse(p + 1, s as int, q + 1, 0);
                    } else {
                        assert(p + 1 == q * s + (a + 1)) by (nonlinear_arith)
                            requires
                                p == s * q + a,
                        ;
                        lemma_fundamental_div_mod_converse(p + 1, s as int, q, a + 1);
                    }
                }
                a = if a + 1 == s {
                    0
                } else {
                    a + 1
                };
                k += 1;
            }
            proof {
                assert((j + 1) * d == j * d + d) by (nonlinear_arith);
                if a != 0 && j + 1 == s {
                    assert((s * d) % (s as int) == 0) by {
                        vstd::arithmetic::div_mod::lemma_mod_multiples_basic(d as int, s as int);
                        assert(s * d == d * s) by (nonlinear_arith);
                    }
                }
            }
            j += 1;
            if a == 0 {
                break ;
            }
        }
        proof {
            let period = j * d;
            assert(period > 0) by (nonlinear_arith)
                requires
                    j > 0,
                    d > 0,
                    period == j * d,
            ;
            assert(period % (d as int) == 0) by {
                vstd::arithmetic::div_mod::lemma_mod_multiples_basic(j as int, d as int);
            }
            lemma_positions_repeat(src_ranges@, dst_ranges@, period);
            lemma_positions_fit(self@, dst@);
        }
        true
    }
}

} // verus!
