use transmutability::cast::CastFrom;
use transmutability::cast::CastInto;
use transmutability::elements::cast_count;
use transmutability::layout::ByteRange;
use transmutability::layout::Layout;
use transmutability::layout::Validity;
use transmutability::options::Check;
use transmutability::options::Neglect;
use transmutability::options::NeglectAlignment;
use transmutability::options::NeglectStability;
use transmutability::options::NeglectValidity;
use transmutability::oracle::Denial;
use transmutability::slice::Slice;
use transmutability::slice::SliceMut;
use transmutability::stability::Type;

fn boolean() -> Type {
    let validity = Validity::bytes(vec![ByteRange { lo: 0, hi: 1 }]).unwrap();
    Type::committed(Layout::new(1, 1, validity).unwrap())
}

fn byte() -> Type {
    Type::numeric(1).unwrap()
}

#[test]
fn cast_count_is_the_floor_of_the_quotient() {
    assert_eq!(cast_count(4, 1, 2), 2);
    assert_eq!(cast_count(4, 1, 3), 1);
    assert_eq!(cast_count(4, 1, 5), 0);
    assert_eq!(cast_count(3, 4, 6), 2);
    assert_eq!(cast_count(5, 2, 2), 5);
    assert_eq!(cast_count(0, 8, 2), 0);
    assert_eq!(cast_count(7, 0, 2), 0);
}

#[test]
fn cast_count_to_a_size_of_zero_is_zero() {
    assert_eq!(cast_count(4, 1, 0), 0);
    assert_eq!(cast_count(0, 0, 0), 0);
    assert_eq!(cast_count(9, 0, 0), 0);
}

#[test]
fn a_view_lies_within_its_bytes() {
    let bytes = [1u8, 2, 3, 4, 5];
    assert!(Slice::new(byte(), &bytes, 5).is_some());
    assert!(Slice::new(byte(), &bytes, 6).is_none());
    assert!(Slice::new(Type::numeric(2).unwrap(), &bytes, 2).is_some());
    assert!(Slice::new(Type::numeric(2).unwrap(), &bytes, 3).is_none());
    assert!(Slice::new(Type::numeric(2).unwrap(), &bytes, usize::MAX).is_none());
    assert!(Slice::new(Type::unit(), &bytes, usize::MAX).is_some());
    let view = Slice::new(Type::numeric(2).unwrap(), &bytes, 2).unwrap();
    assert_eq!(view.len(), 2);
    assert_eq!(view.elem().layout.size(), 2);
    assert_eq!(view.get(0), Some(&bytes[0..2]));
    assert_eq!(view.get(1), Some(&bytes[2..4]));
    assert_eq!(view.get(2), None);
    assert_eq!(view.bytes(), &bytes[0..4]);
}

#[test]
fn four_bytes_cast_to_two_pairs() {
    let bytes = [0xFFu8, 0xFE, 0xFD, 0xFC];
    let src = Slice::new(byte(), &bytes, 4).unwrap();
    let pair = byte().array(2).unwrap();
    let dst: Slice = <Slice as CastFrom<Slice, ()>>::cast_from(src, &pair).unwrap();
    assert_eq!(dst.len(), 2);
    assert_eq!(dst.get(0), Some(&[0xFFu8, 0xFE][..]));
    assert_eq!(dst.get(1), Some(&[0xFDu8, 0xFC][..]));
    let first = dst.get(0).unwrap();
    let second = dst.get(1).unwrap();
    assert_eq!(u16::from_le_bytes([first[0], first[1]]), 0xFEFF);
    assert_eq!(u16::from_le_bytes([second[0], second[1]]), 0xFCFD);
    assert_eq!(dst.get(2), None);
}

#[test]
fn four_bytes_cast_to_two_halfwords_when_alignment_is_neglected() {
    let bytes = [0xFFu8, 0xFE, 0xFD, 0xFC];
    let half = Type::numeric(2).unwrap();
    let src = Slice::new(byte(), &bytes, 4).unwrap();
    let denied: Result<Slice, Denial> = <Slice as CastFrom<Slice, ()>>::cast_from(src, &half);
    assert_eq!(denied.err(), Some(Denial::Safety));
    let src = Slice::new(byte(), &bytes, 4).unwrap();
    let dst: Slice =
        <Slice as CastFrom<Slice, (NeglectAlignment, NeglectStability)>>::unsafe_cast_from(src, &half)
            .unwrap();
    assert_eq!(dst.len(), 2);
    let elements: Vec<u16> =
        (0..2).map(|i| dst.get(i).unwrap()).map(|e| u16::from_le_bytes([e[0], e[1]])).collect();
    assert_eq!(elements, vec![0xFEFF, 0xFCFD]);
}

#[test]
fn four_bytes_cast_to_one_triple() {
    let bytes = [1u8, 2, 3, 4];
    let src = Slice::new(byte(), &bytes, 4).unwrap();
    let triple = byte().array(3).unwrap();
    let dst: Slice = <Slice as CastInto<Slice>>::cast_into(src, &triple).unwrap();
    assert_eq!(dst.len(), 1);
    assert_eq!(dst.get(0), Some(&[1u8, 2, 3][..]));
    assert_eq!(dst.get(1), None);
    assert_eq!(dst.bytes(), &[1u8, 2, 3][..]);
}

#[test]
fn the_bytes_out_of_reach_stay_out_of_reach() {
    let bytes = [1u8, 2, 3, 4];
    let src = Slice::new(byte(), &bytes, 4).unwrap();
    let triple = byte().array(3).unwrap();
    let dst: Slice = <Slice as CastFrom<Slice, ()>>::cast_from(src, &triple).unwrap();
    let back: Slice = <Slice as CastFrom<Slice, ()>>::cast_from(dst, &byte()).unwrap();
    assert_eq!(back.len(), 3);
    assert_eq!(back.bytes(), &[1u8, 2, 3][..]);
    assert_eq!(back.get(3), None);
}

#[test]
fn casting_to_a_size_of_zero_gives_no_element() {
    let bytes = [1u8, 2, 3, 4];
    let src = Slice::new(byte(), &bytes, 4).unwrap();
    let dst: Slice = <Slice as CastFrom<Slice, ()>>::cast_from(src, &Type::unit()).unwrap();
    assert_eq!(dst.len(), 0);
    assert_eq!(dst.get(0), None);
    let units = Slice::new(Type::unit(), &bytes, 1000).unwrap();
    assert_eq!(units.len(), 1000);
    assert_eq!(units.get(999), Some(&[][..]));
    let dst: Slice = <Slice as CastFrom<Slice, ()>>::cast_from(units, &byte()).unwrap();
    assert_eq!(dst.len(), 0);
    let units = Slice::new(Type::unit(), &bytes, 1000).unwrap();
    let dst: Slice = <Slice as CastFrom<Slice, ()>>::cast_from(units, &Type::unit()).unwrap();
    assert_eq!(dst.len(), 0);
}

#[test]
fn casting_to_greater_elements_than_the_view_holds() {
    let bytes = [1u8, 2, 3];
    let src = Slice::new(byte(), &bytes, 3).unwrap();
    let quad = byte().array(4).unwrap();
    let dst: Slice = <Slice as CastFrom<Slice, ()>>::cast_from(src, &quad).unwrap();
    assert_eq!(dst.len(), 0);
    assert_eq!(dst.bytes(), &[][..]);
}

#[test]
fn a_checked_cast_keeps_the_elements_valid() {
    let bytes = [1u8, 0, 0, 1, 1, 1];
    let src = Slice::new(boolean(), &bytes, 6).unwrap();
    assert!(src.is_valid());
    let dst: Slice = <Slice as CastFrom<Slice, ()>>::cast_from(src, &byte().array(4).unwrap()).unwrap();
    assert_eq!(dst.len(), 1);
    assert!(dst.is_valid());
    let src = Slice::new(boolean(), &bytes, 6).unwrap();
    let dst: Slice =
        <Slice as CastFrom<Slice, ()>>::cast_from(src, &boolean().array(2).unwrap()).unwrap();
    assert_eq!(dst.len(), 3);
    assert!(dst.is_valid());
}

#[test]
fn neglecting_validity_permits_a_cast_that_the_checked_entry_denies() {
    let bytes = [1u8, 0, 7, 1];
    let src = Slice::new(byte(), &bytes, 4).unwrap();
    assert!(src.is_valid());
    let denied: Result<Slice, Denial> = <Slice as CastFrom<Slice, ()>>::cast_from(src, &boolean());
    assert_eq!(denied.err(), Some(Denial::Safety));
    let src = Slice::new(byte(), &bytes, 4).unwrap();
    let denied: Result<Slice, Denial> =
        <Slice as CastFrom<Slice, NeglectStability>>::cast_from(src, &boolean());
    assert_eq!(denied.err(), Some(Denial::Safety));
    let src = Slice::new(byte(), &bytes, 4).unwrap();
    let dst: Slice =
        <Slice as CastFrom<Slice, (NeglectValidity, NeglectStability)>>::unsafe_cast_from(src, &boolean())
            .unwrap();
    assert_eq!(dst.len(), 4);
    assert_eq!(dst.get(2), Some(&[7u8][..]));
    // the caller answered for validity, and here was wrong
    assert!(!dst.is_valid());
    let fine = [1u8, 0, 0, 1];
    let src = Slice::new(byte(), &fine, 4).unwrap();
    let dst: Slice =
        <Slice as CastFrom<Slice, (NeglectValidity, NeglectStability)>>::unsafe_cast_from(src, &boolean())
            .unwrap();
    assert!(dst.is_valid());
}

#[test]
fn a_view_of_unpromised_elements_needs_stability_neglected() {
    let bytes = [1u8, 2, 3, 4];
    let unpromised = Type::new(Layout::numeric(1).unwrap());
    let src = Slice::new(unpromised.clone(), &bytes, 4).unwrap();
    let denied: Result<Slice, Denial> =
        <Slice as CastInto<Slice>>::cast_into(src, &byte().array(2).unwrap());
    assert_eq!(denied.err(), Some(Denial::Stability));
    let src = Slice::new(unpromised, &bytes, 4).unwrap();
    let dst: Slice =
        <Slice as CastFrom<Slice, NeglectStability>>::cast_from(src, &byte().array(2).unwrap()).unwrap();
    assert_eq!(dst.len(), 2);
}

#[test]
fn an_exclusive_view_casts_like_a_shared_one() {
    let mut bytes = [0xFFu8, 0xFE, 0xFD, 0xFC];
    let src = SliceMut::new(byte(), &mut bytes, 4).unwrap();
    assert_eq!(src.get(3), Some(&[0xFCu8][..]));
    assert_eq!(src.get(4), None);
    let pair = byte().array(2).unwrap();
    let dst: SliceMut = <SliceMut as CastFrom<SliceMut, ()>>::cast_from(src, &pair).unwrap();
    assert_eq!(dst.len, 2);
    assert_eq!(dst.get(1), Some(&[0xFDu8, 0xFC][..]));
    assert_eq!(dst.get(2), None);
    let triple = byte().array(3).unwrap();
    let dst: SliceMut =
        <SliceMut as CastInto<SliceMut, NeglectStability>>::cast_into(dst, &triple).unwrap();
    assert_eq!(dst.len, 1);
    assert_eq!(dst.get(0), Some(&[0xFFu8, 0xFE, 0xFD][..]));
}

#[test]
fn what_is_written_through_a_cast_view_is_written_to_the_bytes() {
    let mut bytes = [1u8, 2, 3, 4];
    {
        let src = SliceMut::new(byte(), &mut bytes, 4).unwrap();
        let pair = byte().array(2).unwrap();
        let dst = src.recast(&pair, Neglect::nothing()).unwrap();
        assert_eq!(dst.len, 2);
        dst.bytes[2] = 9;
    }
    assert_eq!(bytes, [1, 2, 9, 4]);
}

#[test]
fn a_denied_cast_of_an_exclusive_view_reports_the_tier() {
    let mut bytes = [1u8, 2, 3, 4];
    let src = SliceMut::new(byte(), &mut bytes, 4).unwrap();
    let denied = src.recast(&boolean(), Neglect::only(Check::Stability));
    assert_eq!(denied.err(), Some(Denial::Safety));
    let src = SliceMut::new(byte(), &mut bytes, 4).unwrap();
    let denied: Result<SliceMut, Denial> =
        <SliceMut as CastFrom<SliceMut, ()>>::cast_from(src, &Type::numeric(2).unwrap());
    assert_eq!(denied.err(), Some(Denial::Safety));
    assert_eq!(bytes, [1, 2, 3, 4]);
}

#[test]
fn an_exclusive_view_that_claims_too_much_is_unsound() {
    let mut bytes = [1u8, 2, 3, 4];
    assert!(SliceMut::new(byte(), &mut bytes, 5).is_none());
    let by_hand = SliceMut { elem: byte(), bytes: &mut bytes, len: 5 };
    assert_eq!(by_hand.get(4), None);
    assert_eq!(by_hand.get(3), Some(&[4u8][..]));
    let denied = by_hand.recast(&byte(), Neglect::only(Check::Stability));
    assert_eq!(denied.err(), Some(Denial::Soundness));
    let by_hand = SliceMut { elem: Type::numeric(2).unwrap(), bytes: &mut bytes, len: usize::MAX };
    let denied = by_hand.share(&byte(), Neglect::only(Check::Stability));
    assert_eq!(denied.err(), Some(Denial::Soundness));
}

#[test]
fn an_exclusive_view_casts_to_a_shared_one() {
    let mut bytes = [0xFFu8, 0xFE, 0xFD, 0xFC];
    let src = SliceMut::new(byte(), &mut bytes, 4).unwrap();
    let pair = byte().array(2).unwrap();
    let dst: Slice = <Slice as CastFrom<SliceMut, ()>>::cast_from(src, &pair).unwrap();
    assert_eq!(dst.len(), 2);
    assert_eq!(dst.get(0), Some(&[0xFFu8, 0xFE][..]));
    assert_eq!(dst.get(1), Some(&[0xFDu8, 0xFC][..]));
    let src = SliceMut::new(byte(), &mut bytes, 4).unwrap();
    let dst = src.share(&byte().array(3).unwrap(), Neglect::nothing()).unwrap();
    assert_eq!(dst.len(), 1);
    let src = SliceMut::new(byte(), &mut bytes, 4).unwrap();
    let denied: Result<Slice, Denial> =
        <Slice as CastFrom<SliceMut, NeglectStability>>::unsafe_cast_from(src, &boolean());
    assert_eq!(denied.err(), Some(Denial::Safety));
}
