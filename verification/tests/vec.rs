use transmutability::cast::CastFrom;
use transmutability::cast::CastInto;
use transmutability::layout::ByteRange;
use transmutability::layout::Layout;
use transmutability::layout::Validity;
use transmutability::mem::AlignEq;
use transmutability::mem::AlignLtEq;
use transmutability::mem::Described;
use transmutability::mem::SizeEq;
use transmutability::mem::SizeLtEq;
use transmutability::options::Check;
use transmutability::options::Neglect;
use transmutability::options::NeglectAlignment;
use transmutability::options::NeglectStability;
use transmutability::oracle::Denial;
use transmutability::oracle::Verdict;
use transmutability::slice::Slice;
use transmutability::stability::Type;
use transmutability::vec::check_buffer;
use transmutability::vec::Buffer;

fn byte() -> Type {
    Type::numeric(1).unwrap()
}

fn signed_byte() -> Type {
    Type::numeric(1).unwrap()
}

#[test]
fn a_buffer_holds_the_bytes_of_its_elements() {
    assert!(Buffer::new(byte(), vec![1, 2, 3], 3, 8).is_some());
    assert!(Buffer::new(byte(), vec![1, 2, 3], 3, 3).is_some());
    assert!(Buffer::new(byte(), vec![1, 2, 3], 3, 2).is_none());
    assert!(Buffer::new(byte(), vec![1, 2, 3], 2, 8).is_none());
    assert!(Buffer::new(byte(), vec![1, 2, 3], 4, 8).is_none());
    assert!(Buffer::new(Type::numeric(2).unwrap(), vec![1, 2, 3], 1, 8).is_none());
    assert!(Buffer::new(Type::numeric(2).unwrap(), vec![1, 2, 3, 4], 2, 2).is_some());
    assert!(Buffer::new(Type::numeric(2).unwrap(), vec![1, 2], usize::MAX, usize::MAX).is_none());
    assert!(Buffer::new(Type::unit(), Vec::new(), 12, 12).is_some());
    let buffer = Buffer::new(Type::numeric(2).unwrap(), vec![1, 2, 3, 4], 2, 5).unwrap();
    assert_eq!(buffer.len(), 2);
    assert_eq!(buffer.capacity(), 5);
    assert_eq!(buffer.elem().layout.size(), 2);
    assert_eq!(buffer.bytes(), &vec![1, 2, 3, 4]);
    assert_eq!(buffer.get(0), Some(&[1u8, 2][..]));
    assert_eq!(buffer.get(1), Some(&[3u8, 4][..]));
    assert_eq!(buffer.get(2), None);
    assert_eq!(buffer.into_bytes(), vec![1, 2, 3, 4]);
}

#[test]
fn a_buffer_cast_keeps_bytes_and_counts() {
    // four signed bytes -1, -2, -3, -4 read as unsigned bytes
    let src = Buffer::new(signed_byte(), vec![0xFF, 0xFE, 0xFD, 0xFC], 4, 9).unwrap();
    let dst: Buffer = <Buffer as CastInto<Buffer>>::cast_into(src, &byte()).unwrap();
    assert_eq!(dst.len(), 4);
    assert_eq!(dst.capacity(), 9);
    assert_eq!(dst.bytes(), &vec![255, 254, 253, 252]);
    let word = Type::numeric(4).unwrap();
    let counter = Type::committed(Layout::new(4, 4, Validity::any(4)).unwrap());
    let src = Buffer::new(word, vec![1, 0, 0, 0, 2, 0, 0, 0], 2, 2).unwrap();
    let dst: Buffer = <Buffer as CastFrom<Buffer, ()>>::cast_from(src, &counter).unwrap();
    assert_eq!(dst.len(), 2);
    assert_eq!(dst.capacity(), 2);
    assert_eq!(dst.get(1), Some(&[2u8, 0, 0, 0][..]));
}

#[test]
fn a_buffer_cast_needs_equal_sizes_where_a_view_cast_does_not() {
    let bytes = vec![0xFFu8, 0xFE, 0xFD, 0xFC];
    let pair = byte().array(2).unwrap();
    // the view is cast, with an adjusted length
    let view = Slice::new(byte(), &bytes, 4).unwrap();
    let cast: Slice = <Slice as CastFrom<Slice, ()>>::cast_from(view, &pair).unwrap();
    assert_eq!(cast.len(), 2);
    // the buffer of the same elements is not
    let buffer = Buffer::new(byte(), bytes.clone(), 4, 4).unwrap();
    let denied: Result<Buffer, Denial> = <Buffer as CastFrom<Buffer, ()>>::cast_from(buffer, &pair);
    assert_eq!(denied.err(), Some(Denial::Soundness));
    // whatever is neglected
    for stability in [false, true] {
        for alignment in [false, true] {
            for validity in [false, true] {
                let n = Neglect { stability, alignment, validity };
                assert_eq!(check_buffer(&byte(), &pair, n), Verdict::Denied(Denial::Soundness));
            }
        }
    }
    let buffer = Buffer::new(pair, bytes, 2, 2).unwrap();
    let denied: Result<Buffer, Denial> =
        <Buffer as CastFrom<Buffer, NeglectStability>>::unsafe_cast_from(buffer, &byte());
    assert_eq!(denied.err(), Some(Denial::Soundness));
}

#[test]
fn a_buffer_cast_needs_equal_alignments_even_when_alignment_is_neglected() {
    let quad = byte().array(4).unwrap();
    let word = Type::numeric(4).unwrap();
    assert_eq!(check_buffer(&quad, &word, Neglect::nothing()), Verdict::Denied(Denial::Safety));
    assert_eq!(check_buffer(&word, &quad, Neglect::nothing()), Verdict::Denied(Denial::Safety));
    let neglect = Neglect { stability: true, alignment: true, validity: true };
    assert_eq!(check_buffer(&quad, &word, neglect), Verdict::Denied(Denial::Safety));
    let src = Buffer::new(quad, vec![1, 2, 3, 4], 1, 1).unwrap();
    let denied: Result<Buffer, Denial> =
        <Buffer as CastFrom<Buffer, (NeglectAlignment, NeglectStability)>>::unsafe_cast_from(src, &word);
    assert_eq!(denied.err(), Some(Denial::Safety));
}

#[test]
fn a_buffer_cast_goes_through_the_tiers_of_a_single_value() {
    let word = Type::numeric(4).unwrap();
    let unpromised = Type::new(Layout::numeric(4).unwrap());
    assert_eq!(check_buffer(&word, &unpromised, Neglect::nothing()), Verdict::Denied(Denial::Stability));
    assert_eq!(check_buffer(&word, &unpromised, Neglect::only(Check::Stability)), Verdict::Allowed);
    assert_eq!(check_buffer(&word, &word, Neglect::nothing()), Verdict::Allowed);
    let boolean = Type::committed(
        Layout::new(1, 1, Validity::bytes(vec![ByteRange { lo: 0, hi: 1 }]).unwrap()).unwrap(),
    );
    let to_byte = byte().reference();
    let to_boolean = boolean.reference();
    assert_eq!(check_buffer(&to_byte, &to_boolean, Neglect::nothing()), Verdict::Denied(Denial::Safety));
    assert_eq!(check_buffer(&to_boolean, &to_byte, Neglect::nothing()), Verdict::Allowed);
}

#[test]
fn sizes_and_alignments_compare_by_the_descriptors() {
    let quad = byte().array(4).unwrap();
    let word = Type::numeric(4).unwrap();
    let half = Type::numeric(2).unwrap();
    assert!(quad.size_eq(&word));
    assert!(!quad.align_eq(&word));
    assert!(quad.align_lt_eq(&word));
    assert!(!word.align_lt_eq(&quad));
    assert!(half.size_lt_eq(&word));
    assert!(!word.size_lt_eq(&half));
    assert!(!half.size_eq(&word));
    assert!(word.size_lt_eq(&word));
    assert!(word.align_eq(&word));
    // a type and a bare layout compare alike
    assert!(quad.layout.size_eq(&word));
    assert!(word.align_eq(&Layout::numeric(4).unwrap()));
    assert!(Layout::numeric(2).unwrap().align_lt_eq(&Layout::numeric(8).unwrap()));
    assert_eq!(word.layout().size(), 4);
    assert_eq!(Layout::numeric(8).unwrap().layout().alignment(), 8);
}
