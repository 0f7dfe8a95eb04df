use transmutability::layout::ByteRange;
use transmutability::layout::Layout;
use transmutability::layout::Validity;
use transmutability::options::Check;
use transmutability::options::Neglect;
use transmutability::oracle::check;
use transmutability::oracle::check_elements;
use transmutability::oracle::Denial;
use transmutability::oracle::Verdict;
use transmutability::stability::resolve_stability;
use transmutability::stability::resolve_stability_of_elements;
use transmutability::stability::Type;

fn boolean_layout() -> Layout {
    Layout::new(1, 1, Validity::bytes(vec![ByteRange { lo: 0, hi: 1 }]).unwrap()).unwrap()
}

fn boolean() -> Type {
    Type::committed(boolean_layout())
}

fn byte() -> Type {
    Type::numeric(1).unwrap()
}

fn all_selections() -> Vec<Neglect> {
    let mut all = Vec::new();
    for stability in [false, true] {
        for alignment in [false, true] {
            for validity in [false, true] {
                all.push(Neglect { stability, alignment, validity });
            }
        }
    }
    all
}

fn stability() -> Neglect {
    Neglect::only(Check::Stability)
}

#[test]
fn sizes_that_differ_are_unsound_whatever_is_neglected() {
    let a = Type::numeric(4).unwrap();
    let b = Type::numeric(2).unwrap();
    for n in all_selections() {
        assert_eq!(check(&a, &b, n), Verdict::Denied(Denial::Soundness));
        assert_eq!(check(&b, &a, n), Verdict::Denied(Denial::Soundness));
    }
    let r = byte().reference();
    for n in all_selections() {
        assert_eq!(check(&r, &byte(), n), Verdict::Denied(Denial::Soundness));
    }
}

#[test]
fn compatible_layouts_are_allowed() {
    let word = Type::numeric(4).unwrap();
    let bytes = byte().array(4).unwrap();
    assert_eq!(check(&word, &bytes, Neglect::nothing()), Verdict::Allowed);
    assert_eq!(check(&bytes, &word, Neglect::nothing()), Verdict::Allowed);
    assert_eq!(check(&word, &bytes, stability()), Verdict::Allowed);
    // reference forms: the destination's referent is aligned no more strictly
    // and has every bit pattern of the source's
    let to_word = word.clone().reference();
    let to_bytes = bytes.clone().reference();
    assert_eq!(check(&to_word, &to_bytes, Neglect::nothing()), Verdict::Allowed);
    assert_eq!(check(&to_word, &to_bytes, stability()), Verdict::Allowed);
    let to_boolean = boolean().reference();
    let to_byte = byte().reference();
    assert_eq!(check(&to_boolean, &to_byte, Neglect::nothing()), Verdict::Allowed);
}

#[test]
fn a_type_is_transmutable_from_itself_when_stability_is_neglected() {
    let unpromised = Type::new(boolean_layout());
    for n in all_selections() {
        let expected = if n.stability {
            Verdict::Allowed
        } else {
            Verdict::Denied(Denial::Stability)
        };
        assert_eq!(check(&unpromised, &unpromised, n), expected);
        let r = Type::new(Layout::reference(boolean_layout()));
        assert_eq!(check(&r, &r, n), expected);
    }
    for n in all_selections() {
        assert_eq!(check(&boolean(), &boolean(), n), Verdict::Allowed);
    }
}

#[test]
fn alignment_of_the_referent_is_checked_unless_neglected() {
    let bytes = byte().array(4).unwrap().reference();
    let word = Type::numeric(4).unwrap().reference();
    assert_eq!(check(&bytes, &word, Neglect::nothing()), Verdict::Denied(Denial::Safety));
    assert_eq!(check(&bytes, &word, stability()), Verdict::Denied(Denial::Safety));
    let alignment_and_stability = Neglect { stability: true, alignment: true, validity: false };
    assert_eq!(check(&bytes, &word, alignment_and_stability), Verdict::Allowed);
    // with alignment alone neglected, the promises are asked, and they are
    // checked in full
    assert_eq!(
        check(&bytes, &word, Neglect::only(Check::Alignment)),
        Verdict::Denied(Denial::Stability)
    );
    assert_eq!(check(&word, &bytes, Neglect::nothing()), Verdict::Allowed);
}

#[test]
fn validity_of_the_referent_is_checked_unless_neglected() {
    let to_byte = byte().reference();
    let to_boolean = boolean().reference();
    assert_eq!(check(&to_byte, &to_boolean, Neglect::nothing()), Verdict::Denied(Denial::Safety));
    assert_eq!(check(&to_byte, &to_boolean, stability()), Verdict::Denied(Denial::Safety));
    assert_eq!(
        check(&to_byte, &to_boolean, Neglect::only(Check::Alignment)),
        Verdict::Denied(Denial::Safety)
    );
    let validity_and_stability = Neglect { stability: true, alignment: false, validity: true };
    assert_eq!(check(&to_byte, &to_boolean, validity_and_stability), Verdict::Allowed);
    assert_eq!(
        check(&to_byte, &to_boolean, Neglect::only(Check::Validity)),
        Verdict::Denied(Denial::Stability)
    );
}

#[test]
fn referents_of_different_sizes_share_no_bit_pattern() {
    let to_word = Type::numeric(4).unwrap().reference();
    let to_half = Type::numeric(2).unwrap().reference();
    assert_eq!(check(&to_word, &to_half, stability()), Verdict::Denied(Denial::Safety));
    assert_eq!(check(&to_half, &to_word, stability()), Verdict::Denied(Denial::Safety));
    let everything_but_stability = Neglect { stability: true, alignment: true, validity: true };
    assert_eq!(check(&to_half, &to_word, everything_but_stability), Verdict::Allowed);
}

#[test]
fn safety_is_not_asked_of_a_destination_that_is_no_reference() {
    assert_eq!(check(&byte(), &boolean(), Neglect::nothing()), Verdict::Allowed);
    let address = Type::numeric(std::mem::size_of::<usize>()).unwrap();
    let to_boolean = boolean().reference();
    assert_eq!(check(&to_boolean, &address, Neglect::nothing()), Verdict::Allowed);
}

#[test]
fn the_empty_type_is_made_of_nothing_that_has_a_size() {
    for n in all_selections() {
        assert_eq!(check(&byte(), &Type::empty(), n), Verdict::Denied(Denial::Soundness));
        assert_eq!(check(&Type::empty(), &byte(), n), Verdict::Denied(Denial::Soundness));
    }
    assert_eq!(check(&Type::unit(), &Type::empty(), Neglect::nothing()), Verdict::Allowed);
    let to_unit = Type::unit().reference();
    let to_empty = Type::empty().reference();
    assert_eq!(check(&to_unit, &to_empty, Neglect::nothing()), Verdict::Denied(Denial::Safety));
    assert_eq!(check(&to_empty, &to_unit, Neglect::nothing()), Verdict::Allowed);
}

#[test]
fn a_reference_is_not_made_of_what_is_no_reference() {
    let address = Type::numeric(std::mem::size_of::<usize>()).unwrap();
    let to_byte = byte().reference();
    assert_eq!(check(&address, &to_byte, Neglect::nothing()), Verdict::Denied(Denial::Safety));
    assert_eq!(check(&address, &to_byte, stability()), Verdict::Denied(Denial::Safety));
    let alignment = Neglect { stability: true, alignment: true, validity: false };
    assert_eq!(check(&address, &to_byte, alignment), Verdict::Denied(Denial::Safety));
    let validity = Neglect { stability: true, alignment: false, validity: true };
    assert_eq!(check(&address, &to_byte, validity), Verdict::Denied(Denial::Safety));
    let both = Neglect { stability: true, alignment: true, validity: true };
    assert_eq!(check(&address, &to_byte, both), Verdict::Allowed);
}

#[test]
fn a_type_without_an_archetype_is_denied_when_stability_is_asked() {
    let promised = Type::numeric(4).unwrap();
    let unpromised = Type::new(Layout::numeric(4).unwrap());
    assert_eq!(
        check(&promised, &unpromised, Neglect::nothing()),
        Verdict::Denied(Denial::Stability)
    );
    assert_eq!(
        check(&unpromised, &promised, Neglect::nothing()),
        Verdict::Denied(Denial::Stability)
    );
    assert_eq!(
        check(&unpromised, &unpromised, Neglect::nothing()),
        Verdict::Denied(Denial::Stability)
    );
    assert_eq!(check(&promised, &unpromised, stability()), Verdict::Allowed);
    assert_eq!(check(&unpromised, &promised, stability()), Verdict::Allowed);
    assert_eq!(check(&promised, &promised, Neglect::nothing()), Verdict::Allowed);
}

#[test]
fn the_first_tier_that_fails_gives_the_reason() {
    // unsound, unsafe and unstable at once
    let src = Type::new(Layout::reference(Layout::numeric(1).unwrap()));
    let dst = Type::new(Layout::numeric(2).unwrap());
    assert_eq!(check(&src, &dst, Neglect::nothing()), Verdict::Denied(Denial::Soundness));
    // unsafe and unstable
    let src = Type::new(Layout::reference(Layout::numeric(1).unwrap()));
    let dst = Type::new(Layout::reference(boolean_layout()));
    assert_eq!(check(&src, &dst, Neglect::nothing()), Verdict::Denied(Denial::Safety));
    // unstable only
    let dst = Type::new(Layout::reference(Layout::numeric(1).unwrap()));
    assert_eq!(check(&src, &dst, Neglect::nothing()), Verdict::Denied(Denial::Stability));
}

#[test]
fn stability_is_resolved_on_the_archetypes() {
    // The layouts agree today; the archetypes say that they may not tomorrow.
    let narrow = boolean_layout();
    let wide = Layout::numeric(1).unwrap();
    let src = Type::with_archetype(Layout::reference(narrow.clone()), Layout::reference(wide.clone()));
    let dst = Type::with_archetype(Layout::reference(narrow.clone()), Layout::reference(narrow.clone()));
    assert!(!resolve_stability(&src, &dst));
    assert_eq!(check(&src, &dst, Neglect::nothing()), Verdict::Denied(Denial::Stability));
    assert_eq!(check(&src, &dst, stability()), Verdict::Allowed);
    assert!(resolve_stability(&dst, &src));
    assert_eq!(check(&dst, &src, Neglect::nothing()), Verdict::Allowed);
    // archetypes of different sizes
    let src = Type::with_archetype(Layout::numeric(4).unwrap(), Layout::numeric(8).unwrap());
    let dst = Type::numeric(4).unwrap();
    assert!(!resolve_stability(&src, &dst));
    assert_eq!(check(&src, &dst, Neglect::nothing()), Verdict::Denied(Denial::Stability));
    // no archetype, no stability
    let unpromised = Type::new(Layout::numeric(4).unwrap());
    assert!(!resolve_stability(&unpromised, &dst));
    assert!(!resolve_stability(&dst, &unpromised));
    assert!(resolve_stability(&dst, &dst));
}

#[test]
fn sequences_need_no_equal_sizes() {
    let word = Type::numeric(4).unwrap();
    let pair = byte().array(2).unwrap();
    let triple = byte().array(3).unwrap();
    assert_eq!(check_elements(&byte(), &pair, Neglect::nothing()), Verdict::Allowed);
    assert_eq!(check_elements(&byte(), &triple, Neglect::nothing()), Verdict::Allowed);
    assert_eq!(check_elements(&word, &byte(), Neglect::nothing()), Verdict::Allowed);
    assert_eq!(check_elements(&word, &triple, Neglect::nothing()), Verdict::Allowed);
    assert_eq!(check(&byte(), &pair, Neglect::nothing()), Verdict::Denied(Denial::Soundness));
}

#[test]
fn sequences_check_the_elements_for_safety() {
    let word = Type::numeric(4).unwrap();
    assert_eq!(check_elements(&byte(), &word, Neglect::nothing()), Verdict::Denied(Denial::Safety));
    let alignment = Neglect { stability: true, alignment: true, validity: false };
    assert_eq!(check_elements(&byte(), &word, alignment), Verdict::Allowed);
    assert_eq!(
        check_elements(&byte(), &boolean(), Neglect::nothing()),
        Verdict::Denied(Denial::Safety)
    );
    assert_eq!(check_elements(&byte(), &boolean(), stability()), Verdict::Denied(Denial::Safety));
    let validity = Neglect { stability: true, alignment: false, validity: true };
    assert_eq!(check_elements(&byte(), &boolean(), validity), Verdict::Allowed);
    assert_eq!(check_elements(&boolean(), &byte(), Neglect::nothing()), Verdict::Allowed);
}

#[test]
fn sequences_ask_for_stability_too() {
    let unpromised = Type::new(Layout::numeric(1).unwrap());
    let pair = byte().array(2).unwrap();
    assert_eq!(
        check_elements(&unpromised, &pair, Neglect::nothing()),
        Verdict::Denied(Denial::Stability)
    );
    assert_eq!(check_elements(&unpromised, &pair, stability()), Verdict::Allowed);
    assert!(!resolve_stability_of_elements(&unpromised, &pair));
    assert!(resolve_stability_of_elements(&byte(), &pair));
    let fickle = Type::with_archetype(boolean_layout(), Layout::numeric(1).unwrap());
    assert!(!resolve_stability_of_elements(&fickle, &boolean()));
    assert!(resolve_stability_of_elements(&boolean(), &fickle));
}

#[test]
fn built_in_types_are_their_own_archetypes() {
    for ty in [byte(), Type::unit(), Type::empty(), Type::numeric(8).unwrap()] {
        assert!(ty.archetype_of().unwrap().same(&ty.layout));
    }
    assert!(Type::numeric(3).is_none());
    let array = boolean().array(3).unwrap();
    assert!(array.archetype_of().unwrap().same(&boolean_layout().array(3).unwrap()));
    assert!(array.layout.same(&boolean_layout().array(3).unwrap()));
    let reference = boolean().reference();
    assert!(reference.archetype_of().unwrap().same(&Layout::reference(boolean_layout())));
    assert!(reference.layout.same(&Layout::reference(boolean_layout())));
}

#[test]
fn composed_types_compose_their_archetypes() {
    let fickle = Type::with_archetype(boolean_layout(), Layout::numeric(1).unwrap());
    let array = fickle.array(2).unwrap();
    assert!(array.layout.same(&boolean_layout().array(2).unwrap()));
    assert!(array.archetype_of().unwrap().same(&Layout::numeric(1).unwrap().array(2).unwrap()));
    let reference = fickle.clone().reference();
    assert!(reference.archetype_of().unwrap().same(&Layout::reference(Layout::numeric(1).unwrap())));
    let unpromised = Type::new(boolean_layout());
    assert!(unpromised.archetype_of().is_none());
    assert!(unpromised.array(2).unwrap().archetype_of().is_none());
    assert!(unpromised.reference().archetype_of().is_none());
    let too_long = Type::with_archetype(Layout::unit(), Layout::numeric(2).unwrap());
    assert!(too_long.array(usize::MAX).is_none());
    assert!(Type::numeric(2).unwrap().array(usize::MAX).is_none());
}
