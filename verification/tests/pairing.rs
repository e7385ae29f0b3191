use mutant_synth::{f, Enum, Struct};

#[test]
fn f_pairs_exactly_two_variants() {
    let two = [Enum::Variant(Struct), Enum::Variant(Struct)];
    assert!(f(&two).is_some());

    let one = [Enum::Variant(Struct)];
    assert!(f(&one).is_none());

    let none: [Enum; 0] = [];
    assert!(f(&none).is_none());

    let three = [
        Enum::Variant(Struct),
        Enum::Variant(Struct),
        Enum::Variant(Struct),
    ];
    assert!(f(&three).is_none());
}
