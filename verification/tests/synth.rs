use mutant_synth::synth::{return_type_replacements, type_replacements};
use mutant_synth::types::{BoundNode, GenericArgNode, PathSegment, TypeNode, TypePath};

fn ident(name: &str) -> TypeNode {
    TypeNode::Path(TypePath {
        segments: vec![PathSegment {
            name: name.to_string(),
            args: Vec::new(),
        }],
    })
}

fn generic(name: &str, args: Vec<GenericArgNode>) -> TypeNode {
    TypeNode::Path(TypePath {
        segments: vec![PathSegment {
            name: name.to_string(),
            args,
        }],
    })
}

fn ty(t: TypeNode) -> GenericArgNode {
    GenericArgNode::TypeArg(t)
}

fn texts(candidates: &[String]) -> Vec<&str> {
    candidates.iter().map(|c| c.as_str()).collect()
}

fn synth(t: &TypeNode) -> Vec<String> {
    type_replacements(t, &Vec::new())
}

#[test]
fn bool_leaf_candidates() {
    assert_eq!(texts(&synth(&ident("bool"))), ["true", "false"]);
}

#[test]
fn string_and_str_leaf_candidates() {
    assert_eq!(
        texts(&synth(&ident("String"))),
        ["String::new()", "\"xyzzy\".into()"]
    );
    assert_eq!(texts(&synth(&ident("str"))), ["\"\"", "\"xyzzy\""]);
}

#[test]
fn unsigned_leaf_candidates() {
    for name in ["u8", "u16", "u32", "u64", "u128", "usize"] {
        assert_eq!(texts(&synth(&ident(name))), ["0", "1"]);
    }
}

#[test]
fn signed_leaf_candidates() {
    for name in ["i8", "i16", "i32", "i64", "i128", "isize"] {
        assert_eq!(texts(&synth(&ident(name))), ["0", "1", "-1"]);
    }
}

#[test]
fn nonzero_leaf_candidates() {
    assert_eq!(texts(&synth(&ident("NonZeroI32"))), ["1", "-1"]);
    assert_eq!(texts(&synth(&ident("NonZeroU32"))), ["1"]);
}

#[test]
fn float_leaf_candidates() {
    assert_eq!(texts(&synth(&ident("f32"))), ["0.0", "1.0", "-1.0"]);
    assert_eq!(texts(&synth(&ident("f64"))), ["0.0", "1.0", "-1.0"]);
}

#[test]
fn option_of_u8_end_to_end() {
    let t = generic("Option", vec![ty(ident("u8"))]);
    assert_eq!(texts(&synth(&t)), ["None", "Some(0)", "Some(1)"]);
}

#[test]
fn result_of_bool_with_error_expression() {
    let t = generic("Result", vec![ty(ident("bool"))]);
    let errs = vec!["my_error()".to_string()];
    assert_eq!(
        texts(&type_replacements(&t, &errs)),
        ["Ok(true)", "Ok(false)", "Err(my_error())"]
    );
}

#[test]
fn result_without_type_arguments() {
    let t = generic("Result", Vec::new());
    let errs = vec!["anyhow!(\"mutated!\")".to_string()];
    assert_eq!(
        texts(&type_replacements(&t, &errs)),
        ["Ok(Default::default())", "Err(anyhow!(\"mutated!\"))"]
    );
}

#[test]
fn no_declared_return_type_yields_unit() {
    assert_eq!(texts(&return_type_replacements(&None, &Vec::new())), ["()"]);
    let some = return_type_replacements(&Some(ident("bool")), &Vec::new());
    assert_eq!(texts(&some), ["true", "false"]);
}

#[test]
fn array_repeats_each_candidate() {
    let t = TypeNode::Array(Box::new(ident("u8")), "3".to_string());
    assert_eq!(texts(&synth(&t)), ["[0; 3]", "[1; 3]"]);
}

#[test]
fn slice_yields_leaked_empty_then_singletons() {
    let t = TypeNode::Slice(Box::new(ident("u8")));
    assert_eq!(
        texts(&synth(&t)),
        [
            "Vec::leak(Vec::new())",
            "Vec::leak(vec![0])",
            "Vec::leak(vec![1])"
        ]
    );
}

#[test]
fn reference_candidates() {
    let str_ref = TypeNode::Reference(false, Box::new(ident("str")));
    assert_eq!(texts(&synth(&str_ref)), ["\"\"", "\"xyzzy\""]);

    let shared = TypeNode::Reference(false, Box::new(ident("bool")));
    assert_eq!(texts(&synth(&shared)), ["&true", "&false"]);

    let slice_ref = TypeNode::Reference(false, Box::new(TypeNode::Slice(Box::new(ident("u8")))));
    assert_eq!(
        texts(&synth(&slice_ref)),
        [
            "Vec::leak(Vec::new())",
            "Vec::leak(vec![0])",
            "Vec::leak(vec![1])"
        ]
    );

    let unique = TypeNode::Reference(true, Box::new(ident("u8")));
    assert_eq!(
        texts(&synth(&unique)),
        ["Box::leak(Box::new(0))", "Box::leak(Box::new(1))"]
    );
}

#[test]
fn unit_tuple_yields_unit() {
    assert_eq!(texts(&synth(&TypeNode::Tuple(Vec::new()))), ["()"]);
}

#[test]
fn tuple_enumerates_cartesian_product_first_slower() {
    let t = TypeNode::Tuple(vec![ident("bool"), ident("u8")]);
    assert_eq!(
        texts(&synth(&t)),
        ["(true, 0)", "(true, 1)", "(false, 0)", "(false, 1)"]
    );
    let triple = TypeNode::Tuple(vec![ident("bool"), ident("bool"), ident("u8")]);
    assert_eq!(synth(&triple).len(), 2 * 2 * 2);
    assert_eq!(synth(&triple)[0], "(true, true, 0)");
    assert_eq!(synth(&triple)[7], "(false, false, 1)");
}

#[test]
fn uninhabited_type_yields_nothing() {
    assert_eq!(synth(&TypeNode::Never).len(), 0);
}

#[test]
fn vec_yields_empty_then_singletons() {
    let t = generic("Vec", vec![ty(ident("bool"))]);
    assert_eq!(texts(&synth(&t)), ["vec![]", "vec![true]", "vec![false]"]);
}

#[test]
fn cow_yields_borrowed_and_owned_forms() {
    let t = generic(
        "Cow",
        vec![GenericArgNode::LifetimeArg, ty(ident("str"))],
    );
    assert_eq!(
        texts(&synth(&t)),
        [
            "Cow::Borrowed(\"\")",
            "Cow::Owned(\"\".to_owned())",
            "Cow::Borrowed(\"xyzzy\")",
            "Cow::Owned(\"xyzzy\".to_owned())"
        ]
    );
}

#[test]
fn known_container_wraps_each_candidate() {
    let t = generic("Arc", vec![ty(ident("bool"))]);
    assert_eq!(texts(&synth(&t)), ["Arc::new(true)", "Arc::new(false)"]);
}

#[test]
fn known_collection_yields_empty_then_singletons() {
    let t = generic("BTreeSet", vec![ty(ident("bool"))]);
    assert_eq!(
        texts(&synth(&t)),
        [
            "BTreeSet::new()",
            "BTreeSet::from_iter([true])",
            "BTreeSet::from_iter([false])"
        ]
    );
}

#[test]
fn map_yields_empty_then_singleton_entries() {
    let t = generic("HashMap", vec![ty(ident("u8")), ty(ident("bool"))]);
    let got = synth(&t);
    assert_eq!(
        texts(&got),
        [
            "HashMap::new()",
            "HashMap::from_iter([(0, true)])",
            "HashMap::from_iter([(0, false)])",
            "HashMap::from_iter([(1, true)])",
            "HashMap::from_iter([(1, false)])"
        ]
    );
    assert_eq!(got.len(), 1 + 2 * 2);
}

#[test]
fn unknown_single_argument_generic_guesses_three_forms() {
    let t = generic("Wibble", vec![ty(ident("u8"))]);
    assert_eq!(
        texts(&synth(&t)),
        [
            "Wibble::new()",
            "Wibble::from_iter([0])",
            "Wibble::new(0)",
            "Wibble::from(0)",
            "Wibble::from_iter([1])",
            "Wibble::new(1)",
            "Wibble::from(1)"
        ]
    );
}

#[test]
fn unknown_shape_falls_back_to_default() {
    assert_eq!(texts(&synth(&ident("Wibble"))), ["Default::default()"]);
    assert_eq!(texts(&synth(&TypeNode::Other)), ["Default::default()"]);
}

#[test]
fn http_response_special_case() {
    assert_eq!(
        texts(&synth(&ident("HttpResponse"))),
        ["HttpResponse::Ok().finish()"]
    );
}

#[test]
fn impl_iterator_yields_empty_then_single_item_iterators() {
    let bound = BoundNode::TraitBound(TypePath {
        segments: vec![PathSegment {
            name: "Iterator".to_string(),
            args: vec![GenericArgNode::AssocArg("Item".to_string(), ident("bool"))],
        }],
    });
    let t = TypeNode::ImplTrait(vec![bound]);
    assert_eq!(
        texts(&synth(&t)),
        [
            "::std::iter::empty()",
            "::std::iter::once(true)",
            "::std::iter::once(false)"
        ]
    );

    let other = TypeNode::ImplTrait(vec![BoundNode::OtherBound]);
    assert_eq!(synth(&other).len(), 0);
}

#[test]
fn nested_generics_recurse() {
    let t = generic(
        "Option",
        vec![ty(generic("Option", vec![ty(ident("bool"))]))],
    );
    assert_eq!(
        texts(&synth(&t)),
        ["None", "Some(None)", "Some(Some(true))", "Some(Some(false))"]
    );
}

#[test]
fn last_segment_decides_classification() {
    let t = TypeNode::Path(TypePath {
        segments: vec![
            PathSegment {
                name: "std".to_string(),
                args: Vec::new(),
            },
            PathSegment {
                name: "option".to_string(),
                args: Vec::new(),
            },
            PathSegment {
                name: "Option".to_string(),
                args: vec![ty(ident("u8"))],
            },
        ],
    });
    assert_eq!(texts(&synth(&t)), ["None", "Some(0)", "Some(1)"]);
}

#[test]
fn qualified_primitive_name_is_not_a_leaf() {
    let t = TypeNode::Path(TypePath {
        segments: vec![
            PathSegment {
                name: "something".to_string(),
                args: Vec::new(),
            },
            PathSegment {
                name: "bool".to_string(),
                args: Vec::new(),
            },
        ],
    });
    assert_eq!(texts(&synth(&t)), ["Default::default()"]);
}

#[test]
fn synthesis_is_idempotent() {
    let t = generic(
        "Result",
        vec![ty(TypeNode::Tuple(vec![ident("bool"), ident("u8")]))],
    );
    let errs = vec!["err()".to_string()];
    let first = type_replacements(&t, &errs);
    let second = type_replacements(&t, &errs);
    assert_eq!(first, second);
}
