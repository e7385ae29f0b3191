//! The laws of the synthesizer, proved once and for all over the model.
//!
//! Each proof function states, for one family of the registry, what the
//! candidate list looks like for every wrapped type and every
//! error-expression list.

use vstd::prelude::*;

use crate::classify::{spec_is_ident, spec_is_map_name};
use crate::synth::{cross_join, prefix_each, spec_synth, wrap_each};
use crate::types::{GenericArgNode, TypeNode, TypePath};

verus! {

/// The cartesian product of two candidate lists has one row for each pair,
/// the left index varying slower, each row the two candidates joined by a
/// comma.
pub proof fn lemma_cross_join_index(l: Seq<Seq<char>>, r: Seq<Seq<char>>)
    ensures
        cross_join(l, r).len() == l.len() * r.len(),
        forall|i: int, j: int|
            0 <= i < l.len() && 0 <= j < r.len() ==> cross_join(l, r)[i * r.len() + j] == #[trigger] (
            l[i] + ", "@ + r[j]),
    decreases l.len(),
{
    let ll = l.len() as int;
    let rl = r.len() as int;
    if l.len() == 0 {
        assert(ll * rl == 0) by (nonlinear_arith)
            requires
                ll == 0,
        ;
    } else {
        lemma_cross_join_index(l.drop_last(), r);
        assert((ll - 1) * rl + rl == ll * rl) by (nonlinear_arith);
        assert forall|i: int, j: int| 0 <= i < ll && 0 <= j < rl implies cross_join(l, r)[i * rl
            + j] == #[trigger] (l[i] + ", "@ + r[j]) by {
            if i < ll - 1 {
                assert(0 <= i * rl + j < (ll - 1) * rl) by (nonlinear_arith)
                    requires
                        0 <= i < ll - 1 && 0 <= j < rl,
                ;
                assert(cross_join(l, r)[i * rl + j] == cross_join(l.drop_last(), r)[i * rl + j]);
                assert(l.drop_last()[i] == l[i]);
            } else {
                assert(i == ll - 1);
                assert(i * rl + j == (ll - 1) * rl + j) by (nonlinear_arith)
                    requires
                        i == ll - 1,
                ;
                assert(cross_join(l, r)[(ll - 1) * rl + j] == prefix_each(r, l.last() + ", "@)[j]);
                assert(prefix_each(r, l.last() + ", "@)[j] == l[ll - 1] + ", "@ + r[j]);
            }
        }
    }
}

/// The boolean leaf yields exactly the two boolean literals, true first.
pub proof fn lemma_bool_rule(p: TypePath, errs: Seq<Seq<char>>)
    requires
        spec_is_ident(p, "bool"@),
    ensures
        spec_synth(TypeNode::Path(p), errs) == seq!["true"@, "false"@],
{
}

/// An unsigned-integer leaf yields exactly zero then one.
pub proof fn lemma_unsigned_rule(p: TypePath, errs: Seq<Seq<char>>)
    requires
        crate::classify::spec_path_is_unsigned(p),
    ensures
        spec_synth(TypeNode::Path(p), errs) == seq!["0"@, "1"@],
{
    lemma_leaf_names_differ();
}

/// A signed-integer leaf yields exactly zero, one, then minus one.
pub proof fn lemma_signed_rule(p: TypePath, errs: Seq<Seq<char>>)
    requires
        crate::classify::spec_path_is_signed(p),
    ensures
        spec_synth(TypeNode::Path(p), errs) == seq!["0"@, "1"@, "-1"@],
{
    lemma_leaf_names_differ();
}

/// A nullable wrapper over `x` yields the none literal, then a some-wrapped
/// form of every candidate of `x`, in order.
pub proof fn lemma_option_rule(p: TypePath, x: TypeNode, errs: Seq<Seq<char>>)
    requires
        p.segments@.len() == 1,
        p.segments@[0].name@ == "Option"@,
        p.segments@[0].args@ == seq![GenericArgNode::TypeArg(x)],
    ensures
        spec_synth(TypeNode::Path(p), errs) == seq!["None"@] + wrap_each(
            spec_synth(x, errs),
            "Some("@,
            ")"@,
        ),
{
    lemma_registry_names_differ();
}

/// A fallible-result wrapper over ok-type `x` yields an ok-wrapped form of
/// every candidate of `x`, then an err-wrapped form of every supplied error
/// expression, in order.
pub proof fn lemma_result_rule(p: TypePath, x: TypeNode, errs: Seq<Seq<char>>)
    requires
        p.segments@.len() == 1,
        p.segments@[0].name@ == "Result"@,
        p.segments@[0].args@ == seq![GenericArgNode::TypeArg(x)],
    ensures
        spec_synth(TypeNode::Path(p), errs) == wrap_each(spec_synth(x, errs), "Ok("@, ")"@)
            + wrap_each(errs, "Err("@, ")"@),
{
    lemma_registry_names_differ();
}

/// A fixed array yields one candidate per element candidate — a repeat
/// literal, never a cross product.
pub proof fn lemma_array_rule(arr: TypeNode, errs: Seq<Seq<char>>)
    requires
        arr is Array,
    ensures
        spec_synth(arr, errs).len() == spec_synth(*arr->Array_0, errs).len(),
        forall|i: int|
            0 <= i < spec_synth(arr, errs).len() ==> #[trigger] spec_synth(arr, errs)[i] == "["@
                + spec_synth(*arr->Array_0, errs)[i] + ("; "@ + arr->Array_1@ + "]"@),
{
}

/// A tuple of two types yields the full cartesian product of their candidate
/// lists, the first type varying slower.
pub proof fn lemma_tuple_pair_rule(tup: TypeNode, x: TypeNode, y: TypeNode, errs: Seq<Seq<char>>)
    requires
        tup is Tuple,
        tup->Tuple_0@ == seq![x, y],
    ensures
        spec_synth(tup, errs).len() == spec_synth(x, errs).len() * spec_synth(y, errs).len(),
        forall|i: int, j: int|
            0 <= i < spec_synth(x, errs).len() && 0 <= j < spec_synth(y, errs).len()
                ==> spec_synth(tup, errs)[i * spec_synth(y, errs).len() + j] == "("@ + #[trigger] (
            spec_synth(x, errs)[i] + ", "@ + spec_synth(y, errs)[j]) + ")"@,
{
    let es = tup->Tuple_0@;
    let xs = spec_synth(x, errs);
    let ys = spec_synth(y, errs);
    assert(es.drop_last() =~= seq![x]);
    assert(crate::synth::spec_tuple_combos(seq![x], errs) == xs);
    assert(crate::synth::spec_tuple_combos(es, errs) == cross_join(xs, ys));
    lemma_cross_join_index(xs, ys);
    assert(spec_synth(tup, errs) == wrap_each(cross_join(xs, ys), "("@, ")"@));
    assert forall|i: int, j: int| 0 <= i < xs.len() && 0 <= j < ys.len() implies spec_synth(
        tup,
        errs,
    )[i * ys.len() + j] == "("@ + #[trigger] (xs[i] + ", "@ + ys[j]) + ")"@ by {
        assert(0 <= i * ys.len() + j < xs.len() * ys.len()) by (nonlinear_arith)
            requires
                0 <= i < xs.len() && 0 <= j < ys.len(),
        ;
        assert(cross_join(xs, ys)[i * ys.len() + j] == xs[i] + ", "@ + ys[j]);
    }
}

/// The uninhabited type yields no candidate at all.
pub proof fn lemma_never_rule(errs: Seq<Seq<char>>)
    ensures
        spec_synth(TypeNode::Never, errs) == Seq::<Seq<char>>::empty(),
{
}

/// A map wrapper over key `k` and value `v` yields one empty-map literal
/// followed by one singleton-entry candidate for every key-value candidate
/// pair.
pub proof fn lemma_map_rule(p: TypePath, k: TypeNode, v: TypeNode, errs: Seq<Seq<char>>)
    requires
        p.segments@.len() == 1,
        spec_is_map_name(p.segments@[0].name@),
        p.segments@[0].args@ == seq![GenericArgNode::TypeArg(k), GenericArgNode::TypeArg(v)],
    ensures
        spec_synth(TypeNode::Path(p), errs).len() == 1 + spec_synth(k, errs).len() * spec_synth(
            v,
            errs,
        ).len(),
        spec_synth(TypeNode::Path(p), errs)[0] == p.segments@[0].name@ + "::new()"@,
{
    lemma_registry_names_differ();
    lemma_cross_join_index(spec_synth(k, errs), spec_synth(v, errs));
}

/// Synthesis is a pure function of the type and the error expressions: the
/// same inputs always give the same candidate list.
pub proof fn lemma_synth_deterministic(
    t1: TypeNode,
    t2: TypeNode,
    e1: Seq<Seq<char>>,
    e2: Seq<Seq<char>>,
)
    requires
        t1 == t2,
        e1 == e2,
    ensures
        spec_synth(t1, e1) == spec_synth(t2, e2),
{
}

/// Lengths and first characters of the primitive leaf names, enough to tell
/// any two different ones apart.
proof fn lemma_leaf_names_differ()
    ensures
        "bool"@.len() == 4,
        "bool"@[0] == 'b',
        "String"@.len() == 6,
        "String"@[0] == 'S',
        "str"@.len() == 3,
        "str"@[0] == 's',
        "u8"@.len() == 2,
        "u8"@[0] == 'u',
        "u16"@.len() == 3,
        "u16"@[0] == 'u',
        "u32"@.len() == 3,
        "u32"@[0] == 'u',
        "u64"@.len() == 3,
        "u64"@[0] == 'u',
        "u128"@.len() == 4,
        "u128"@[0] == 'u',
        "usize"@.len() == 5,
        "usize"@[0] == 'u',
        "i8"@.len() == 2,
        "i8"@[0] == 'i',
        "i16"@.len() == 3,
        "i16"@[0] == 'i',
        "i32"@.len() == 3,
        "i32"@[0] == 'i',
        "i64"@.len() == 3,
        "i64"@[0] == 'i',
        "i128"@.len() == 4,
        "i128"@[0] == 'i',
        "isize"@.len() == 5,
        "isize"@[0] == 'i',
{
    reveal_strlit("bool");
    reveal_strlit("String");
    reveal_strlit("str");
    reveal_strlit("u8");
    reveal_strlit("u16");
    reveal_strlit("u32");
    reveal_strlit("u64");
    reveal_strlit("u128");
    reveal_strlit("usize");
    reveal_strlit("i8");
    reveal_strlit("i16");
    reveal_strlit("i32");
    reveal_strlit("i64");
    reveal_strlit("i128");
    reveal_strlit("isize");
}

/// Lengths and distinguishing characters of the registry names, enough to
/// tell any two different ones apart.
proof fn lemma_registry_names_differ()
    ensures
        "Option"@.len() == 6,
        "Option"@[0] == 'O',
        "Result"@.len() == 6,
        "Result"@[0] == 'R',
        "HttpResponse"@.len() == 12,
        "HttpResponse"@[0] == 'H',
        "NonZeroIsize"@.len() == 12,
        "NonZeroIsize"@[0] == 'N',
        "NonZeroI8"@.len() == 9,
        "NonZeroI8"@[0] == 'N',
        "NonZeroI16"@.len() == 10,
        "NonZeroI16"@[0] == 'N',
        "NonZeroI32"@.len() == 10,
        "NonZeroI32"@[0] == 'N',
        "NonZeroI64"@.len() == 10,
        "NonZeroI64"@[0] == 'N',
        "NonZeroI128"@.len() == 11,
        "NonZeroI128"@[0] == 'N',
        "NonZeroUsize"@.len() == 12,
        "NonZeroUsize"@[0] == 'N',
        "NonZeroU8"@.len() == 9,
        "NonZeroU8"@[0] == 'N',
        "NonZeroU16"@.len() == 10,
        "NonZeroU16"@[0] == 'N',
        "NonZeroU32"@.len() == 10,
        "NonZeroU32"@[0] == 'N',
        "NonZeroU64"@.len() == 10,
        "NonZeroU64"@[0] == 'N',
        "NonZeroU128"@.len() == 11,
        "NonZeroU128"@[0] == 'N',
        "Vec"@.len() == 3,
        "Vec"@[0] == 'V',
        "Cow"@.len() == 3,
        "Cow"@[0] == 'C',
        "Box"@.len() == 3,
        "Box"@[0] == 'B',
        "Cell"@.len() == 4,
        "Cell"@[0] == 'C',
        "RefCell"@.len() == 7,
        "RefCell"@[0] == 'R',
        "Arc"@.len() == 3,
        "Arc"@[0] == 'A',
        "Rc"@.len() == 2,
        "Rc"@[0] == 'R',
        "Mutex"@.len() == 5,
        "Mutex"@[0] == 'M',
        "BinaryHeap"@.len() == 10,
        "BinaryHeap"@[0] == 'B',
        "BTreeSet"@.len() == 8,
        "BTreeSet"@[0] == 'B',
        "HashSet"@.len() == 7,
        "HashSet"@[0] == 'H',
        "LinkedList"@.len() == 10,
        "LinkedList"@[0] == 'L',
        "VecDeque"@.len() == 8,
        "VecDeque"@[0] == 'V',
        "BTreeMap"@.len() == 8,
        "BTreeMap"@[0] == 'B',
        "HashMap"@.len() == 7,
        "HashMap"@[0] == 'H',
        "BTreeMap"@[5] == 'M',
        "BTreeSet"@[5] == 'S',
        "HashMap"@[4] == 'M',
        "HashSet"@[4] == 'S',
{
    reveal_strlit("Option");
    reveal_strlit("Result");
    reveal_strlit("HttpResponse");
    reveal_strlit("NonZeroIsize");
    reveal_strlit("NonZeroI8");
    reveal_strlit("NonZeroI16");
    reveal_strlit("NonZeroI32");
    reveal_strlit("NonZeroI64");
    reveal_strlit("NonZeroI128");
    reveal_strlit("NonZeroUsize");
    reveal_strlit("NonZeroU8");
    reveal_strlit("NonZeroU16");
    reveal_strlit("NonZeroU32");
    reveal_strlit("NonZeroU64");
    reveal_strlit("NonZeroU128");
    reveal_strlit("Vec");
    reveal_strlit("Cow");
    reveal_strlit("Box");
    reveal_strlit("Cell");
    reveal_strlit("RefCell");
    reveal_strlit("Arc");
    reveal_strlit("Rc");
    reveal_strlit("Mutex");
    reveal_strlit("BinaryHeap");
    reveal_strlit("BTreeSet");
    reveal_strlit("HashSet");
    reveal_strlit("LinkedList");
    reveal_strlit("VecDeque");
    reveal_strlit("BTreeMap");
    reveal_strlit("HashMap");
}

} // verus!
