//! The recursive value synthesizer.
//!
//! Given a declared return type, produce a finite, ordered list of source
//! fragments that plausibly construct a value of that type.  The candidates
//! are speculative: a downstream build step weeds out any that do not
//! compile.  [`spec_synth`] is the mathematical model; [`type_replacements`]
//! computes it.

use vstd::prelude::*;
use vstd::string::StrSliceExecFns;
use vstd::string::StringExecFns;

use crate::classify::{
    known_collection, known_container, known_map, match_first_type_arg, match_impl_iterator,
    maybe_collection_or_container, path_ends_with, path_is_float, path_is_ident,
    path_is_nonzero_signed, path_is_nonzero_unsigned, path_is_signed, path_is_unsigned,
    spec_bound_iterator_item, spec_first_type_arg, spec_is_ident, spec_known_collection,
    spec_known_container, spec_known_map, spec_match_first_type_arg, spec_match_impl_iterator,
    spec_maybe_collection_or_container, spec_path_ends_with, spec_path_is_float,
    spec_path_is_nonzero_signed, spec_path_is_nonzero_unsigned, spec_path_is_signed,
    spec_path_is_unsigned, spec_type_args,
};
use crate::types::{BoundNode, GenericArgNode, TypeNode};

verus! {

/// The views of a sequence of owned strings.
pub open spec fn strs_view(v: Seq<String>) -> Seq<Seq<char>> {
    Seq::new(v.len(), |i: int| v[i]@)
}

/// Each candidate wrapped between a fixed prefix and suffix.
pub open spec fn wrap_each(cs: Seq<Seq<char>>, pre: Seq<char>, post: Seq<char>) -> Seq<Seq<char>> {
    Seq::new(cs.len(), |i: int| pre + cs[i] + post)
}

/// Each candidate preceded by a fixed prefix.
pub open spec fn prefix_each(cs: Seq<Seq<char>>, pre: Seq<char>) -> Seq<Seq<char>> {
    Seq::new(cs.len(), |i: int| pre + cs[i])
}

/// A borrowed and an owned form for each candidate, in input order.
pub open spec fn cow_forms(cs: Seq<Seq<char>>) -> Seq<Seq<char>>
    decreases cs.len(),
{
    if cs.len() == 0 {
        Seq::empty()
    } else {
        cow_forms(cs.drop_last()) + seq![
            "Cow::Borrowed("@ + cs.last() + ")"@,
            "Cow::Owned("@ + cs.last() + ".to_owned())"@,
        ]
    }
}

/// Three speculative construction forms for each candidate of an unknown
/// single-argument generic.
pub open spec fn guess_forms(name: Seq<char>, cs: Seq<Seq<char>>) -> Seq<Seq<char>>
    decreases cs.len(),
{
    if cs.len() == 0 {
        Seq::empty()
    } else {
        guess_forms(name, cs.drop_last()) + seq![
            name + "::from_iter(["@ + cs.last() + "])"@,
            name + "::new("@ + cs.last() + ")"@,
            name + "::from("@ + cs.last() + ")"@,
        ]
    }
}

/// The cartesian product of two candidate lists, joined with a comma; the
/// left list varies slower than the right.
pub open spec fn cross_join(l: Seq<Seq<char>>, r: Seq<Seq<char>>) -> Seq<Seq<char>>
    decreases l.len(),
{
    if l.len() == 0 {
        Seq::empty()
    } else {
        cross_join(l.drop_last(), r) + prefix_each(r, l.last() + ", "@)
    }
}

proof fn lemma_drop_first_dec<A>(s: Seq<A>)
    requires
        s.len() > 0,
    ensures
        decreases_to!(s => s.drop_first()),
{
    assert(s.drop_first() =~= s.subrange(1, s.len() as int));
    assert(decreases_to!(s => s.subrange(1, s.len() as int)));
}

pub proof fn lemma_drop_last_dec<A>(s: Seq<A>)
    requires
        s.len() > 0,
    ensures
        decreases_to!(s => s.drop_last()),
{
    assert(s.drop_last() =~= s.subrange(0, s.len() - 1));
    assert(decreases_to!(s => s.subrange(0, s.len() - 1)));
}

/// A type argument's payload sits below the argument list that holds it.
pub proof fn lemma_arg_payload_dec(args: Seq<GenericArgNode>, j: int)
    requires
        0 <= j < args.len(),
        args[j] is TypeArg,
    ensures
        decreases_to!(args => args[j]->TypeArg_0),
{
    assert(decreases_to!(args => args[j]));
    assert(decreases_to!(args[j] => args[j]->TypeArg_0));
}

/// The terminal segment's argument list sits below the path node itself.
pub proof fn lemma_path_args_dec(t: TypeNode)
    requires
        t is Path,
        t->Path_0.segments@.len() > 0,
    ensures
        decreases_to!(t => t->Path_0.segments@[t->Path_0.segments@.len() - 1].args@),
{
    let p = t->Path_0;
    let segs = p.segments@;
    let n = segs.len() - 1;
    assert(decreases_to!(t => t->Path_0));
    assert(decreases_to!(p => p.segments));
    assert(decreases_to!(p.segments => p.segments@));
    assert(decreases_to!(segs => segs[n]));
    assert(decreases_to!(segs[n] => segs[n].args));
    assert(decreases_to!(segs[n].args => segs[n].args@));
}

/// The first type argument of a list sits below the list.
proof fn lemma_first_type_arg_dec(args: Seq<GenericArgNode>)
    ensures
        spec_first_type_arg(args) is Some ==> decreases_to!(
            args => spec_first_type_arg(args)->0
        ),
    decreases args.len(),
{
    if args.len() > 0 {
        match args[0] {
            GenericArgNode::TypeArg(_) => {
                lemma_arg_payload_dec(args, 0);
            },
            GenericArgNode::LifetimeArg => {
                lemma_first_type_arg_dec(args.drop_first());
                lemma_drop_first_dec(args);
            },
            _ => {},
        }
    }
}

/// The wrapped type found by name matching sits below the whole path node.
pub proof fn lemma_match_first_dec(t: TypeNode, name: Seq<char>)
    requires
        t is Path,
        spec_match_first_type_arg(t->Path_0, name) is Some,
    ensures
        decreases_to!(t => spec_match_first_type_arg(t->Path_0, name)->0),
{
    lemma_path_args_dec(t);
    lemma_first_type_arg_dec(t->Path_0.segments@.last().args@);
}

/// The first collected type argument sits below the argument list.
proof fn lemma_type_args_first_dec(args: Seq<GenericArgNode>)
    requires
        spec_type_args(args).len() > 0,
    ensures
        decreases_to!(args => spec_type_args(args)[0]),
    decreases args.len(),
{
    let front = spec_type_args(args.drop_last());
    if front.len() > 0 {
        lemma_type_args_first_dec(args.drop_last());
        lemma_drop_last_dec(args);
        assert(spec_type_args(args)[0] == front[0]);
    } else {
        assert(args.last() is TypeArg);
        assert(spec_type_args(args)[0] == args[args.len() - 1]->TypeArg_0);
        lemma_arg_payload_dec(args, args.len() - 1);
    }
}

/// The single heuristic type argument sits below the whole path node.
pub proof fn lemma_maybe_dec(t: TypeNode)
    requires
        t is Path,
        spec_maybe_collection_or_container(t->Path_0) is Some,
    ensures
        decreases_to!(t => spec_maybe_collection_or_container(t->Path_0)->0),
{
    lemma_path_args_dec(t);
    lemma_type_args_first_dec(t->Path_0.segments@.last().args@);
}

/// An `Item` binding's type sits below the bound that carries it.
proof fn lemma_bound_item_dec(b: BoundNode)
    requires
        spec_bound_iterator_item(b) is Some,
    ensures
        decreases_to!(b => spec_bound_iterator_item(b)->0),
{
    let p = b->TraitBound_0;
    let segs = p.segments@;
    let n = segs.len() - 1;
    assert(decreases_to!(b => b->TraitBound_0));
    assert(decreases_to!(p => p.segments));
    assert(decreases_to!(p.segments => p.segments@));
    assert(decreases_to!(segs => segs[n]));
    assert(decreases_to!(segs[n] => segs[n].args));
    assert(decreases_to!(segs[n].args => segs[n].args@));
    assert(decreases_to!(segs[n].args@ => segs[n].args@[0]));
    assert(decreases_to!(segs[n].args@[0] => segs[n].args@[0]->AssocArg_1));
}

/// The iterator item type sits below the bound list that promises it.
proof fn lemma_match_impl_iterator_dec(bounds: Seq<BoundNode>)
    ensures
        spec_match_impl_iterator(bounds) is Some ==> decreases_to!(
            bounds => spec_match_impl_iterator(bounds)->0
        ),
    decreases bounds.len(),
{
    if bounds.len() > 0 {
        if spec_bound_iterator_item(bounds[0]) is Some {
            assert(decreases_to!(bounds => bounds[0]));
            lemma_bound_item_dec(bounds[0]);
        } else {
            lemma_match_impl_iterator_dec(bounds.drop_first());
            lemma_drop_first_dec(bounds);
        }
    }
}

/// The iterator item type sits below the opaque type node.
pub proof fn lemma_impl_trait_dec(t: TypeNode)
    requires
        t is ImplTrait,
        spec_match_impl_iterator(t->ImplTrait_0@) is Some,
    ensures
        decreases_to!(t => spec_match_impl_iterator(t->ImplTrait_0@)->0),
{
    assert(decreases_to!(t => t->ImplTrait_0));
    assert(decreases_to!(t->ImplTrait_0 => t->ImplTrait_0@));
    lemma_match_impl_iterator_dec(t->ImplTrait_0@);
}

/// The candidate list for a type: the heart of the synthesizer.
///
/// `errs` holds caller-supplied expressions assumed to construct the error
/// type; it is consulted only for a fallible-result wrapper.
pub open spec fn spec_synth(t: TypeNode, errs: Seq<Seq<char>>) -> Seq<Seq<char>>
    decreases t,
{
    match t {
        TypeNode::Path(p) => {
            if spec_is_ident(p, "bool"@) {
                seq!["true"@, "false"@]
            } else if spec_is_ident(p, "String"@) {
                seq!["String::new()"@, "\"xyzzy\".into()"@]
            } else if spec_is_ident(p, "str"@) {
                seq!["\"\""@, "\"xyzzy\""@]
            } else if spec_path_is_unsigned(p) {
                seq!["0"@, "1"@]
            } else if spec_path_is_signed(p) {
                seq!["0"@, "1"@, "-1"@]
            } else if spec_path_is_nonzero_signed(p) {
                seq!["1"@, "-1"@]
            } else if spec_path_is_nonzero_unsigned(p) {
                seq!["1"@]
            } else if spec_path_is_float(p) {
                seq!["0"@ + ".0"@, "1"@ + ".0"@, "-1"@ + ".0"@]
            } else if spec_path_ends_with(p, "Result"@) {
                let oks = if spec_match_first_type_arg(p, "Result"@) is Some {
                    let ok_type = spec_match_first_type_arg(p, "Result"@)->0;
                    proof {
                        lemma_match_first_dec(t, "Result"@);
                    }
                    wrap_each(spec_synth(ok_type, errs), "Ok("@, ")"@)
                } else {
                    seq!["Ok(Default::default())"@]
                };
                oks + wrap_each(errs, "Err("@, ")"@)
            } else if spec_path_ends_with(p, "HttpResponse"@) {
                seq!["HttpResponse::Ok().finish()"@]
            } else if spec_match_first_type_arg(p, "Option"@) is Some {
                let some_type = spec_match_first_type_arg(p, "Option"@)->0;
                proof {
                    lemma_match_first_dec(t, "Option"@);
                }
                seq!["None"@] + wrap_each(spec_synth(some_type, errs), "Some("@, ")"@)
            } else if spec_match_first_type_arg(p, "Vec"@) is Some {
                let elem_type = spec_match_first_type_arg(p, "Vec"@)->0;
                proof {
                    lemma_match_first_dec(t, "Vec"@);
                }
                seq!["vec![]"@] + wrap_each(spec_synth(elem_type, errs), "vec!["@, "]"@)
            } else if spec_match_first_type_arg(p, "Cow"@) is Some {
                let borrowed_type = spec_match_first_type_arg(p, "Cow"@)->0;
                proof {
                    lemma_match_first_dec(t, "Cow"@);
                }
                cow_forms(spec_synth(borrowed_type, errs))
            } else if spec_known_container(p) is Some {
                let inner = spec_known_container(p)->0;
                let name = p.segments@.last().name@;
                proof {
                    lemma_path_args_dec(t);
                    lemma_arg_payload_dec(p.segments@.last().args@, 0);
                }
                wrap_each(spec_synth(inner, errs), name + "::new("@, ")"@)
            } else if spec_known_collection(p) is Some {
                let inner = spec_known_collection(p)->0;
                let name = p.segments@.last().name@;
                proof {
                    lemma_path_args_dec(t);
                    lemma_arg_payload_dec(p.segments@.last().args@, 0);
                }
                seq![name + "::new()"@] + wrap_each(
                    spec_synth(inner, errs),
                    name + "::from_iter(["@,
                    "])"@,
                )
            } else if spec_known_map(p) is Some {
                let key_type = (spec_known_map(p)->0).0;
                let value_type = (spec_known_map(p)->0).1;
                let name = p.segments@.last().name@;
                proof {
                    lemma_path_args_dec(t);
                    lemma_arg_payload_dec(p.segments@.last().args@, 0);
                    lemma_arg_payload_dec(p.segments@.last().args@, 1);
                }
                seq![name + "::new()"@] + wrap_each(
                    cross_join(spec_synth(key_type, errs), spec_synth(value_type, errs)),
                    name + "::from_iter([("@,
                    ")])"@,
                )
            } else if spec_maybe_collection_or_container(p) is Some {
                let inner = spec_maybe_collection_or_container(p)->0;
                let name = p.segments@.last().name@;
                proof {
                    lemma_maybe_dec(t);
                }
                seq![name + "::new()"@] + guess_forms(name, spec_synth(inner, errs))
            } else {
                seq!["Default::default()"@]
            }
        },
        TypeNode::Array(elem, len) => wrap_each(
            spec_synth(*elem, errs),
            "["@,
            "; "@ + len@ + "]"@,
        ),
        TypeNode::Slice(elem) => seq!["Vec::leak(Vec::new())"@] + wrap_each(
            spec_synth(*elem, errs),
            "Vec::leak(vec!["@,
            "])"@,
        ),
        TypeNode::Reference(false, elem) => {
            if *elem matches TypeNode::Path(q) && spec_is_ident(q, "str"@) {
                seq!["\"\""@, "\"xyzzy\""@]
            } else if *elem is Slice {
                let inner = (*elem)->Slice_0;
                seq!["Vec::leak(Vec::new())"@] + wrap_each(
                    spec_synth(*inner, errs),
                    "Vec::leak(vec!["@,
                    "])"@,
                )
            } else {
                prefix_each(spec_synth(*elem, errs), "&"@)
            }
        },
        TypeNode::Reference(true, elem) => {
            if *elem is Slice {
                let inner = (*elem)->Slice_0;
                seq!["Vec::leak(Vec::new())"@] + wrap_each(
                    spec_synth(*inner, errs),
                    "Vec::leak(vec!["@,
                    "])"@,
                )
            } else {
                wrap_each(spec_synth(*elem, errs), "Box::leak(Box::new("@, "))"@)
            }
        },
        TypeNode::Tuple(elems) => {
            if elems@.len() == 0 {
                seq!["()"@]
            } else {
                wrap_each(spec_tuple_combos(elems@, errs), "("@, ")"@)
            }
        },
        TypeNode::ImplTrait(bounds) => {
            if spec_match_impl_iterator(bounds@) is Some {
                let item_type = spec_match_impl_iterator(bounds@)->0;
                proof {
                    lemma_impl_trait_dec(t);
                }
                seq!["::std::iter::empty()"@] + wrap_each(
                    spec_synth(item_type, errs),
                    "::std::iter::once("@,
                    ")"@,
                )
            } else {
                Seq::empty()
            }
        },
        TypeNode::Never => Seq::empty(),
        TypeNode::Other => seq!["Default::default()"@],
    }
}

/// The comma-joined cartesian product of the candidate lists of a non-empty
/// run of tuple elements, earlier elements varying slower.
pub open spec fn spec_tuple_combos(ts: Seq<TypeNode>, errs: Seq<Seq<char>>) -> Seq<Seq<char>>
    decreases ts,
{
    if ts.len() == 0 {
        Seq::empty()
    } else if ts.len() == 1 {
        spec_synth(ts[0], errs)
    } else {
        proof {
            lemma_drop_last_dec(ts);
        }
        cross_join(spec_tuple_combos(ts.drop_last(), errs), spec_synth(ts[ts.len() - 1], errs))
    }
}

/// The candidate list for a declared return type; no declared type means the
/// single unit candidate.
pub open spec fn spec_return_type_replacements(rt: Option<TypeNode>, errs: Seq<Seq<char>>) -> Seq<
    Seq<char>,
> {
    match rt {
        None => seq!["()"@],
        Some(t) => spec_synth(t, errs),
    }
}

proof fn lemma_strs_view_concat(a: Seq<String>, b: Seq<String>)
    ensures
        strs_view(a + b) == strs_view(a) + strs_view(b),
{
    assert(strs_view(a + b) =~= strs_view(a) + strs_view(b));
}

/// Builds `pre + c + post` as one owned string.
fn wrap_string(pre: &str, c: &str, post: &str) -> (r: String)
    ensures
        r@ == pre@ + c@ + post@,
{
    let mut s = String::from_str(pre);
    s.append(c);
    s.append(post);
    s
}

fn one_string(a: &str) -> (r: Vec<String>)
    ensures
        strs_view(r@) == seq![a@],
{
    let mut out: Vec<String> = Vec::new();
    out.push(String::from_str(a));
    proof {
        assert(strs_view(out@) =~= seq![a@]);
    }
    out
}

fn two_strings(a: &str, b: &str) -> (r: Vec<String>)
    ensures
        strs_view(r@) == seq![a@, b@],
{
    let mut out: Vec<String> = Vec::new();
    out.push(String::from_str(a));
    out.push(String::from_str(b));
    proof {
        assert(strs_view(out@) =~= seq![a@, b@]);
    }
    out
}

fn three_strings(a: &str, b: &str, c: &str) -> (r: Vec<String>)
    ensures
        strs_view(r@) == seq![a@, b@, c@],
{
    let mut out: Vec<String> = Vec::new();
    out.push(String::from_str(a));
    out.push(String::from_str(b));
    out.push(String::from_str(c));
    proof {
        assert(strs_view(out@) =~= seq![a@, b@, c@]);
    }
    out
}

/// Each candidate wrapped between `pre` and `post`.
fn wrap_all(items: &Vec<String>, pre: &str, post: &str) -> (r: Vec<String>)
    ensures
        strs_view(r@) == wrap_each(strs_view(items@), pre@, post@),
{
    let mut out: Vec<String> = Vec::new();
    let mut i: usize = 0;
    while i < items.len()
        invariant
            i <= items@.len(),
            out@.len() == i,
            forall|j: int| 0 <= j < i ==> out@[j]@ == pre@ + items@[j]@ + post@,
        decreases items@.len() - i,
    {
        let w = wrap_string(pre, items[i].as_str(), post);
        out.push(w);
        i = i + 1;
    }
    proof {
        assert(strs_view(out@) =~= wrap_each(strs_view(items@), pre@, post@));
    }
    out
}

/// Each candidate preceded by `pre`.
fn prefix_all(items: &Vec<String>, pre: &str) -> (r: Vec<String>)
    ensures
        strs_view(r@) == prefix_each(strs_view(items@), pre@),
{
    let mut out: Vec<String> = Vec::new();
    let mut i: usize = 0;
    while i < items.len()
        invariant
            i <= items@.len(),
            out@.len() == i,
            forall|j: int| 0 <= j < i ==> out@[j]@ == pre@ + items@[j]@,
        decreases items@.len() - i,
    {
        let mut w = String::from_str(pre);
        w.append(items[i].as_str());
        out.push(w);
        i = i + 1;
    }
    proof {
        assert(strs_view(out@) =~= prefix_each(strs_view(items@), pre@));
    }
    out
}

/// A borrowed and an owned form for each candidate.
fn cow_all(items: &Vec<String>) -> (r: Vec<String>)
    ensures
        strs_view(r@) == cow_forms(strs_view(items@)),
{
    let mut out: Vec<String> = Vec::new();
    proof {
        assert(strs_view(items@).take(0) =~= Seq::empty());
        assert(strs_view(out@) =~= Seq::empty());
    }
    let mut i: usize = 0;
    while i < items.len()
        invariant
            i <= items@.len(),
            strs_view(out@) == cow_forms(strs_view(items@).take(i as int)),
        decreases items@.len() - i,
    {
        let b = wrap_string("Cow::Borrowed(", items[i].as_str(), ")");
        let o = wrap_string("Cow::Owned(", items[i].as_str(), ".to_owned())");
        out.push(b);
        out.push(o);
        i = i + 1;
        proof {
            let sv = strs_view(items@);
            assert(sv.take(i as int).drop_last() =~= sv.take(i as int - 1));
            assert(sv.take(i as int).last() == sv[i as int - 1]);
            assert(strs_view(out@) =~= cow_forms(sv.take(i as int - 1)) + seq![
                "Cow::Borrowed("@ + sv[i as int - 1] + ")"@,
                "Cow::Owned("@ + sv[i as int - 1] + ".to_owned())"@,
            ]);
        }
    }
    proof {
        assert(strs_view(items@).take(items@.len() as int) =~= strs_view(items@));
    }
    out
}

/// Three speculative construction forms for each candidate.
fn guess_all(name: &String, items: &Vec<String>) -> (r: Vec<String>)
    ensures
        strs_view(r@) == guess_forms(name@, strs_view(items@)),
{
    let mut out: Vec<String> = Vec::new();
    proof {
        assert(strs_view(items@).take(0) =~= Seq::empty());
        assert(strs_view(out@) =~= Seq::empty());
    }
    let mut i: usize = 0;
    while i < items.len()
        invariant
            i <= items@.len(),
            strs_view(out@) == guess_forms(name@, strs_view(items@).take(i as int)),
        decreases items@.len() - i,
    {
        let mut a = name.clone();
        a.append("::from_iter([");
        a.append(items[i].as_str());
        a.append("])");
        let mut b = name.clone();
        b.append("::new(");
        b.append(items[i].as_str());
        b.append(")");
        let mut c = name.clone();
        c.append("::from(");
        c.append(items[i].as_str());
        c.append(")");
        out.push(a);
        out.push(b);
        out.push(c);
        i = i + 1;
        proof {
            let sv = strs_view(items@);
            assert(sv.take(i as int).drop_last() =~= sv.take(i as int - 1));
            assert(sv.take(i as int).last() == sv[i as int - 1]);
            assert(strs_view(out@) =~= guess_forms(name@, sv.take(i as int - 1)) + seq![
                name@ + "::from_iter(["@ + sv[i as int - 1] + "])"@,
                name@ + "::new("@ + sv[i as int - 1] + ")"@,
                name@ + "::from("@ + sv[i as int - 1] + ")"@,
            ]);
        }
    }
    proof {
        assert(strs_view(items@).take(items@.len() as int) =~= strs_view(items@));
    }
    out
}

/// The comma-joined cartesian product of two candidate lists.
fn cross_join_all(l: &Vec<String>, r: &Vec<String>) -> (out: Vec<String>)
    ensures
        strs_view(out@) == cross_join(strs_view(l@), strs_view(r@)),
{
    let mut out: Vec<String> = Vec::new();
    proof {
        assert(strs_view(l@).take(0) =~= Seq::empty());
        assert(strs_view(out@) =~= Seq::empty());
    }
    let mut i: usize = 0;
    while i < l.len()
        invariant
            i <= l@.len(),
            strs_view(out@) == cross_join(strs_view(l@).take(i as int), strs_view(r@)),
        decreases l@.len() - i,
    {
        let mut pre = l[i].clone();
        pre.append(", ");
        let ghost row_pre = l@[i as int]@ + ", "@;
        proof {
            assert(strs_view(r@).take(0) =~= Seq::empty());
        }
        let mut j: usize = 0;
        while j < r.len()
            invariant
                j <= r@.len(),
                pre@ == row_pre,
                strs_view(out@) == cross_join(strs_view(l@).take(i as int), strs_view(r@))
                    + prefix_each(strs_view(r@).take(j as int), row_pre),
            decreases r@.len() - j,
        {
            let ghost out0 = out@;
            let mut w = pre.clone();
            w.append(r[j].as_str());
            out.push(w);
            j = j + 1;
            proof {
                let rv = strs_view(r@);
                let row = seq![row_pre + rv[j as int - 1]];
                assert(strs_view(out@) =~= strs_view(out0) + row);
                assert(prefix_each(rv.take(j as int), row_pre) =~= prefix_each(
                    rv.take(j as int - 1),
                    row_pre,
                ) + row);
                assert(strs_view(out@) =~= cross_join(strs_view(l@).take(i as int), rv)
                    + prefix_each(rv.take(j as int), row_pre));
            }
        }
        i = i + 1;
        proof {
            let lv = strs_view(l@);
            let rv = strs_view(r@);
            assert(rv.take(rv.len() as int) =~= rv);
            assert(lv.take(i as int).drop_last() =~= lv.take(i as int - 1));
            assert(lv.take(i as int).last() == lv[i as int - 1]);
            assert(prefix_each(rv, lv.take(i as int).last() + ", "@) =~= prefix_each(
                rv,
                row_pre,
            ));
        }
    }
    proof {
        assert(strs_view(l@).take(l@.len() as int) =~= strs_view(l@));
    }
    out
}

/// Generate candidate replacement values for a type.
///
/// The result is exactly [`spec_synth`] of the type and the error-expression
/// list; order is part of the contract.
pub fn type_replacements(type_: &TypeNode, error_exprs: &Vec<String>) -> (r: Vec<String>)
    ensures
        strs_view(r@) == spec_synth(*type_, strs_view(error_exprs@)),
    decreases *type_,
{
    match type_ {
        TypeNode::Path(p) => {
            if path_is_ident(p, "bool") {
                two_strings("true", "false")
            } else if path_is_ident(p, "String") {
                two_strings("String::new()", "\"xyzzy\".into()")
            } else if path_is_ident(p, "str") {
                two_strings("\"\"", "\"xyzzy\"")
            } else if path_is_unsigned(p) {
                two_strings("0", "1")
            } else if path_is_signed(p) {
                three_strings("0", "1", "-1")
            } else if path_is_nonzero_signed(p) {
                two_strings("1", "-1")
            } else if path_is_nonzero_unsigned(p) {
                one_string("1")
            } else if path_is_float(p) {
                let mut zero = String::from_str("0");
                zero.append(".0");
                let mut one = String::from_str("1");
                one.append(".0");
                let mut minus_one = String::from_str("-1");
                minus_one.append(".0");
                let mut out: Vec<String> = Vec::new();
                out.push(zero);
                out.push(one);
                out.push(minus_one);
                proof {
                    assert(strs_view(out@) =~= seq![
                        "0"@ + ".0"@,
                        "1"@ + ".0"@,
                        "-1"@ + ".0"@,
                    ]);
                }
                out
            } else if path_ends_with(p, "Result") {
                let mut oks = if let Some(ok_type) = match_first_type_arg(p, "Result") {
                    proof {
                        lemma_match_first_dec(*type_, "Result"@);
                    }
                    let reps = type_replacements(ok_type, error_exprs);
                    wrap_all(&reps, "Ok(", ")")
                } else {
                    one_string("Ok(Default::default())")
                };
                let ghost oks0 = oks@;
                let mut errs = wrap_all(error_exprs, "Err(", ")");
                let ghost errs0 = errs@;
                oks.append(&mut errs);
                proof {
                    lemma_strs_view_concat(oks0, errs0);
                }
                oks
            } else if path_ends_with(p, "HttpResponse") {
                one_string("HttpResponse::Ok().finish()")
            } else if let Some(some_type) = match_first_type_arg(p, "Option") {
                proof {
                    lemma_match_first_dec(*type_, "Option"@);
                }
                let reps = type_replacements(some_type, error_exprs);
                let mut out = one_string("None");
                let ghost out0 = out@;
                let mut wrapped = wrap_all(&reps, "Some(", ")");
                let ghost wrapped0 = wrapped@;
                out.append(&mut wrapped);
                proof {
                    lemma_strs_view_concat(out0, wrapped0);
                }
                out
            } else if let Some(elem_type) = match_first_type_arg(p, "Vec") {
                proof {
                    lemma_match_first_dec(*type_, "Vec"@);
                }
                let reps = type_replacements(elem_type, error_exprs);
                let mut out = one_string("vec![]");
                let ghost out0 = out@;
                let mut wrapped = wrap_all(&reps, "vec![", "]");
                let ghost wrapped0 = wrapped@;
                out.append(&mut wrapped);
                proof {
                    lemma_strs_view_concat(out0, wrapped0);
                }
                out
            } else if let Some(borrowed_type) = match_first_type_arg(p, "Cow") {
                proof {
                    lemma_match_first_dec(*type_, "Cow"@);
                }
                let reps = type_replacements(borrowed_type, error_exprs);
                cow_all(&reps)
            } else if let Some(inner) = known_container(p) {
                proof {
                    lemma_path_args_dec(*type_);
                    lemma_arg_payload_dec(p.segments@.last().args@, 0);
                }
                let reps = type_replacements(inner, error_exprs);
                let name = &p.segments[p.segments.len() - 1].name;
                let mut pre = name.clone();
                pre.append("::new(");
                wrap_all(&reps, pre.as_str(), ")")
            } else if let Some(inner) = known_collection(p) {
                proof {
                    lemma_path_args_dec(*type_);
                    lemma_arg_payload_dec(p.segments@.last().args@, 0);
                }
                let reps = type_replacements(inner, error_exprs);
                let name = &p.segments[p.segments.len() - 1].name;
                let mut out = one_string(name.clone().concat("::new()").as_str());
                let ghost out0 = out@;
                let mut pre = name.clone();
                pre.append("::from_iter([");
                let mut wrapped = wrap_all(&reps, pre.as_str(), "])");
                let ghost wrapped0 = wrapped@;
                out.append(&mut wrapped);
                proof {
                    lemma_strs_view_concat(out0, wrapped0);
                }
                out
            } else if let Some((key_type, value_type)) = known_map(p) {
                proof {
                    lemma_path_args_dec(*type_);
                    lemma_arg_payload_dec(p.segments@.last().args@, 0);
                    lemma_arg_payload_dec(p.segments@.last().args@, 1);
                }
                let key_reps = type_replacements(key_type, error_exprs);
                let val_reps = type_replacements(value_type, error_exprs);
                let crossed = cross_join_all(&key_reps, &val_reps);
                let name = &p.segments[p.segments.len() - 1].name;
                let mut out = one_string(name.clone().concat("::new()").as_str());
                let ghost out0 = out@;
                let mut pre = name.clone();
                pre.append("::from_iter([(");
                let mut wrapped = wrap_all(&crossed, pre.as_str(), ")])");
                let ghost wrapped0 = wrapped@;
                out.append(&mut wrapped);
                proof {
                    lemma_strs_view_concat(out0, wrapped0);
                }
                out
            } else if let Some(inner) = maybe_collection_or_container(p) {
                proof {
                    lemma_maybe_dec(*type_);
                }
                let reps = type_replacements(inner, error_exprs);
                let name = &p.segments[p.segments.len() - 1].name;
                let mut out = one_string(name.clone().concat("::new()").as_str());
                let ghost out0 = out@;
                let mut guessed = guess_all(name, &reps);
                let ghost guessed0 = guessed@;
                out.append(&mut guessed);
                proof {
                    lemma_strs_view_concat(out0, guessed0);
                }
                out
            } else {
                one_string("Default::default()")
            }
        },
        TypeNode::Array(elem, len) => {
            let reps = type_replacements(&**elem, error_exprs);
            let mut post = String::from_str("; ");
            post.append(len.as_str());
            post.append("]");
            wrap_all(&reps, "[", post.as_str())
        },
        TypeNode::Slice(elem) => {
            let reps = type_replacements(&**elem, error_exprs);
            let mut out = one_string("Vec::leak(Vec::new())");
            let ghost out0 = out@;
            let mut wrapped = wrap_all(&reps, "Vec::leak(vec![", "])");
            let ghost wrapped0 = wrapped@;
            out.append(&mut wrapped);
            proof {
                lemma_strs_view_concat(out0, wrapped0);
            }
            out
        },
        TypeNode::Reference(mutable, elem) => {
            if !*mutable {
                match &**elem {
                    TypeNode::Path(q) => {
                        if path_is_ident(q, "str") {
                            two_strings("\"\"", "\"xyzzy\"")
                        } else {
                            let reps = type_replacements(&**elem, error_exprs);
                            prefix_all(&reps, "&")
                        }
                    },
                    TypeNode::Slice(inner) => {
                        proof {
                            assert(decreases_to!(*type_ => **elem));
                            assert(decreases_to!(**elem => **inner));
                        }
                        let reps = type_replacements(&**inner, error_exprs);
                        let mut out = one_string("Vec::leak(Vec::new())");
                        let ghost out0 = out@;
                        let mut wrapped = wrap_all(&reps, "Vec::leak(vec![", "])");
                        let ghost wrapped0 = wrapped@;
                        out.append(&mut wrapped);
                        proof {
                            lemma_strs_view_concat(out0, wrapped0);
                        }
                        out
                    },
                    _ => {
                        let reps = type_replacements(&**elem, error_exprs);
                        prefix_all(&reps, "&")
                    },
                }
            } else {
                match &**elem {
                    TypeNode::Slice(inner) => {
                        proof {
                            assert(decreases_to!(*type_ => **elem));
                            assert(decreases_to!(**elem => **inner));
                        }
                        let reps = type_replacements(&**inner, error_exprs);
                        let mut out = one_string("Vec::leak(Vec::new())");
                        let ghost out0 = out@;
                        let mut wrapped = wrap_all(&reps, "Vec::leak(vec![", "])");
                        let ghost wrapped0 = wrapped@;
                        out.append(&mut wrapped);
                        proof {
                            lemma_strs_view_concat(out0, wrapped0);
                        }
                        out
                    },
                    _ => {
                        let reps = type_replacements(&**elem, error_exprs);
                        wrap_all(&reps, "Box::leak(Box::new(", "))")
                    },
                }
            }
        },
        TypeNode::Tuple(elems) => {
            if elems.len() == 0 {
                one_string("()")
            } else {
                proof {
                    assert(decreases_to!(*type_ => elems@));
                    assert(decreases_to!(elems@ => elems@[0]));
                }
                let mut rows = type_replacements(&elems[0], error_exprs);
                proof {
                    assert(elems@.take(1).len() == 1);
                    assert(elems@.take(1)[0] == elems@[0]);
                }
                let mut k: usize = 1;
                while k < elems.len()
                    invariant
                        1 <= k <= elems@.len(),
                        *type_ == TypeNode::Tuple(*elems),
                        strs_view(rows@) == spec_tuple_combos(
                            elems@.take(k as int),
                            strs_view(error_exprs@),
                        ),
                    decreases elems@.len() - k,
                {
                    proof {
                        assert(decreases_to!(*type_ => (*type_)->Tuple_0));
                        assert(decreases_to!(*elems => elems@));
                        assert(decreases_to!(elems@ => elems@[k as int]));
                    }
                    let next = type_replacements(&elems[k], error_exprs);
                    rows = cross_join_all(&rows, &next);
                    k = k + 1;
                    proof {
                        assert(elems@.take(k as int).drop_last() =~= elems@.take(k as int - 1));
                        assert(elems@.take(k as int).last() == elems@[k as int - 1]);
                    }
                }
                proof {
                    assert(elems@.take(elems@.len() as int) =~= elems@);
                }
                wrap_all(&rows, "(", ")")
            }
        },
        TypeNode::ImplTrait(bounds) => {
            if let Some(item_type) = match_impl_iterator(bounds) {
                proof {
                    lemma_impl_trait_dec(*type_);
                }
                let reps = type_replacements(item_type, error_exprs);
                let mut out = one_string("::std::iter::empty()");
                let ghost out0 = out@;
                let mut wrapped = wrap_all(&reps, "::std::iter::once(", ")");
                let ghost wrapped0 = wrapped@;
                out.append(&mut wrapped);
                proof {
                    lemma_strs_view_concat(out0, wrapped0);
                }
                out
            } else {
                let out: Vec<String> = Vec::new();
                proof {
                    assert(strs_view(out@) =~= Seq::empty());
                }
                out
            }
        },
        TypeNode::Never => {
            let out: Vec<String> = Vec::new();
            proof {
                assert(strs_view(out@) =~= Seq::empty());
            }
            out
        },
        TypeNode::Other => one_string("Default::default()"),
    }
}

/// Generate replacement values for a function based on its declared return
/// type; an absent return type means unit.
pub fn return_type_replacements(return_type: &Option<TypeNode>, error_exprs: &Vec<String>) -> (r:
    Vec<String>)
    ensures
        strs_view(r@) == spec_return_type_replacements(*return_type, strs_view(error_exprs@)),
{
    match return_type {
        None => one_string("()"),
        Some(t) => type_replacements(t, error_exprs),
    }
}

} // verus!
