//! Classification of type paths: primitive leaves, registry families, and the
//! helpers that pull type arguments out of a path.
//!
//! Matching is by the terminal path segment name, in a fixed priority order;
//! no category overlaps another.

use vstd::prelude::*;

use crate::types::{GenericArgNode, TypeNode, TypePath};
use crate::types::name_is;

verus! {

/// The path is a single bare identifier equal to `name`, with no arguments.
pub open spec fn spec_is_ident(p: TypePath, name: Seq<char>) -> bool {
    &&& p.segments@.len() == 1
    &&& p.segments@[0].name@ == name
    &&& p.segments@[0].args@.len() == 0
}

/// The terminal segment of the path is named `name`.
pub open spec fn spec_path_ends_with(p: TypePath, name: Seq<char>) -> bool {
    &&& p.segments@.len() > 0
    &&& p.segments@.last().name@ == name
}

pub open spec fn spec_path_is_unsigned(p: TypePath) -> bool {
    ||| spec_is_ident(p, "u8"@)
    ||| spec_is_ident(p, "u16"@)
    ||| spec_is_ident(p, "u32"@)
    ||| spec_is_ident(p, "u64"@)
    ||| spec_is_ident(p, "u128"@)
    ||| spec_is_ident(p, "usize"@)
}

pub open spec fn spec_path_is_signed(p: TypePath) -> bool {
    ||| spec_is_ident(p, "i8"@)
    ||| spec_is_ident(p, "i16"@)
    ||| spec_is_ident(p, "i32"@)
    ||| spec_is_ident(p, "i64"@)
    ||| spec_is_ident(p, "i128"@)
    ||| spec_is_ident(p, "isize"@)
}

pub open spec fn spec_path_is_float(p: TypePath) -> bool {
    ||| spec_is_ident(p, "f32"@)
    ||| spec_is_ident(p, "f64"@)
}

pub open spec fn spec_path_is_nonzero_signed(p: TypePath) -> bool {
    ||| spec_path_ends_with(p, "NonZeroIsize"@)
    ||| spec_path_ends_with(p, "NonZeroI8"@)
    ||| spec_path_ends_with(p, "NonZeroI16"@)
    ||| spec_path_ends_with(p, "NonZeroI32"@)
    ||| spec_path_ends_with(p, "NonZeroI64"@)
    ||| spec_path_ends_with(p, "NonZeroI128"@)
}

pub open spec fn spec_path_is_nonzero_unsigned(p: TypePath) -> bool {
    ||| spec_path_ends_with(p, "NonZeroUsize"@)
    ||| spec_path_ends_with(p, "NonZeroU8"@)
    ||| spec_path_ends_with(p, "NonZeroU16"@)
    ||| spec_path_ends_with(p, "NonZeroU32"@)
    ||| spec_path_ends_with(p, "NonZeroU64"@)
    ||| spec_path_ends_with(p, "NonZeroU128"@)
}

/// The first type argument of `args`, skipping lifetimes; any other argument
/// kind before a type argument gives nothing.
pub open spec fn spec_first_type_arg(args: Seq<GenericArgNode>) -> Option<TypeNode>
    decreases args.len(),
{
    if args.len() == 0 {
        None
    } else {
        match args[0] {
            GenericArgNode::TypeArg(t) => Some(t),
            GenericArgNode::LifetimeArg => spec_first_type_arg(args.drop_first()),
            _ => None,
        }
    }
}

/// If the path ends in `name`, its first type argument.
pub open spec fn spec_match_first_type_arg(p: TypePath, name: Seq<char>) -> Option<TypeNode> {
    if spec_path_ends_with(p, name) {
        spec_first_type_arg(p.segments@.last().args@)
    } else {
        None
    }
}

/// Names of single-argument owning wrappers built with `new`.
pub open spec fn spec_is_container_name(n: Seq<char>) -> bool {
    ||| n == "Box"@
    ||| n == "Cell"@
    ||| n == "RefCell"@
    ||| n == "Arc"@
    ||| n == "Rc"@
    ||| n == "Mutex"@
}

/// Names of collections that can be empty or built from one element.
pub open spec fn spec_is_collection_name(n: Seq<char>) -> bool {
    ||| n == "BinaryHeap"@
    ||| n == "BTreeSet"@
    ||| n == "HashSet"@
    ||| n == "LinkedList"@
    ||| n == "VecDeque"@
}

/// Names of key-value maps.
pub open spec fn spec_is_map_name(n: Seq<char>) -> bool {
    ||| n == "BTreeMap"@
    ||| n == "HashMap"@
}

/// The wrapped type of a known owning wrapper, when the terminal segment has
/// exactly one argument and it is a type.
pub open spec fn spec_known_container(p: TypePath) -> Option<TypeNode> {
    if p.segments@.len() > 0 && spec_is_container_name(p.segments@.last().name@)
        && p.segments@.last().args@.len() == 1 && p.segments@.last().args@[0] is TypeArg {
        Some(p.segments@.last().args@[0]->TypeArg_0)
    } else {
        None
    }
}

/// The element type of a known collection, under the same shape conditions.
pub open spec fn spec_known_collection(p: TypePath) -> Option<TypeNode> {
    if p.segments@.len() > 0 && spec_is_collection_name(p.segments@.last().name@)
        && p.segments@.last().args@.len() == 1 && p.segments@.last().args@[0] is TypeArg {
        Some(p.segments@.last().args@[0]->TypeArg_0)
    } else {
        None
    }
}

/// The key and value types of a known map, when the terminal segment has
/// exactly two arguments and both are types.
pub open spec fn spec_known_map(p: TypePath) -> Option<(TypeNode, TypeNode)> {
    if p.segments@.len() > 0 && spec_is_map_name(p.segments@.last().name@)
        && p.segments@.last().args@.len() == 2
        && p.segments@.last().args@[0] is TypeArg
        && p.segments@.last().args@[1] is TypeArg {
        Some((p.segments@.last().args@[0]->TypeArg_0, p.segments@.last().args@[1]->TypeArg_0))
    } else {
        None
    }
}

/// The type arguments of `args`, in order, with everything else dropped.
pub open spec fn spec_type_args(args: Seq<GenericArgNode>) -> Seq<TypeNode>
    decreases args.len(),
{
    if args.len() == 0 {
        Seq::empty()
    } else {
        spec_type_args(args.drop_last()) + match args.last() {
            GenericArgNode::TypeArg(t) => seq![t],
            _ => Seq::empty(),
        }
    }
}

/// The single type argument of a path that looks like an unknown wrapper or
/// single-element collection.
pub open spec fn spec_maybe_collection_or_container(p: TypePath) -> Option<TypeNode> {
    if p.segments@.len() > 0 && spec_type_args(p.segments@.last().args@).len() == 1 {
        Some(spec_type_args(p.segments@.last().args@)[0])
    } else {
        None
    }
}

/// The item type promised by one `impl Trait` bound, when the bound is a
/// trait path ending in `Iterator` whose first argument binds `Item`.
pub open spec fn spec_bound_iterator_item(b: crate::types::BoundNode) -> Option<TypeNode> {
    match b {
        crate::types::BoundNode::TraitBound(p) => {
            if p.segments@.len() > 0 && p.segments@.last().name@ == "Iterator"@
                && p.segments@.last().args@.len() > 0
                && p.segments@.last().args@[0] is AssocArg
                && p.segments@.last().args@[0]->AssocArg_0@ == "Item"@ {
                Some(p.segments@.last().args@[0]->AssocArg_1)
            } else {
                None
            }
        },
        _ => None,
    }
}

/// The item type of the first bound that names a lazy sequence.
pub open spec fn spec_match_impl_iterator(bounds: Seq<crate::types::BoundNode>) -> Option<
    TypeNode,
>
    decreases bounds.len(),
{
    if bounds.len() == 0 {
        None
    } else if spec_bound_iterator_item(bounds[0]) is Some {
        spec_bound_iterator_item(bounds[0])
    } else {
        spec_match_impl_iterator(bounds.drop_first())
    }
}

pub fn path_is_ident(p: &TypePath, name: &str) -> (r: bool)
    ensures
        r == spec_is_ident(*p, name@),
{
    p.segments.len() == 1 && p.segments[0].args.len() == 0 && name_is(&p.segments[0].name, name)
}

pub fn path_ends_with(p: &TypePath, name: &str) -> (r: bool)
    ensures
        r == spec_path_ends_with(*p, name@),
{
    if p.segments.len() == 0 {
        return false;
    }
    name_is(&p.segments[p.segments.len() - 1].name, name)
}

pub fn path_is_unsigned(p: &TypePath) -> (r: bool)
    ensures
        r == spec_path_is_unsigned(*p),
{
    path_is_ident(p, "u8") || path_is_ident(p, "u16") || path_is_ident(p, "u32")
        || path_is_ident(p, "u64") || path_is_ident(p, "u128") || path_is_ident(p, "usize")
}

pub fn path_is_signed(p: &TypePath) -> (r: bool)
    ensures
        r == spec_path_is_signed(*p),
{
    path_is_ident(p, "i8") || path_is_ident(p, "i16") || path_is_ident(p, "i32")
        || path_is_ident(p, "i64") || path_is_ident(p, "i128") || path_is_ident(p, "isize")
}

pub fn path_is_float(p: &TypePath) -> (r: bool)
    ensures
        r == spec_path_is_float(*p),
{
    path_is_ident(p, "f32") || path_is_ident(p, "f64")
}

pub fn path_is_nonzero_signed(p: &TypePath) -> (r: bool)
    ensures
        r == spec_path_is_nonzero_signed(*p),
{
    path_ends_with(p, "NonZeroIsize") || path_ends_with(p, "NonZeroI8")
        || path_ends_with(p, "NonZeroI16") || path_ends_with(p, "NonZeroI32")
        || path_ends_with(p, "NonZeroI64") || path_ends_with(p, "NonZeroI128")
}

pub fn path_is_nonzero_unsigned(p: &TypePath) -> (r: bool)
    ensures
        r == spec_path_is_nonzero_unsigned(*p),
{
    path_ends_with(p, "NonZeroUsize") || path_ends_with(p, "NonZeroU8")
        || path_ends_with(p, "NonZeroU16") || path_ends_with(p, "NonZeroU32")
        || path_ends_with(p, "NonZeroU64") || path_ends_with(p, "NonZeroU128")
}

/// If the path ends in `name`, return its first type argument, skipping
/// lifetimes.
pub fn match_first_type_arg<'a>(p: &'a TypePath, name: &str) -> (r: Option<&'a TypeNode>)
    ensures
        match r {
            Some(t) => spec_match_first_type_arg(*p, name@) == Some(*t),
            None => spec_match_first_type_arg(*p, name@) is None,
        },
{
    if !path_ends_with(p, name) {
        return None;
    }
    let last = &p.segments[p.segments.len() - 1];
    proof {
        assert(last.args@.skip(0) =~= last.args@);
    }
    let mut i: usize = 0;
    while i < last.args.len()
        invariant
            i <= last.args@.len(),
            *last == p.segments@.last(),
            spec_path_ends_with(*p, name@),
            spec_first_type_arg(last.args@.skip(i as int)) == spec_first_type_arg(last.args@),
        decreases last.args@.len() - i,
    {
        proof {
            assert(last.args@.skip(i as int)[0] == last.args@[i as int]);
        }
        match &last.args[i] {
            GenericArgNode::TypeArg(t) => {
                return Some(t);
            },
            GenericArgNode::LifetimeArg => {
                proof {
                    assert(last.args@.skip(i as int).drop_first() =~= last.args@.skip(
                        i as int + 1,
                    ));
                }
                i = i + 1;
            },
            _ => {
                return None;
            },
        }
    }
    proof {
        assert(last.args@.skip(i as int) =~= Seq::empty());
    }
    None
}

fn is_container_name(name: &String) -> (r: bool)
    ensures
        r == spec_is_container_name(name@),
{
    name_is(name, "Box") || name_is(name, "Cell") || name_is(name, "RefCell")
        || name_is(name, "Arc") || name_is(name, "Rc") || name_is(name, "Mutex")
}

fn is_collection_name(name: &String) -> (r: bool)
    ensures
        r == spec_is_collection_name(name@),
{
    name_is(name, "BinaryHeap") || name_is(name, "BTreeSet") || name_is(name, "HashSet")
        || name_is(name, "LinkedList") || name_is(name, "VecDeque")
}

fn is_map_name(name: &String) -> (r: bool)
    ensures
        r == spec_is_map_name(name@),
{
    name_is(name, "BTreeMap") || name_is(name, "HashMap")
}

/// Recognize a known owning wrapper such as `Box<X>` and return the wrapped
/// type.
pub fn known_container<'a>(p: &'a TypePath) -> (r: Option<&'a TypeNode>)
    ensures
        match r {
            Some(t) => spec_known_container(*p) == Some(*t),
            None => spec_known_container(*p) is None,
        },
{
    if p.segments.len() == 0 {
        return None;
    }
    let last = &p.segments[p.segments.len() - 1];
    if !is_container_name(&last.name) {
        return None;
    }
    if last.args.len() == 1 {
        match &last.args[0] {
            GenericArgNode::TypeArg(t) => Some(t),
            _ => None,
        }
    } else {
        None
    }
}

/// Recognize a known collection such as `HashSet<X>` and return the element
/// type.
pub fn known_collection<'a>(p: &'a TypePath) -> (r: Option<&'a TypeNode>)
    ensures
        match r {
            Some(t) => spec_known_collection(*p) == Some(*t),
            None => spec_known_collection(*p) is None,
        },
{
    if p.segments.len() == 0 {
        return None;
    }
    let last = &p.segments[p.segments.len() - 1];
    if !is_collection_name(&last.name) {
        return None;
    }
    if last.args.len() == 1 {
        match &last.args[0] {
            GenericArgNode::TypeArg(t) => Some(t),
            _ => None,
        }
    } else {
        None
    }
}

/// Recognize a known map such as `HashMap<K, V>` and return the key and value
/// types.
pub fn known_map<'a>(p: &'a TypePath) -> (r: Option<(&'a TypeNode, &'a TypeNode)>)
    ensures
        match r {
            Some(kv) => spec_known_map(*p) == Some((*kv.0, *kv.1)),
            None => spec_known_map(*p) is None,
        },
{
    if p.segments.len() == 0 {
        return None;
    }
    let last = &p.segments[p.segments.len() - 1];
    if !is_map_name(&last.name) {
        return None;
    }
    if last.args.len() == 2 {
        match (&last.args[0], &last.args[1]) {
            (GenericArgNode::TypeArg(k), GenericArgNode::TypeArg(v)) => Some((k, v)),
            _ => None,
        }
    } else {
        None
    }
}

/// Match a path with exactly one type argument, which might be an unknown
/// wrapper or single-element collection.
pub fn maybe_collection_or_container<'a>(p: &'a TypePath) -> (r: Option<&'a TypeNode>)
    ensures
        match r {
            Some(t) => spec_maybe_collection_or_container(*p) == Some(*t),
            None => spec_maybe_collection_or_container(*p) is None,
        },
{
    if p.segments.len() == 0 {
        return None;
    }
    let last = &p.segments[p.segments.len() - 1];
    let mut found: Option<&TypeNode> = None;
    let mut count: usize = 0;
    let mut i: usize = 0;
    while i < last.args.len()
        invariant
            i <= last.args@.len(),
            count <= i,
            count == spec_type_args(last.args@.take(i as int)).len(),
            count > 0 ==> (found matches Some(t) && spec_type_args(last.args@.take(i as int))[0]
                == *t),
            count == 0 ==> found is None,
        decreases last.args@.len() - i,
    {
        proof {
            assert(last.args@.take(i as int + 1).drop_last() =~= last.args@.take(i as int));
            assert(last.args@.take(i as int + 1).last() == last.args@[i as int]);
        }
        match &last.args[i] {
            GenericArgNode::TypeArg(t) => {
                if count == 0 {
                    found = Some(t);
                }
                count = count + 1;
            },
            _ => {},
        }
        i = i + 1;
    }
    proof {
        assert(last.args@.take(last.args@.len() as int) =~= last.args@);
    }
    if count == 1 {
        found
    } else {
        None
    }
}

/// Find the item type of the first `Iterator` bound of an opaque type.
pub fn match_impl_iterator<'a>(bounds: &'a Vec<crate::types::BoundNode>) -> (r: Option<
    &'a TypeNode,
>)
    ensures
        match r {
            Some(t) => spec_match_impl_iterator(bounds@) == Some(*t),
            None => spec_match_impl_iterator(bounds@) is None,
        },
{
    proof {
        assert(bounds@.skip(0) =~= bounds@);
    }
    let mut i: usize = 0;
    while i < bounds.len()
        invariant
            i <= bounds@.len(),
            spec_match_impl_iterator(bounds@.skip(i as int)) == spec_match_impl_iterator(bounds@),
        decreases bounds@.len() - i,
    {
        proof {
            assert(bounds@.skip(i as int)[0] == bounds@[i as int]);
            assert(bounds@.skip(i as int).drop_first() =~= bounds@.skip(i as int + 1));
        }
        match &bounds[i] {
            crate::types::BoundNode::TraitBound(path) => {
                if path.segments.len() > 0 {
                    let last = &path.segments[path.segments.len() - 1];
                    if name_is(&last.name, "Iterator") && last.args.len() > 0 {
                        match &last.args[0] {
                            GenericArgNode::AssocArg(assoc_name, ty) => {
                                if name_is(assoc_name, "Item") {
                                    return Some(ty);
                                }
                            },
                            _ => {},
                        }
                    }
                }
            },
            _ => {},
        }
        i = i + 1;
    }
    proof {
        assert(bounds@.skip(bounds@.len() as int) =~= Seq::empty());
    }
    None
}

} // verus!
