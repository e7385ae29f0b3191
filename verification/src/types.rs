//! The structural model of a declared return type.
//!
//! A [`TypeNode`] is an immutable tree describing a type as an external parser
//! saw it: paths with generic arguments, arrays, slices, references, tuples,
//! opaque `impl Trait` bounds, the never type, or an unrecognized shape.  The
//! synthesizer only reads these trees; it never builds or mutates them.

use vstd::prelude::*;
use vstd::string::StrSliceExecFns;

verus! {

/// One generic argument of a path segment.
pub enum GenericArgNode {
    /// An ordinary type argument.
    TypeArg(TypeNode),
    /// A lifetime argument; skipped when searching for a type argument.
    LifetimeArg,
    /// An associated-type binding such as `Item = X`.
    AssocArg(String, TypeNode),
    /// Any other kind of argument (a const expression, a constraint, ...).
    OtherArg,
}

/// One segment of a type path: an identifier with its generic arguments.
pub struct PathSegment {
    pub name: String,
    pub args: Vec<GenericArgNode>,
}

/// A type path such as `std::collections::HashMap<K, V>`.
pub struct TypePath {
    pub segments: Vec<PathSegment>,
}

/// One bound of an opaque `impl Trait` type.
pub enum BoundNode {
    /// A trait bound, given as a path.
    TraitBound(TypePath),
    /// A lifetime or other non-trait bound.
    OtherBound,
}

/// A declared type, as produced by an external parser.
pub enum TypeNode {
    /// A (possibly generic) path type.
    Path(TypePath),
    /// A fixed-length array: the element type and the source text of the
    /// length expression.
    Array(Box<TypeNode>, String),
    /// A slice of the element type.
    Slice(Box<TypeNode>),
    /// A reference; the flag says whether it is mutable.
    Reference(bool, Box<TypeNode>),
    /// A tuple of the element types, in declaration order.
    Tuple(Vec<TypeNode>),
    /// An opaque `impl Trait` type with its bounds.
    ImplTrait(Vec<BoundNode>),
    /// The never type, which has no values.
    Never,
    /// Any other shape of type.
    Other,
}

/// Compares two string slices character by character.
pub fn str_eq(a: &str, b: &str) -> (r: bool)
    ensures
        r == (a@ == b@),
{
    let a_len = a.unicode_len();
    let b_len = b.unicode_len();
    if a_len != b_len {
        return false;
    }
    let mut i: usize = 0;
    while i < a_len
        invariant
            a_len == a@.len(),
            a_len == b@.len(),
            i <= a_len,
            forall|j: int| 0 <= j < i ==> a@[j] == b@[j],
        decreases a_len - i,
    {
        if a.get_char(i) != b.get_char(i) {
            return false;
        }
        i = i + 1;
    }
    proof {
        assert(a@ =~= b@);
    }
    true
}

/// Compares an owned identifier against a literal name.
pub fn name_is(name: &String, lit: &str) -> (r: bool)
    ensures
        r == (name@ == lit@),
{
    str_eq(name.as_str(), lit)
}

} // verus!
