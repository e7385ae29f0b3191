//! Value synthesis for mutation testing: given the declared return type of a
//! function, produce a finite, ordered list of plausible replacement
//! expressions, plus a shard selector for distributing the resulting mutants.

use vstd::prelude::*;

pub mod classify;
pub mod laws;
pub mod shard;
pub mod synth;
pub mod types;

verus! {

/// A unit marker carried by [`Enum`].
pub struct Struct;

/// A one-variant wrapper around [`Struct`].
pub enum Enum {
    Variant(Struct),
}

/// Borrow the payloads of a two-element slice as a pair; any other length
/// yields nothing.
pub fn f(args: &[Enum]) -> (r: Option<(&Struct, &Struct)>)
    ensures
        r is Some <==> args@.len() == 2,
{
    if args.len() == 2 {
        let Enum::Variant(thing) = &args[0];
        let Enum::Variant(thing2) = &args[1];
        Some((thing, thing2))
    } else {
        None
    }
}

} // verus!
