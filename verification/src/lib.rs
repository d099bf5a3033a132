//! Mirror256: a keyless digest built from a layered network of
//! reversible three-wire logic gates (Toffoli and Fredkin), whose round
//! keys come either from a fixed table of prime cubic roots or from a
//! seeded pseudorandom draw.

pub mod codec;
pub mod gates;
pub mod hasher;
pub mod laws;
pub mod schedule;

pub use hasher::Mirror256;

use vstd::prelude::*;
use vstd::string::StringSliceAdditionalSpecFns;

use crate::hasher::{depth_or_default, size_or_default, spec_init, spec_update, wf};

verus! {

/// Build a hasher over the optional initial message, with the default
/// depth, the default state width and the standard key schedule.
pub fn new(m: Option<&str>) -> (r: Mirror256)
    ensures
        wf(r@),
        r@ == match m {
            Some(t) => spec_update(
                spec_init(depth_or_default(None), size_or_default(None), true),
                t.spec_bytes(),
            ),
            None => spec_init(depth_or_default(None), size_or_default(None), true),
        },
{
    Mirror256::new(m, None, None, true)
}

} // verus!
