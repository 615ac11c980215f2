//! Identities of crofts and plots: kept on disk once made, made at random
//! the first time.

use vstd::prelude::*;
use crate::text::{parse_u64, parsed_u64, trim, trim_str};

verus! {

/// A random 64-bit number, from the thread-local generator of `rand`.
/// Nothing is claimed of which number comes back.
#[verifier::external_body]
fn random_u64() -> (r: u64) {
    rand::random::<u64>()
}

/// The largest id: identities keep their top bit clear.
pub open spec fn max_id() -> u64 {
    0x7FFF_FFFF_FFFF_FFFFu64
}

/// The identity read back from what was stored, if it reads as a number
/// once trimmed.
pub open spec fn stored_id(stored: Option<Seq<char>>) -> Option<u64> {
    match stored {
        Some(s) => parsed_u64(trim(s)),
        None => None,
    }
}

/// Text as plain values, when there is some.
pub open spec fn stored_view(stored: Option<&str>) -> Option<Seq<char>> {
    match stored {
        Some(s) => Some(s@),
        None => None,
    }
}

/// The identity made from a random draw: the draw with its top bit
/// cleared.
pub open spec fn masked_id(draw: u64) -> u64 {
    draw & 0x7FFF_FFFF_FFFF_FFFFu64
}

/// The identity made from the random number `draw`: `draw` with its top
/// bit cleared, so it is at most `max_id()`.
pub fn new_id_from(draw: u64) -> (id: u64)
    ensures
        id == masked_id(draw),
        id == draw & 0x7FFF_FFFF_FFFF_FFFFu64,
        id <= max_id(),
{
    assert(draw & 0x7FFF_FFFF_FFFF_FFFFu64 <= 0x7FFF_FFFF_FFFF_FFFFu64) by (bit_vector);
    draw & 0x7FFF_FFFF_FFFF_FFFFu64
}

/// The identity to use given what the id file held (`None` when there is
/// no such file): the stored number when it reads as one; else a new
/// random identity with its top bit clear, which the second component
/// says must be written back.
pub fn provide_id(stored: Option<&str>) -> (r: (u64, bool))
    ensures
        match stored_id(stored_view(stored)) {
            Some(id) => r == (id, false),
            None => r.1 && r.0 <= max_id() && exists|draw: u64| r.0 == masked_id(draw),
        },
{
    if let Some(s) = stored {
        let t = trim_str(s);
        if let Some(id) = parse_u64(t.as_str()) {
            return (id, false);
        }
    }
    let draw = random_u64();
    let id = new_id_from(draw);
    (id, true)
}

} // verus!
