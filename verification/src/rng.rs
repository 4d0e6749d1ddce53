use vstd::prelude::*;

use rand::Rng;

verus! {

/// Relies on rand::thread_rng and rand::Rng::gen_range: sampling the
/// half-open range 0..7 returns a value inside it. Nothing more is
/// assumed of the draw.
#[verifier::external_body]
pub(crate) fn random_piece_index() -> (r: u8)
    ensures
        r < 7,
{
    rand::thread_rng().gen_range(0..7u8)
}

} // verus!
