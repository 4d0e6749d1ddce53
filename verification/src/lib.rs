use vstd::prelude::*;

pub mod board;
pub mod piece;
mod rng;

verus! {

/// Outcome of one gravity step: either the game goes on, or a freshly
/// spawned piece could not be placed and the game is over.
#[derive(Clone, Copy, Debug, PartialEq, Eq)]
pub enum TickResult {
    GameOver,
    Continue,
}

} // verus!
