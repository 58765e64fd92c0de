//! Turn synchronization for a two-player Battleship game whose state lives on
//! a ledger and whose moves are attested by proofs: the board model, the
//! ledger's sequencing guard, the client engine as a transition function, and
//! random ship placement.

use vstd::prelude::*;

pub mod engine;
pub mod laws;
pub mod ledger;
pub mod model;
pub mod placement;

verus! {

} // verus!
