//! Turn engine for a hidden-information board game: players move around a
//! shuffled six-location board, attack players in their location group, and
//! trigger per-location effects.  All state changes go through a closed set of
//! mutations, and every decision the engine needs from a player is expressed
//! as an explicit request the surrounding transport answers with an index.

use vstd::prelude::*;

pub mod character;
pub mod dice;
pub mod engine;
pub mod location;
pub mod messages;
pub mod state;

verus! {

/// Whether `v` holds `x`.
pub fn contains_num(v: &Vec<usize>, x: usize) -> (r: bool)
    ensures
        r == v@.contains(x),
{
    let mut i: usize = 0;
    while i < v.len()
        invariant
            i <= v@.len(),
            forall|j: int| 0 <= j < i ==> v@[j] != x,
        decreases v@.len() - i,
    {
        if v[i] == x {
            return true;
        }
        i = i + 1;
    }
    false
}

/// Opaque handle of one player; an index into the state's player list.
#[derive(Debug, Clone, Copy, PartialEq, Eq, Structural)]
pub struct PlayerId(pub usize);

impl PlayerId {
    pub fn new(id: usize) -> (r: Self)
        ensures
            r.0 == id,
    {
        PlayerId(id)
    }
}

} // verus!
