//! The fixed character catalog.  A character has a name and a hit-point
//! maximum; at game start each player is secretly assigned one, drawn at
//! random without replacement.

use vstd::prelude::*;
use rand::seq::IteratorRandom;

verus! {

/// Opaque handle of one catalog character.
#[derive(Debug, Clone, Copy, PartialEq, Eq, Structural)]
pub struct CharacterId(pub usize);

/// How many characters the catalog holds.
pub const CHARACTER_COUNT: usize = 5;

/// One catalog entry.
#[derive(Debug)]
pub struct Character {
    pub id: CharacterId,
    pub name: &'static str,
    pub hit_points: usize,
}

impl Character {
    /// The damage at which this character dies.
    pub fn hit_points(&self) -> (r: usize)
        ensures
            r == self.hit_points,
    {
        self.hit_points
    }
}

/// The hit-point maximum of each catalog character.
pub open spec fn hit_points_of(c: CharacterId) -> usize {
    if c.0 == 0 {
        14
    } else if c.0 == 1 {
        11
    } else if c.0 == 2 {
        8
    } else if c.0 == 3 {
        13
    } else {
        14
    }
}

/// Relies on rand::seq::IteratorRandom::choose_multiple over `0..n`, with the
/// thread-local generator: it collects `k` values of the iterator without
/// repetition, so the indices returned are distinct and all below `n`.
#[verifier::external_body]
fn sample_indices(n: usize, k: usize) -> (r: Vec<usize>)
    requires
        k <= n,
    ensures
        r@.len() == k,
        forall|i: int| 0 <= i < r@.len() ==> r@[i] < n,
        forall|i: int, j: int| 0 <= i < j < r@.len() ==> r@[i] != r@[j],
{
    (0..n).choose_multiple(&mut rand::thread_rng(), k)
}

/// The character catalog.
#[derive(Debug)]
pub struct Characters;

impl Characters {
    /// The catalog entry behind `id`.
    pub fn from_id(id: CharacterId) -> (r: Character)
        requires
            id.0 < CHARACTER_COUNT,
        ensures
            r.id == id,
            r.hit_points == hit_points_of(id),
    {
        let name: &'static str = if id.0 == 0 {
            "Gregor"
        } else if id.0 == 1 {
            "Metamorphe"
        } else if id.0 == 2 {
            "Allie"
        } else if id.0 == 3 {
            "Bob"
        } else {
            "Liche"
        };
        let hit_points: usize = if id.0 == 0 {
            14
        } else if id.0 == 1 {
            11
        } else if id.0 == 2 {
            8
        } else if id.0 == 3 {
            13
        } else {
            14
        };
        Character { id, name, hit_points }
    }

    /// Draws `player_count` distinct characters uniformly from the catalog,
    /// in assignment order.
    pub fn generate(player_count: usize) -> (r: Vec<CharacterId>)
        requires
            player_count <= CHARACTER_COUNT,
        ensures
            r@.len() == player_count,
            forall|i: int| 0 <= i < r@.len() ==> (#[trigger] r@[i]).0 < CHARACTER_COUNT,
            forall|i: int, j: int| 0 <= i < j < r@.len() ==> r@[i] != r@[j],
    {
        let idxs = sample_indices(CHARACTER_COUNT, player_count);
        let mut r: Vec<CharacterId> = Vec::new();
        let mut i: usize = 0;
        while i < idxs.len()
            invariant
                i <= idxs@.len(),
                idxs@.len() == player_count,
                forall|a: int| 0 <= a < idxs@.len() ==> idxs@[a] < CHARACTER_COUNT,
                forall|a: int, b: int| 0 <= a < b < idxs@.len() ==> idxs@[a] != idxs@[b],
                r@.len() == i,
                forall|a: int| 0 <= a < i ==> (#[trigger] r@[a]).0 == idxs@[a],
            decreases idxs@.len() - i,
        {
            r.push(CharacterId(idxs[i]));
            i = i + 1;
        }
        r
    }
}

} // verus!
