//! The authoritative game state: every player's damage, location, revealed
//! flag and secretly assigned character, the current-player pointer, and the
//! board.  The only way to change it is `State::mutate` with one of the five
//! mutation variants; `apply_mutation` is the mathematical meaning of each
//! variant, and every contract in the engine speaks in terms of it.

use vstd::prelude::*;
use crate::PlayerId;
use crate::character::{hit_points_of, Character, Characters, CharacterId, CHARACTER_COUNT};
use crate::dice::Dice;
use crate::location::{covered_sum, Locations, LocationId, LOCATION_COUNT};

verus! {

/// One player's stored attributes.
#[derive(Debug, Clone, Copy)]
pub struct Player {
    pub id: PlayerId,
    pub damage: usize,
    pub location: LocationId,
    pub revealed: bool,
    pub character: Option<CharacterId>,
}

impl Player {
    /// The assigned character, if any, is a catalog character.
    pub open spec fn char_valid(self) -> bool {
        self.character matches Some(c) ==> c.0 < CHARACTER_COUNT
    }

    /// Alive means damage strictly below the character's hit-point maximum;
    /// a player without an assigned character counts as alive.
    pub open spec fn alive_spec(self) -> bool {
        match self.character {
            Some(c) => self.damage < hit_points_of(c),
            None => true,
        }
    }

    pub fn id(&self) -> (r: PlayerId)
        ensures
            r == self.id,
    {
        self.id
    }

    pub fn damage(&self) -> (r: usize)
        ensures
            r == self.damage,
    {
        self.damage
    }

    pub fn location(&self) -> (r: LocationId)
        ensures
            r == self.location,
    {
        self.location
    }

    pub fn revealed(&self) -> (r: bool)
        ensures
            r == self.revealed,
    {
        self.revealed
    }

    pub fn character(&self) -> (r: Option<CharacterId>)
        ensures
            r == self.character,
    {
        self.character
    }

    /// Whether this player is still alive: their damage has not reached
    /// their character's hit-point maximum.
    pub fn is_alive(&self) -> (r: bool)
        requires
            self.char_valid(),
        ensures
            r == self.alive_spec(),
            self.character matches Some(c) ==> (r <==> self.damage < hit_points_of(c)),
    {
        match self.character {
            Some(c) => {
                let character: Character = Characters::from_id(c);
                self.damage < character.hit_points
            },
            None => true,
        }
    }
}

/// The closed set of state changes.  Nothing else may alter a `State`.
#[derive(Debug, Clone, Copy)]
pub enum Mutation {
    Move(PlayerId, LocationId),
    ChangeCurrentPlayer(PlayerId),
    DamagePlayer(PlayerId, usize),
    HealPlayer(PlayerId, usize),
    RevealPlayer(PlayerId, CharacterId),
}

/// Damage after taking `amount` more: added, saturating at the machine limit.
pub open spec fn damage_after(damage: usize, amount: usize) -> usize {
    if damage + amount <= usize::MAX {
        (damage + amount) as usize
    } else {
        usize::MAX
    }
}

/// Damage after healing by `amount`: subtracted, saturating at zero.
pub open spec fn heal_after(damage: usize, amount: usize) -> usize {
    if amount <= damage {
        (damage - amount) as usize
    } else {
        0
    }
}

/// Whether `m` may be applied to players `ps`: its ids are in range, and a
/// reveal never contradicts an already assigned character.
pub open spec fn mutation_ok(ps: Seq<Player>, m: Mutation) -> bool {
    match m {
        Mutation::Move(p, l) => p.0 < ps.len() && l.0 < LOCATION_COUNT,
        Mutation::ChangeCurrentPlayer(p) => p.0 < ps.len(),
        Mutation::DamagePlayer(p, _) => p.0 < ps.len(),
        Mutation::HealPlayer(p, _) => p.0 < ps.len(),
        Mutation::RevealPlayer(p, c) => p.0 < ps.len() && c.0 < CHARACTER_COUNT && (ps[p.0
            as int].character matches Some(c0) ==> c0 == c),
    }
}

/// What `m` does to the player list.
pub open spec fn apply_mutation(ps: Seq<Player>, m: Mutation) -> Seq<Player> {
    match m {
        Mutation::Move(p, l) => ps.update(
            p.0 as int,
            Player { location: l, ..ps[p.0 as int] },
        ),
        Mutation::ChangeCurrentPlayer(_) => ps,
        Mutation::DamagePlayer(p, a) => ps.update(
            p.0 as int,
            Player { damage: damage_after(ps[p.0 as int].damage, a), ..ps[p.0 as int] },
        ),
        Mutation::HealPlayer(p, a) => ps.update(
            p.0 as int,
            Player { damage: heal_after(ps[p.0 as int].damage, a), ..ps[p.0 as int] },
        ),
        Mutation::RevealPlayer(p, c) => ps.update(
            p.0 as int,
            Player { revealed: true, character: Some(c), ..ps[p.0 as int] },
        ),
    }
}

/// What `m` does to the current-player pointer.
pub open spec fn apply_mutation_current(cur: PlayerId, m: Mutation) -> PlayerId {
    match m {
        Mutation::ChangeCurrentPlayer(p) => p,
        _ => cur,
    }
}

/// No mutation ever drives a player's damage negative: damage is a
/// non-negative accumulator, and a heal removes exactly the lesser of the
/// amount and the damage present, saturating at zero.
pub proof fn lemma_mutation_damage(ps: Seq<Player>, m: Mutation, i: int)
    requires
        mutation_ok(ps, m),
        0 <= i < ps.len(),
    ensures
        apply_mutation(ps, m).len() == ps.len(),
        apply_mutation(ps, m)[i].damage >= 0,
        m matches Mutation::HealPlayer(p, a) ==> (p.0 == i ==> apply_mutation(ps, m)[i].damage
            == (if a <= ps[i].damage {
            (ps[i].damage - a) as int
        } else {
            0
        })),
{
}

/// Revealing a player twice with the same character is the same as revealing
/// them once: the player stays revealed, with that character.  Revealing a
/// different character afterwards is an invariant violation: no valid
/// mutation can do it.
pub proof fn lemma_reveal_idempotent(ps: Seq<Player>, p: PlayerId, c: CharacterId)
    requires
        mutation_ok(ps, Mutation::RevealPlayer(p, c)),
    ensures
        mutation_ok(apply_mutation(ps, Mutation::RevealPlayer(p, c)), Mutation::RevealPlayer(p, c)),
        apply_mutation(
            apply_mutation(ps, Mutation::RevealPlayer(p, c)),
            Mutation::RevealPlayer(p, c),
        ) == apply_mutation(ps, Mutation::RevealPlayer(p, c)),
        forall|c2: CharacterId|
            c2 != c ==> !mutation_ok(
                apply_mutation(ps, Mutation::RevealPlayer(p, c)),
                Mutation::RevealPlayer(p, c2),
            ),
{
    let once = apply_mutation(ps, Mutation::RevealPlayer(p, c));
    let twice = apply_mutation(once, Mutation::RevealPlayer(p, c));
    assert(twice =~= once);
}

/// One player as a given viewer may see them: the character is masked to
/// `None` unless the player is the viewer or has been revealed.
pub open spec fn mask_player(p: Player, viewer: PlayerId) -> Player {
    if p.id == viewer || p.revealed {
        p
    } else {
        Player { character: None, ..p }
    }
}

/// The authoritative snapshot of one running game.
#[derive(Debug)]
pub struct State {
    pub players: Vec<Player>,
    pub current_player: PlayerId,
    pub locations: Locations,
}

impl State {
    pub open spec fn wf(self) -> bool {
        &&& self.players@.len() > 0
        &&& self.current_player.0 < self.players@.len()
        &&& self.locations.wf()
        &&& forall|i: int|
            0 <= i < self.players@.len() ==> (#[trigger] self.players@[i]).id.0 == i
        &&& forall|i: int|
            0 <= i < self.players@.len() ==> (#[trigger] self.players@[i]).location.0
                < LOCATION_COUNT
        &&& forall|i: int|
            0 <= i < self.players@.len() ==> (#[trigger] self.players@[i]).char_valid()
    }

    /// A state assembled from explicit parts; lets a caller or a test build
    /// a known game position.
    pub fn new(players: Vec<Player>, locations: Locations, first_player: PlayerId) -> (r: State)
        requires
            players@.len() > 0,
            first_player.0 < players@.len(),
            locations.wf(),
            forall|i: int| 0 <= i < players@.len() ==> (#[trigger] players@[i]).id.0 == i,
            forall|i: int|
                0 <= i < players@.len() ==> (#[trigger] players@[i]).location.0 < LOCATION_COUNT,
            forall|i: int| 0 <= i < players@.len() ==> (#[trigger] players@[i]).char_valid(),
        ensures
            r.wf(),
            r.players@ == players@,
            r.current_player == first_player,
            r.locations == locations,
    {
        State { players, current_player: first_player, locations }
    }

    /// A fresh game: every player undamaged and unrevealed, placed by dice
    /// rolls that reroll the free-choice sum 7, holding a character drawn
    /// from the catalog without replacement; player 0 starts.
    pub fn generate(player_count: usize, dice: &mut Dice) -> (r: State)
        requires
            old(dice).wf(),
            1 <= player_count <= CHARACTER_COUNT,
        ensures
            final(dice).wf(),
            r.wf(),
            r.players@.len() == player_count,
            r.current_player.0 == 0,
            forall|i: int|
                0 <= i < player_count ==> (#[trigger] r.players@[i]).damage == 0
                    && !r.players@[i].revealed && r.players@[i].character is Some,
            forall|i: int, j: int|
                0 <= i < j < player_count ==> r.players@[i].character != r.players@[j].character,
    {
        let locations = Locations::generate();
        let characters = Characters::generate(player_count);
        let mut seven: Vec<usize> = Vec::new();
        seven.push(7);
        let mut players: Vec<Player> = Vec::new();
        let mut id: usize = 0;
        while id < player_count
            invariant
                dice.wf(),
                id <= player_count,
                player_count <= CHARACTER_COUNT,
                locations.wf(),
                seven@ =~= seq![7usize],
                characters@.len() == player_count,
                forall|a: int|
                    0 <= a < characters@.len() ==> (#[trigger] characters@[a]).0
                        < CHARACTER_COUNT,
                forall|a: int, b: int|
                    0 <= a < b < characters@.len() ==> characters@[a] != characters@[b],
                players@.len() == id,
                forall|a: int|
                    0 <= a < id ==> (#[trigger] players@[a]).id.0 == a && players@[a].damage == 0
                        && !players@[a].revealed && players@[a].character == Some(characters@[a])
                        && players@[a].location.0 < LOCATION_COUNT,
            decreases player_count - id,
        {
            proof {
                assert(seven@[0] == 7usize);
                assert(2 <= 2usize <= 10 && !seven@.contains(2usize)) by {
                    assert(forall|j: int| 0 <= j < seven@.len() ==> seven@[j] == 7usize);
                }
            }
            let roll = dice.roll_avoiding(&seven);
            let sum = roll.sum();
            proof {
                assert(covered_sum(sum)) by {
                    if sum == 7 {
                        assert(seven@[0] == sum);
                    }
                }
            }
            let location = locations.from_dice_number(sum).id;
            players.push(
                Player {
                    id: PlayerId(id),
                    damage: 0,
                    location,
                    revealed: false,
                    character: Some(characters[id]),
                },
            );
            id = id + 1;
        }
        State { players, current_player: PlayerId(0), locations }
    }

    /// The state as `player_id`'s session may see it: every other unrevealed
    /// player's character is masked to unknown; the viewer's own character
    /// and every revealed character stay visible.
    pub fn prepare_for_player(&self, player_id: PlayerId) -> (r: State)
        requires
            self.wf(),
        ensures
            r.wf(),
            r.players@.len() == self.players@.len(),
            forall|i: int|
                0 <= i < self.players@.len() ==> r.players@[i] == mask_player(
                    self.players@[i],
                    player_id,
                ),
            r.current_player == self.current_player,
            r.locations.layout@ == self.locations.layout@,
    {
        let mut players: Vec<Player> = Vec::new();
        let mut i: usize = 0;
        while i < self.players.len()
            invariant
                self.wf(),
                i <= self.players@.len(),
                players@.len() == i,
                forall|a: int|
                    0 <= a < i ==> players@[a] == mask_player(self.players@[a], player_id),
            decreases self.players@.len() - i,
        {
            let p = self.players[i];
            if p.id == player_id || p.revealed {
                players.push(p);
            } else {
                players.push(Player { character: None, ..p });
            }
            i = i + 1;
        }
        let mut layout: Vec<LocationId> = Vec::new();
        let mut j: usize = 0;
        while j < self.locations.layout.len()
            invariant
                j <= self.locations.layout@.len(),
                layout@ =~= self.locations.layout@.take(j as int),
            decreases self.locations.layout@.len() - j,
        {
            layout.push(self.locations.layout[j]);
            j = j + 1;
        }
        proof {
            assert(layout@ =~= self.locations.layout@);
        }
        State { players, current_player: self.current_player, locations: Locations { layout } }
    }

    /// The player whose turn it is.
    pub fn current_player(&self) -> (r: &Player)
        requires
            self.wf(),
        ensures
            *r == self.players@[self.current_player.0 as int],
    {
        &self.players[self.current_player.0]
    }

    pub fn players(&self) -> (r: &Vec<Player>)
        ensures
            r@ == self.players@,
    {
        &self.players
    }

    pub fn locations(&self) -> (r: &Locations)
        ensures
            *r == self.locations,
    {
        &self.locations
    }

    /// Applies one mutation.  Damage adds saturating at the machine limit,
    /// healing subtracts saturating at zero, and a reveal marks the player
    /// revealed and pins their character; the caller must not reveal a
    /// conflicting character for an already assigned player.
    pub fn mutate(&mut self, mutation: Mutation)
        requires
            old(self).wf(),
            mutation_ok(old(self).players@, mutation),
        ensures
            final(self).wf(),
            final(self).players@ == apply_mutation(old(self).players@, mutation),
            final(self).current_player == apply_mutation_current(
                old(self).current_player,
                mutation,
            ),
            final(self).locations == old(self).locations,
    {
        match mutation {
            Mutation::Move(player_id, location_id) => {
                self.players[player_id.0].location = location_id;
            },
            Mutation::ChangeCurrentPlayer(player_id) => {
                self.current_player = player_id;
            },
            Mutation::DamagePlayer(player_id, damage) => {
                let old_damage = self.players[player_id.0].damage;
                self.players[player_id.0].damage = if old_damage <= usize::MAX - damage {
                    old_damage + damage
                } else {
                    usize::MAX
                };
            },
            Mutation::HealPlayer(player_id, hp) => {
                let old_damage = self.players[player_id.0].damage;
                self.players[player_id.0].damage = if hp <= old_damage {
                    old_damage - hp
                } else {
                    0
                };
            },
            Mutation::RevealPlayer(player_id, character_id) => {
                self.players[player_id.0].revealed = true;
                self.players[player_id.0].character = Some(character_id);
            },
        }
    }

    /// The next player to take a turn: scanning cyclically from just after
    /// `cur`, the first player other than `cur` who is still alive.
    pub open spec fn next_alive_rec(ps: Seq<Player>, cur: int, k: int) -> Option<PlayerId>
        decreases ps.len() - k,
    {
        if k < 1 || k >= ps.len() {
            None
        } else if ps[(cur + k) % (ps.len() as int)].alive_spec() {
            Some(PlayerId(((cur + k) % (ps.len() as int)) as usize))
        } else {
            Self::next_alive_rec(ps, cur, k + 1)
        }
    }

    pub open spec fn next_alive_spec(ps: Seq<Player>, cur: int) -> Option<PlayerId> {
        Self::next_alive_rec(ps, cur, 1)
    }

    /// The player the turn passes to, or `None` when no other player is
    /// alive — the unrecoverable end of the game.
    pub fn next_alive_player(&self) -> (r: Option<PlayerId>)
        requires
            self.wf(),
        ensures
            r == Self::next_alive_spec(self.players@, self.current_player.0 as int),
            r matches Some(p) ==> p.0 < self.players@.len() && self.players@[p.0
                as int].alive_spec() && p != self.current_player,
    {
        let len = self.players.len();
        let cur = self.current_player.0;
        let ghost ps = self.players@;
        let mut k: usize = 1;
        while k < len
            invariant
                self.wf(),
                ps == self.players@,
                len == ps.len(),
                cur == self.current_player.0,
                1 <= k <= len,
                Self::next_alive_spec(ps, cur as int) == Self::next_alive_rec(
                    ps,
                    cur as int,
                    k as int,
                ),
            decreases len - k,
        {
            let idx = if k < len - cur {
                cur + k
            } else {
                k - (len - cur)
            };
            proof {
                if k < len - cur {
                    vstd::arithmetic::div_mod::lemma_fundamental_div_mod_converse_mod(
                        cur + k,
                        len as int,
                        0,
                        idx as int,
                    );
                } else {
                    vstd::arithmetic::div_mod::lemma_fundamental_div_mod_converse_mod(
                        cur + k,
                        len as int,
                        1,
                        idx as int,
                    );
                }
                assert(idx as int == (cur + k) % (ps.len() as int));
            }
            if self.players[idx].is_alive() {
                return Some(PlayerId(idx));
            }
            k = k + 1;
        }
        None
    }
}

} // verus!
