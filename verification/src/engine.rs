//! The turn engine: a state machine that cycles through movement, attack and
//! advance-turn for the current player.  The engine suspends whenever it
//! needs a decision from a player; `pending_request` names the one
//! outstanding request, and `step` consumes the player's answer, applies and
//! emits the resulting mutations and notifications, and moves to the next
//! request.  Every state change appears in the emitted command list, in
//! application order, so a session replaying the commands mirrors the
//! authoritative state exactly.

use vstd::prelude::*;
use crate::PlayerId;
use crate::character::CHARACTER_COUNT;
use crate::dice::{Dice, Roll};
use crate::location::{
    catalog_numbers, covering_index, same_group, LocationId, LOCATION_COUNT,
};
use crate::messages::{Action, Command, Dices, InfoMessage};
use crate::state::{
    apply_mutation, apply_mutation_current, mutation_ok, Mutation, Player, State,
};

verus! {

/// The layout slot pair holding the Weird Woods, the one location with a
/// landing effect (an area damage-or-heal choice).
pub open spec fn location_has_effect(id: LocationId) -> bool {
    id.0 == 4
}

/// Exec mirror of `location_has_effect`.
fn has_effect(id: LocationId) -> (r: bool)
    ensures
        r == location_has_effect(id),
{
    id.0 == 4
}

/// Every player id of an `n`-player game, in order; the destination list of
/// a broadcast.
pub open spec fn all_player_ids(n: int) -> Seq<PlayerId> {
    Seq::new(n as nat, |i: int| PlayerId(i as usize))
}

/// The movement choices offered on a free-choice roll: every location id
/// except `c`, ascending.
pub open spec fn move_choice_ids(c: int) -> Seq<LocationId> {
    Seq::new(6, |j: int| LocationId(j as usize)).remove(c)
}

/// The players the current player (at index `cur`) may attack: every other
/// player standing in the current player's location group, in player order.
pub open spec fn candidates_from(
    ps: Seq<Player>,
    layout: Seq<LocationId>,
    cur: int,
    i: int,
) -> Seq<PlayerId>
    decreases ps.len() - i,
{
    if i < 0 || i >= ps.len() {
        Seq::empty()
    } else {
        let rest = candidates_from(ps, layout, cur, i + 1);
        if i != cur && same_group(layout, ps[i].location, ps[cur].location) {
            seq![ps[i].id] + rest
        } else {
            rest
        }
    }
}

pub open spec fn attack_candidates_spec(
    ps: Seq<Player>,
    layout: Seq<LocationId>,
    cur: int,
) -> Seq<PlayerId> {
    candidates_from(ps, layout, cur, 0)
}

/// The choices a landing effect offers: damage any player by 2, or heal any
/// player by 1.
pub open spec fn effect_choices_spec(ps: Seq<Player>) -> Seq<Mutation> {
    Seq::new(ps.len(), |i: int| Mutation::DamagePlayer(ps[i].id, 2usize)) + Seq::new(
        ps.len(),
        |i: int| Mutation::HealPlayer(ps[i].id, 1usize),
    )
}

/// The descriptor shown to the player for one effect choice.
pub open spec fn effect_action(m: Mutation) -> Action {
    match m {
        Mutation::DamagePlayer(p, a) => Action::DamagePlayer(p, Some(a)),
        Mutation::HealPlayer(p, a) => Action::HealPlayer(p, Some(a)),
        _ => Action::Skip,
    }
}

/// The mutations a command list carries, in emission order; the replayable
/// log a session mirrors the state from.
pub open spec fn muts_of(cmds: Seq<Command>) -> Seq<Mutation>
    decreases cmds.len(),
{
    if cmds.len() == 0 {
        Seq::empty()
    } else {
        let rest = muts_of(cmds.drop_first());
        match cmds[0] {
            Command::StateMutation(m) => seq![m] + rest,
            _ => rest,
        }
    }
}

/// The players after replaying `ms` in order.
pub open spec fn apply_mutations(ps: Seq<Player>, ms: Seq<Mutation>) -> Seq<Player>
    decreases ms.len(),
{
    if ms.len() == 0 {
        ps
    } else {
        apply_mutations(apply_mutation(ps, ms[0]), ms.drop_first())
    }
}

/// The current-player pointer after replaying `ms` in order.
pub open spec fn apply_mutations_current(cur: PlayerId, ms: Seq<Mutation>) -> PlayerId
    decreases ms.len(),
{
    if ms.len() == 0 {
        cur
    } else {
        apply_mutations_current(apply_mutation_current(cur, ms[0]), ms.drop_first())
    }
}

/// Where the engine stands: which decision it is waiting for.  The phase is
/// the one outstanding request — the engine never has two.
#[derive(Debug, Clone, Copy, PartialEq, Eq, Structural)]
pub enum Phase {
    /// Movement: waiting for the current player to acknowledge the dice
    /// roll.
    MoveAck,
    /// Movement: a 7 was rolled; waiting for the free relocation choice.
    MoveChoice,
    /// Waiting for the landed player's area damage-or-heal choice.
    EffectChoice,
    /// Attack: waiting for the choice of a target, or skip.
    AttackChoice,
    /// Attack: waiting for the dice-roll acknowledgment before damaging
    /// `target`.
    AttackRollAck { target: PlayerId },
    /// No player other than the current one is alive; the engine stopped.
    Halted,
}

/// The turn engine.
#[derive(Debug)]
pub struct GameLogic {
    pub state: State,
    pub dice: Dice,
    pub phase: Phase,
}

/// The descriptors of the outstanding request.
pub open spec fn pending_actions(g: GameLogic) -> Seq<Action> {
    let ps = g.state.players@;
    let cur = g.state.current_player.0 as int;
    match g.phase {
        Phase::MoveAck => seq![Action::DiceRoll(Dices::Both)],
        Phase::MoveChoice => move_choice_ids(ps[cur].location.0 as int).map_values(
            |l: LocationId| Action::Location(l),
        ),
        Phase::EffectChoice => effect_choices_spec(ps).map_values(|m: Mutation| effect_action(m)),
        Phase::AttackChoice => attack_candidates_spec(
            ps,
            g.state.locations.layout@,
            cur,
        ).map_values(|p: PlayerId| Action::DamagePlayer(p, None)).push(Action::Skip),
        Phase::AttackRollAck { .. } => seq![Action::DiceRoll(Dices::Both)],
        Phase::Halted => Seq::empty(),
    }
}

/// How many choices the outstanding request offers.
pub open spec fn pending_count(g: GameLogic) -> int {
    pending_actions(g).len() as int
}

/// `c` is an informational broadcast of `msg` to all `n` players.
pub open spec fn is_info_to_all(c: Command, n: int, msg: InfoMessage) -> bool {
    c matches Command::Info { destination, payload } && destination@ == all_player_ids(n)
        && payload == msg
}

/// The phase entered after a move lands on `lid`: the location's effect if
/// it has one, else the attack offer.
pub open spec fn after_move_phase(lid: LocationId) -> Phase {
    if location_has_effect(lid) {
        Phase::EffectChoice
    } else {
        Phase::AttackChoice
    }
}

/// What advancing the turn does: the turn passes to the next alive player
/// and that change is emitted; when no other player is alive the engine
/// halts, emitting nothing.
pub open spec fn advance_post(
    ps: Seq<Player>,
    cur: PlayerId,
    post: GameLogic,
    extra: Seq<Command>,
) -> bool {
    match State::next_alive_spec(ps, cur.0 as int) {
        Some(p) => extra.len() == 1 && extra[0] == Command::StateMutation(
            Mutation::ChangeCurrentPlayer(p),
        ) && post.state.current_player == p && post.phase == Phase::MoveAck,
        None => extra.len() == 0 && post.state.current_player == cur && post.phase
            == Phase::Halted,
    }
}

/// The movement roll resolved: the roll is broadcast; a 7 suspends on the
/// free relocation choice, any other sum moves the player to the covering
/// location and enters that location's after-move phase.
pub open spec fn move_roll_post(
    pre: GameLogic,
    post: GameLogic,
    out: Seq<Command>,
    roll: Roll,
) -> bool {
    let n = pre.state.players@.len() as int;
    let cur = pre.state.current_player;
    let cur_loc = pre.state.players@[cur.0 as int].location;
    &&& roll.valid()
    &&& !catalog_numbers(cur_loc.0 as int).contains(roll.spec_sum())
    &&& out.len() >= 1
    &&& is_info_to_all(out[0], n, InfoMessage::Roll { from: cur, roll })
    &&& if roll.spec_sum() == 7 {
        &&& out.len() == 1
        &&& post.state.players@ == pre.state.players@
        &&& post.state.current_player == cur
        &&& post.phase == Phase::MoveChoice
    } else {
        let lid = LocationId(covering_index(roll.spec_sum()) as usize);
        &&& out.len() == 2
        &&& out[1] == Command::StateMutation(Mutation::Move(cur, lid))
        &&& post.state.players@ == apply_mutation(pre.state.players@, Mutation::Move(cur, lid))
        &&& post.state.current_player == cur
        &&& post.phase == after_move_phase(lid)
    }
}

/// The free relocation resolved: the chosen location is applied and
/// broadcast, and its after-move phase entered.
pub open spec fn move_choice_post(
    pre: GameLogic,
    post: GameLogic,
    out: Seq<Command>,
    answer: int,
) -> bool {
    let cur = pre.state.current_player;
    let cur_loc = pre.state.players@[cur.0 as int].location;
    let lid = move_choice_ids(cur_loc.0 as int)[answer];
    &&& out.len() == 1
    &&& out[0] == Command::StateMutation(Mutation::Move(cur, lid))
    &&& post.state.players@ == apply_mutation(pre.state.players@, Mutation::Move(cur, lid))
    &&& post.state.current_player == cur
    &&& post.phase == after_move_phase(lid)
}

/// The landing effect resolved: the chosen damage-or-heal mutation is
/// applied and broadcast, and the attack offer follows.
pub open spec fn effect_choice_post(
    pre: GameLogic,
    post: GameLogic,
    out: Seq<Command>,
    answer: int,
) -> bool {
    let cur = pre.state.current_player;
    let m = effect_choices_spec(pre.state.players@)[answer];
    &&& out.len() == 1
    &&& out[0] == Command::StateMutation(m)
    &&& post.state.players@ == apply_mutation(pre.state.players@, m)
    &&& post.state.current_player == cur
    &&& post.phase == Phase::AttackChoice
}

/// The attack offer resolved: choosing a candidate announces the attack and
/// suspends on the attacker's dice roll; choosing skip (the last entry)
/// announces it and advances the turn.
pub open spec fn attack_choice_post(
    pre: GameLogic,
    post: GameLogic,
    out: Seq<Command>,
    answer: int,
) -> bool {
    let n = pre.state.players@.len() as int;
    let cur = pre.state.current_player;
    let cands = attack_candidates_spec(
        pre.state.players@,
        pre.state.locations.layout@,
        cur.0 as int,
    );
    if answer < cands.len() {
        let target = cands[answer];
        &&& out.len() == 1
        &&& is_info_to_all(out[0], n, InfoMessage::PreparingAttack { from: cur, target })
        &&& post.state.players@ == pre.state.players@
        &&& post.state.current_player == cur
        &&& post.phase == (Phase::AttackRollAck { target })
    } else {
        &&& out.len() >= 1
        &&& is_info_to_all(out[0], n, InfoMessage::DidNotAttack { from: cur })
        &&& post.state.players@ == pre.state.players@
        &&& advance_post(pre.state.players@, cur, post, out.drop_first())
    }
}

/// The attack roll resolved: the roll is broadcast, the target takes the
/// dice difference as damage, and the turn advances over the damaged state.
pub open spec fn attack_roll_post(
    pre: GameLogic,
    post: GameLogic,
    out: Seq<Command>,
    roll: Roll,
    target: PlayerId,
) -> bool {
    let n = pre.state.players@.len() as int;
    let cur = pre.state.current_player;
    let dmg = Mutation::DamagePlayer(target, roll.spec_diff());
    let damaged = apply_mutation(pre.state.players@, dmg);
    &&& roll.valid()
    &&& out.len() >= 2
    &&& is_info_to_all(out[0], n, InfoMessage::Roll { from: cur, roll })
    &&& out[1] == Command::StateMutation(dmg)
    &&& post.state.players@ == damaged
    &&& advance_post(damaged, cur, post, out.skip(2))
}

impl GameLogic {
    pub open spec fn wf(self) -> bool {
        &&& self.state.wf()
        &&& self.dice.wf()
        &&& self.phase matches Phase::AttackRollAck { target } ==> target.0
            < self.state.players@.len()
    }

    /// A fresh engine over a newly generated game; the first request is the
    /// current player's movement roll.
    pub fn new(player_count: usize, dice: Dice) -> (r: GameLogic)
        requires
            dice.wf(),
            1 <= player_count <= CHARACTER_COUNT,
        ensures
            r.wf(),
            r.phase == Phase::MoveAck,
            r.state.players@.len() == player_count,
            r.state.current_player.0 == 0,
            forall|i: int|
                0 <= i < player_count ==> (#[trigger] r.state.players@[i]).damage == 0
                    && !r.state.players@[i].revealed && r.state.players@[i].character is Some,
            forall|i: int, j: int|
                0 <= i < j < player_count ==> r.state.players@[i].character
                    != r.state.players@[j].character,
    {
        let mut dice = dice;
        let state = State::generate(player_count, &mut dice);
        GameLogic { state, dice, phase: Phase::MoveAck }
    }

    /// An engine over an explicit state and dice; lets a caller or a test
    /// drive a known position.
    pub fn with_state(state: State, dice: Dice) -> (r: GameLogic)
        requires
            state.wf(),
            dice.wf(),
        ensures
            r.wf(),
            r.phase == Phase::MoveAck,
            r.state == state,
            r.dice == dice,
    {
        GameLogic { state, dice, phase: Phase::MoveAck }
    }

    /// The destination list naming every player.
    fn all_players(&self) -> (r: Vec<PlayerId>)
        ensures
            r@ == all_player_ids(self.state.players@.len() as int),
    {
        let mut r: Vec<PlayerId> = Vec::new();
        let mut i: usize = 0;
        let n = self.state.players.len();
        while i < n
            invariant
                i <= n,
                n == self.state.players@.len(),
                r@.len() == i,
                forall|a: int| 0 <= a < i ==> (#[trigger] r@[a]) == PlayerId(a as usize),
            decreases n - i,
        {
            r.push(PlayerId(i));
            i = i + 1;
        }
        proof {
            assert(r@ =~= all_player_ids(n as int));
        }
        r
    }

    /// The movement choices of a free-choice roll: every location except the
    /// current player's own.
    fn move_choices(&self) -> (r: Vec<LocationId>)
        requires
            self.wf(),
        ensures
            r@ == move_choice_ids(
                self.state.players@[self.state.current_player.0 as int].location.0 as int,
            ),
            r@.len() == 5,
            forall|a: int| 0 <= a < r@.len() ==> (#[trigger] r@[a]).0 < LOCATION_COUNT,
    {
        let c = self.state.players[self.state.current_player.0].location.0;
        let mut r: Vec<LocationId> = Vec::new();
        let mut j: usize = 0;
        while j < LOCATION_COUNT
            invariant
                j <= 6,
                c < 6,
                r@.len() == (if j <= c {
                    j as int
                } else {
                    j - 1
                }),
                forall|a: int|
                    0 <= a < r@.len() ==> (#[trigger] r@[a]) == LocationId(
                        (if a < c {
                            a
                        } else {
                            a + 1
                        }) as usize,
                    ),
            decreases 6 - j,
        {
            if j != c {
                r.push(LocationId(j));
            }
            j = j + 1;
        }
        proof {
            assert(r@ =~= move_choice_ids(c as int));
        }
        r
    }

    /// The attackable players: everyone sharing the current player's
    /// location group, except the current player.
    pub fn attack_candidates(&self) -> (r: Vec<PlayerId>)
        requires
            self.wf(),
        ensures
            r@ == attack_candidates_spec(
                self.state.players@,
                self.state.locations.layout@,
                self.state.current_player.0 as int,
            ),
            forall|k: int|
                0 <= k < r@.len() ==> (#[trigger] r@[k]).0 < self.state.players@.len(),
    {
        let ghost ps = self.state.players@;
        let ghost layout = self.state.locations.layout@;
        let cur = self.state.current_player.0;
        let cur_loc = self.state.players[cur].location;
        let group = self.state.locations.in_group_iter(cur_loc);
        let ghost g = crate::location::pos_of(layout, cur_loc) / 2;
        let mut r: Vec<PlayerId> = Vec::new();
        let mut i: usize = 0;
        let n = self.state.players.len();
        while i < n
            invariant
                self.wf(),
                ps == self.state.players@,
                layout == self.state.locations.layout@,
                n == ps.len(),
                cur == self.state.current_player.0,
                cur < n,
                cur_loc == ps[cur as int].location,
                g == crate::location::pos_of(layout, cur_loc) / 2,
                group@.len() == 2,
                group@[0].id == layout[2 * g],
                group@[1].id == layout[2 * g + 1],
                i <= n,
                forall|k: int| 0 <= k < r@.len() ==> (#[trigger] r@[k]).0 < n,
                r@ + candidates_from(ps, layout, cur as int, i as int) == attack_candidates_spec(
                    ps,
                    layout,
                    cur as int,
                ),
            decreases n - i,
        {
            let p = self.players_at(i);
            let attackable = i != cur && (p.location.0 == group[0].id.0 || p.location.0
                == group[1].id.0);
            proof {
                crate::location::lemma_same_group_slots(layout, ps[i as int].location, cur_loc);
                assert(p.location == LocationId(p.location.0));
                assert(group@[0].id == LocationId(group@[0].id.0));
                assert(group@[1].id == LocationId(group@[1].id.0));
                assert(attackable == (i != cur && same_group(
                    layout,
                    ps[i as int].location,
                    ps[cur as int].location,
                )));
            }
            if attackable {
                r.push(p.id);
            }
            proof {
                assert(candidates_from(ps, layout, cur as int, i as int) == (if i != cur
                    && same_group(layout, ps[i as int].location, ps[cur as int].location) {
                    seq![ps[i as int].id] + candidates_from(ps, layout, cur as int, i + 1)
                } else {
                    candidates_from(ps, layout, cur as int, i + 1)
                }));
                assert(r@ + candidates_from(ps, layout, cur as int, i + 1)
                    =~= attack_candidates_spec(ps, layout, cur as int));
            }
            i = i + 1;
        }
        proof {
            assert(candidates_from(ps, layout, cur as int, n as int) =~= Seq::<PlayerId>::empty());
            assert(r@ =~= attack_candidates_spec(ps, layout, cur as int));
        }
        r
    }

    /// One player by index.
    fn players_at(&self, i: usize) -> (r: Player)
        requires
            i < self.state.players@.len(),
        ensures
            r == self.state.players@[i as int],
    {
        self.state.players[i]
    }

    /// The landing-effect choices: damage any player by 2, or heal any
    /// player by 1.
    fn effect_choices(&self) -> (r: Vec<Mutation>)
        requires
            self.wf(),
        ensures
            r@ == effect_choices_spec(self.state.players@),
            forall|a: int| 0 <= a < r@.len() ==> mutation_ok(self.state.players@, #[trigger] r@[a]),
    {
        let ghost ps = self.state.players@;
        let n = self.state.players.len();
        let mut r: Vec<Mutation> = Vec::new();
        let mut i: usize = 0;
        while i < n
            invariant
                self.wf(),
                ps == self.state.players@,
                n == ps.len(),
                i <= n,
                r@.len() == i,
                forall|a: int|
                    0 <= a < i ==> (#[trigger] r@[a]) == Mutation::DamagePlayer(
                        ps[a].id,
                        2usize,
                    ),
            decreases n - i,
        {
            let p = self.players_at(i);
            r.push(Mutation::DamagePlayer(p.id, 2));
            i = i + 1;
        }
        let mut i: usize = 0;
        while i < n
            invariant
                self.wf(),
                ps == self.state.players@,
                n == ps.len(),
                i <= n,
                r@.len() == n + i,
                forall|a: int|
                    0 <= a < n ==> (#[trigger] r@[a]) == Mutation::DamagePlayer(ps[a].id, 2usize),
                forall|a: int|
                    n <= a < n + i ==> (#[trigger] r@[a]) == Mutation::HealPlayer(
                        ps[a - n].id,
                        1usize,
                    ),
            decreases n - i,
        {
            let p = self.players_at(i);
            r.push(Mutation::HealPlayer(p.id, 1));
            i = i + 1;
        }
        proof {
            assert(r@ =~= effect_choices_spec(ps));
        }
        r
    }

    /// The one outstanding request: which player must answer, and the
    /// choices they answer with an index into.  Only the descriptors cross
    /// to the session; the outcomes stay inside the engine.
    pub fn pending_request(&self) -> (r: Command)
        requires
            self.wf(),
            self.phase != Phase::Halted,
        ensures
            r matches Command::ActionRequest { player, choices } && player
                == self.state.current_player && choices@ == pending_actions(*self),
    {
        let player = self.state.current_player;
        match self.phase {
            Phase::MoveAck | Phase::AttackRollAck { .. } => {
                let mut choices: Vec<Action> = Vec::new();
                choices.push(Action::DiceRoll(Dices::Both));
                proof {
                    assert(choices@ =~= pending_actions(*self));
                }
                Command::ActionRequest { player, choices }
            },
            Phase::MoveChoice => {
                let ids = self.move_choices();
                let mut choices: Vec<Action> = Vec::new();
                let mut k: usize = 0;
                while k < ids.len()
                    invariant
                        k <= ids@.len(),
                        choices@.len() == k,
                        forall|a: int|
                            0 <= a < k ==> (#[trigger] choices@[a]) == Action::Location(ids@[a]),
                    decreases ids@.len() - k,
                {
                    choices.push(Action::Location(ids[k]));
                    k = k + 1;
                }
                proof {
                    assert(choices@ =~= pending_actions(*self));
                }
                Command::ActionRequest { player, choices }
            },
            Phase::EffectChoice => {
                let ms = self.effect_choices();
                let mut choices: Vec<Action> = Vec::new();
                let mut k: usize = 0;
                while k < ms.len()
                    invariant
                        k <= ms@.len(),
                        choices@.len() == k,
                        forall|a: int|
                            0 <= a < k ==> (#[trigger] choices@[a]) == effect_action(ms@[a]),
                    decreases ms@.len() - k,
                {
                    match ms[k] {
                        Mutation::DamagePlayer(p, a) => {
                            choices.push(Action::DamagePlayer(p, Some(a)));
                        },
                        Mutation::HealPlayer(p, a) => {
                            choices.push(Action::HealPlayer(p, Some(a)));
                        },
                        _ => {
                            choices.push(Action::Skip);
                        },
                    }
                    k = k + 1;
                }
                proof {
                    assert(choices@ =~= pending_actions(*self));
                }
                Command::ActionRequest { player, choices }
            },
            Phase::AttackChoice => {
                let cands = self.attack_candidates();
                let mut choices: Vec<Action> = Vec::new();
                let mut k: usize = 0;
                while k < cands.len()
                    invariant
                        k <= cands@.len(),
                        choices@.len() == k,
                        forall|a: int|
                            0 <= a < k ==> (#[trigger] choices@[a]) == Action::DamagePlayer(
                                cands@[a],
                                None,
                            ),
                    decreases cands@.len() - k,
                {
                    choices.push(Action::DamagePlayer(cands[k], None));
                    k = k + 1;
                }
                choices.push(Action::Skip);
                proof {
                    assert(choices@ =~= pending_actions(*self));
                }
                Command::ActionRequest { player, choices }
            },
            Phase::Halted => {
                proof {
                    assert(false);
                }
                unreached()
            },
        }
    }

    /// Hands the turn to the next alive player, emitting the change; halts
    /// the engine when no other player is alive.
    fn advance_turn(&mut self) -> (extra: Vec<Command>)
        requires
            old(self).wf(),
        ensures
            final(self).wf(),
            final(self).state.players@ == old(self).state.players@,
            final(self).state.locations == old(self).state.locations,
            final(self).dice == old(self).dice,
            advance_post(
                old(self).state.players@,
                old(self).state.current_player,
                *final(self),
                extra@,
            ),
    {
        let next = self.state.next_alive_player();
        match next {
            Some(p) => {
                self.state.mutate(Mutation::ChangeCurrentPlayer(p));
                self.phase = Phase::MoveAck;
                let mut extra: Vec<Command> = Vec::new();
                extra.push(Command::StateMutation(Mutation::ChangeCurrentPlayer(p)));
                extra
            },
            None => {
                self.phase = Phase::Halted;
                Vec::new()
            },
        }
    }

    /// Movement: the acknowledged dice roll.  Rolls until the sum leaves the
    /// current location, broadcasts the roll, and either offers the free
    /// relocation (on 7) or applies and broadcasts the move and enters the
    /// landed location's after-move phase.
    fn step_move_ack(&mut self) -> (out: Vec<Command>)
        requires
            old(self).wf(),
            old(self).phase == Phase::MoveAck,
        ensures
            final(self).wf(),
            final(self).state.locations == old(self).state.locations,
            final(self).state.players@.len() == old(self).state.players@.len(),
            final(self).state.players@ == apply_mutations(old(self).state.players@, muts_of(out@)),
            final(self).state.current_player == apply_mutations_current(
                old(self).state.current_player,
                muts_of(out@),
            ),
            exists|roll: Roll| #[trigger] move_roll_post(*old(self), *final(self), out@, roll),
    {
        let ghost pre = *self;
        let cur = self.state.current_player;
        let cur_loc = self.state.players[cur.0].location;
        let loc = self.state.locations.from_id(cur_loc);
        proof {
            if cur_loc.0 == 0 {
                assert(2 <= 4usize <= 10 && !loc.dice_numbers@.contains(4usize)) by {
                    assert(forall|j: int|
                        0 <= j < loc.dice_numbers@.len() ==> loc.dice_numbers@[j] != 4usize);
                }
            } else {
                assert(2 <= 2usize <= 10 && !loc.dice_numbers@.contains(2usize)) by {
                    assert(forall|j: int|
                        0 <= j < loc.dice_numbers@.len() ==> loc.dice_numbers@[j] != 2usize);
                }
            }
        }
        let roll = self.dice.roll_avoiding(&loc.dice_numbers);
        let dest = self.all_players();
        let sum = roll.sum();
        let mut out: Vec<Command> = Vec::new();
        out.push(Command::Info { destination: dest, payload: InfoMessage::Roll { from: cur, roll } });
        if sum == 7 {
            self.phase = Phase::MoveChoice;
            proof {
                let o = out@;
                assert(o.len() == 1);
                assert(o.drop_first().len() == 0);
                assert(muts_of(o.drop_first()) =~= Seq::<Mutation>::empty());
                assert(muts_of(o) =~= Seq::<Mutation>::empty());
                assert(apply_mutations(pre.state.players@, muts_of(o)) == pre.state.players@);
                assert(apply_mutations_current(pre.state.current_player, muts_of(o))
                    == pre.state.current_player);
                assert(move_roll_post(pre, *self, o, roll));
            }
            out
        } else {
            let target_loc = self.state.locations.from_dice_number(sum);
            let lid = target_loc.id;
            self.state.mutate(Mutation::Move(cur, lid));
            out.push(Command::StateMutation(Mutation::Move(cur, lid)));
            if has_effect(lid) {
                self.phase = Phase::EffectChoice;
            } else {
                self.phase = Phase::AttackChoice;
            }
            proof {
                let o = out@;
                let m = Mutation::Move(cur, lid);
                assert(o.len() == 2);
                let o1 = o.drop_first();
                assert(o1.len() == 1 && o1[0] == Command::StateMutation(m));
                assert(o1.drop_first().len() == 0);
                assert(muts_of(o1.drop_first()) =~= Seq::<Mutation>::empty());
                assert(muts_of(o1) =~= seq![m]);
                assert(muts_of(o) =~= seq![m]);
                let ms = muts_of(o);
                assert(apply_mutations(pre.state.players@, ms) == apply_mutations(
                    apply_mutation(pre.state.players@, m),
                    ms.drop_first(),
                ));
                assert(ms.drop_first().len() == 0);
                assert(apply_mutations(apply_mutation(pre.state.players@, m), ms.drop_first())
                    == apply_mutation(pre.state.players@, m));
                assert(apply_mutations_current(pre.state.current_player, ms)
                    == apply_mutations_current(
                    apply_mutation_current(pre.state.current_player, m),
                    ms.drop_first(),
                ));
                assert(lid == LocationId(covering_index(roll.spec_sum()) as usize));
                assert(move_roll_post(pre, *self, o, roll));
            }
            out
        }
    }

    /// Movement: the free relocation chosen after a 7.
    fn step_move_choice(&mut self, answer: usize) -> (out: Vec<Command>)
        requires
            old(self).wf(),
            old(self).phase == Phase::MoveChoice,
            answer < 5,
        ensures
            final(self).wf(),
            final(self).state.locations == old(self).state.locations,
            final(self).state.players@.len() == old(self).state.players@.len(),
            final(self).state.players@ == apply_mutations(old(self).state.players@, muts_of(out@)),
            final(self).state.current_player == apply_mutations_current(
                old(self).state.current_player,
                muts_of(out@),
            ),
            move_choice_post(*old(self), *final(self), out@, answer as int),
    {
        let ghost pre = *self;
        let cur = self.state.current_player;
        let ids = self.move_choices();
        let lid = ids[answer];
        self.state.mutate(Mutation::Move(cur, lid));
        let mut out: Vec<Command> = Vec::new();
        out.push(Command::StateMutation(Mutation::Move(cur, lid)));
        if has_effect(lid) {
            self.phase = Phase::EffectChoice;
        } else {
            self.phase = Phase::AttackChoice;
        }
        proof {
            let o = out@;
            let m = Mutation::Move(cur, lid);
            assert(o.len() == 1 && o[0] == Command::StateMutation(m));
            assert(o.drop_first().len() == 0);
            assert(muts_of(o.drop_first()) =~= Seq::<Mutation>::empty());
            assert(muts_of(o) =~= seq![m]);
            let ms = muts_of(o);
            assert(apply_mutations(pre.state.players@, ms) == apply_mutations(
                apply_mutation(pre.state.players@, m),
                ms.drop_first(),
            ));
            assert(ms.drop_first().len() == 0);
            assert(apply_mutations(apply_mutation(pre.state.players@, m), ms.drop_first())
                == apply_mutation(pre.state.players@, m));
            assert(apply_mutations_current(pre.state.current_player, ms)
                == apply_mutations_current(
                apply_mutation_current(pre.state.current_player, m),
                ms.drop_first(),
            ));
            assert(move_choice_post(pre, *self, o, answer as int));
        }
        out
    }

    /// The landing effect's damage-or-heal choice resolved.
    fn step_effect_choice(&mut self, answer: usize) -> (out: Vec<Command>)
        requires
            old(self).wf(),
            old(self).phase == Phase::EffectChoice,
            (answer as int) < effect_choices_spec(old(self).state.players@).len(),
        ensures
            final(self).wf(),
            final(self).state.locations == old(self).state.locations,
            final(self).state.players@.len() == old(self).state.players@.len(),
            final(self).state.players@ == apply_mutations(old(self).state.players@, muts_of(out@)),
            final(self).state.current_player == apply_mutations_current(
                old(self).state.current_player,
                muts_of(out@),
            ),
            effect_choice_post(*old(self), *final(self), out@, answer as int),
    {
        let ghost pre = *self;
        let ms = self.effect_choices();
        let m = ms[answer];
        self.state.mutate(m);
        let mut out: Vec<Command> = Vec::new();
        out.push(Command::StateMutation(m));
        self.phase = Phase::AttackChoice;
        proof {
            let o = out@;
            assert(o.len() == 1 && o[0] == Command::StateMutation(m));
            assert(o.drop_first().len() == 0);
            assert(muts_of(o.drop_first()) =~= Seq::<Mutation>::empty());
            assert(muts_of(o) =~= seq![m]);
            let mm = muts_of(o);
            assert(apply_mutations(pre.state.players@, mm) == apply_mutations(
                apply_mutation(pre.state.players@, m),
                mm.drop_first(),
            ));
            assert(mm.drop_first().len() == 0);
            assert(apply_mutations(apply_mutation(pre.state.players@, m), mm.drop_first())
                == apply_mutation(pre.state.players@, m));
            assert(apply_mutations_current(pre.state.current_player, mm)
                == apply_mutations_current(
                apply_mutation_current(pre.state.current_player, m),
                mm.drop_first(),
            ));
            assert(apply_mutation_current(pre.state.current_player, m)
                == pre.state.current_player);
            assert(effect_choice_post(pre, *self, o, answer as int));
        }
        out
    }

    /// The attack offer resolved: a target, or skip.
    fn step_attack_choice(&mut self, answer: usize) -> (out: Vec<Command>)
        requires
            old(self).wf(),
            old(self).phase == Phase::AttackChoice,
            (answer as int) <= attack_candidates_spec(
                old(self).state.players@,
                old(self).state.locations.layout@,
                old(self).state.current_player.0 as int,
            ).len(),
        ensures
            final(self).wf(),
            final(self).state.locations == old(self).state.locations,
            final(self).state.players@.len() == old(self).state.players@.len(),
            final(self).state.players@ == apply_mutations(old(self).state.players@, muts_of(out@)),
            final(self).state.current_player == apply_mutations_current(
                old(self).state.current_player,
                muts_of(out@),
            ),
            attack_choice_post(*old(self), *final(self), out@, answer as int),
    {
        let ghost pre = *self;
        let cur = self.state.current_player;
        let cands = self.attack_candidates();
        let dest = self.all_players();
        let mut out: Vec<Command> = Vec::new();
        if answer < cands.len() {
            let target = cands[answer];
            out.push(
                Command::Info {
                    destination: dest,
                    payload: InfoMessage::PreparingAttack { from: cur, target },
                },
            );
            self.phase = Phase::AttackRollAck { target };
            proof {
                let o = out@;
                assert(o.len() == 1);
                assert(o.drop_first().len() == 0);
                assert(muts_of(o.drop_first()) =~= Seq::<Mutation>::empty());
                assert(muts_of(o) =~= Seq::<Mutation>::empty());
                assert(apply_mutations(pre.state.players@, muts_of(o)) == pre.state.players@);
                assert(apply_mutations_current(pre.state.current_player, muts_of(o))
                    == pre.state.current_player);
                assert(attack_choice_post(pre, *self, o, answer as int));
            }
            out
        } else {
            out.push(
                Command::Info { destination: dest, payload: InfoMessage::DidNotAttack { from: cur } },
            );
            let mut extra = self.advance_turn();
            let ghost extra_view = extra@;
            out.append(&mut extra);
            proof {
                let o = out@;
                assert(o.drop_first() =~= extra_view);
                assert(o.drop_first() == extra_view);
                match State::next_alive_spec(pre.state.players@, pre.state.current_player.0 as int) {
                    Some(p) => {
                        let m = Mutation::ChangeCurrentPlayer(p);
                        assert(extra_view.len() == 1 && extra_view[0] == Command::StateMutation(m));
                        assert(o.len() == 2);
                        assert(muts_of(extra_view.drop_first()) =~= Seq::<Mutation>::empty());
                        assert(muts_of(extra_view) =~= seq![m]);
                        assert(muts_of(o) =~= seq![m]);
                        let ms = muts_of(o);
                        assert(apply_mutations(pre.state.players@, ms) == apply_mutations(
                            apply_mutation(pre.state.players@, m),
                            ms.drop_first(),
                        ));
                        assert(ms.drop_first().len() == 0);
                        assert(apply_mutation(pre.state.players@, m) =~= pre.state.players@);
                        assert(apply_mutations_current(pre.state.current_player, ms)
                            == apply_mutations_current(
                            apply_mutation_current(pre.state.current_player, m),
                            ms.drop_first(),
                        ));
                    },
                    None => {
                        assert(extra_view.len() == 0);
                        assert(o.len() == 1);
                        assert(muts_of(o.drop_first()) =~= Seq::<Mutation>::empty());
                        assert(muts_of(o) =~= Seq::<Mutation>::empty());
                        assert(apply_mutations(pre.state.players@, muts_of(o))
                            == pre.state.players@);
                        assert(apply_mutations_current(pre.state.current_player, muts_of(o))
                            == pre.state.current_player);
                    },
                }
                assert(attack_choice_post(pre, *self, o, answer as int));
            }
            out
        }
    }

    /// The attack roll acknowledged: roll, broadcast, damage the target by
    /// the dice difference, and advance the turn.
    fn step_attack_roll(&mut self, target: PlayerId) -> (out: Vec<Command>)
        requires
            old(self).wf(),
            old(self).phase == (Phase::AttackRollAck { target }),
        ensures
            final(self).wf(),
            final(self).state.locations == old(self).state.locations,
            final(self).state.players@.len() == old(self).state.players@.len(),
            final(self).state.players@ == apply_mutations(old(self).state.players@, muts_of(out@)),
            final(self).state.current_player == apply_mutations_current(
                old(self).state.current_player,
                muts_of(out@),
            ),
            exists|roll: Roll| #[trigger] attack_roll_post(
                *old(self),
                *final(self),
                out@,
                roll,
                target,
            ),
    {
        let ghost pre = *self;
        let cur = self.state.current_player;
        let roll = self.dice.roll();
        let dest = self.all_players();
        let mut out: Vec<Command> = Vec::new();
        out.push(Command::Info { destination: dest, payload: InfoMessage::Roll { from: cur, roll } });
        let d = roll.diff();
        let dmg = Mutation::DamagePlayer(target, d);
        self.state.mutate(dmg);
        out.push(Command::StateMutation(dmg));
        let ghost damaged = self.state.players@;
        let mut extra = self.advance_turn();
        let ghost extra_view = extra@;
        out.append(&mut extra);
        proof {
            let o = out@;
            assert(o.skip(2) =~= extra_view);
            assert(o.skip(2) == extra_view);
            assert(o[0] is Info);
            assert(o[1] == Command::StateMutation(dmg));
            assert(o.drop_first()[0] == Command::StateMutation(dmg));
            assert(o.drop_first().drop_first() =~= extra_view);
            match State::next_alive_spec(damaged, pre.state.current_player.0 as int) {
                Some(p) => {
                    let m = Mutation::ChangeCurrentPlayer(p);
                    assert(extra_view.len() == 1 && extra_view[0] == Command::StateMutation(m));
                    assert(muts_of(extra_view.drop_first()) =~= Seq::<Mutation>::empty());
                    assert(muts_of(extra_view) =~= seq![m]);
                    assert(muts_of(o.drop_first()) =~= seq![dmg, m]);
                    assert(muts_of(o) =~= seq![dmg, m]);
                    let ms = muts_of(o);
                    assert(ms.len() == 2 && ms[0] == dmg && ms[1] == m);
                    assert(ms.drop_first() =~= seq![m]);
                    assert(apply_mutations(pre.state.players@, ms) == apply_mutations(
                        apply_mutation(pre.state.players@, dmg),
                        ms.drop_first(),
                    ));
                    assert(apply_mutations(damaged, seq![m]) == apply_mutations(
                        apply_mutation(damaged, m),
                        seq![m].drop_first(),
                    ));
                    assert(seq![m].drop_first().len() == 0);
                    assert(apply_mutation(damaged, m) =~= damaged);
                    assert(apply_mutations_current(pre.state.current_player, ms)
                        == apply_mutations_current(
                        apply_mutation_current(pre.state.current_player, dmg),
                        ms.drop_first(),
                    ));
                    assert(apply_mutations_current(pre.state.current_player, ms)
                        == apply_mutations_current(pre.state.current_player, seq![m]));
                    assert(apply_mutations_current(pre.state.current_player, seq![m])
                        == apply_mutations_current(
                        apply_mutation_current(pre.state.current_player, m),
                        seq![m].drop_first(),
                    ));
                },
                None => {
                    assert(extra_view.len() == 0);
                    assert(muts_of(o.drop_first().drop_first()) =~= Seq::<Mutation>::empty());
                    assert(muts_of(o.drop_first()) =~= seq![dmg]);
                    assert(muts_of(o) =~= seq![dmg]);
                    let ms = muts_of(o);
                    assert(apply_mutations(pre.state.players@, ms) == apply_mutations(
                        apply_mutation(pre.state.players@, dmg),
                        ms.drop_first(),
                    ));
                    assert(ms.drop_first().len() == 0);
                    assert(apply_mutations_current(pre.state.current_player, ms)
                        == apply_mutations_current(
                        apply_mutation_current(pre.state.current_player, dmg),
                        ms.drop_first(),
                    ));
                },
            }
            assert(attack_roll_post(pre, *self, o, roll, target));
        }
        out
    }

    /// Consumes the current player's answer to the outstanding request: the
    /// zero-based index into `pending_request`'s choices.  Applies what the
    /// answer decides, returns the events to deliver — every state change
    /// appears among them as a mutation, in application order — and moves to
    /// the next outstanding request, or halts when no other player is left
    /// alive.
    pub fn step(&mut self, answer: usize) -> (out: Vec<Command>)
        requires
            old(self).wf(),
            old(self).phase != Phase::Halted,
            (answer as int) < pending_count(*old(self)),
        ensures
            final(self).wf(),
            final(self).state.locations == old(self).state.locations,
            final(self).state.players@.len() == old(self).state.players@.len(),
            final(self).state.players@ == apply_mutations(old(self).state.players@, muts_of(out@)),
            final(self).state.current_player == apply_mutations_current(
                old(self).state.current_player,
                muts_of(out@),
            ),
            match old(self).phase {
                Phase::MoveAck => exists|roll: Roll| #[trigger] move_roll_post(
                    *old(self),
                    *final(self),
                    out@,
                    roll,
                ),
                Phase::MoveChoice => move_choice_post(*old(self), *final(self), out@, answer as int),
                Phase::EffectChoice => effect_choice_post(
                    *old(self),
                    *final(self),
                    out@,
                    answer as int,
                ),
                Phase::AttackChoice => attack_choice_post(
                    *old(self),
                    *final(self),
                    out@,
                    answer as int,
                ),
                Phase::AttackRollAck { target } => exists|roll: Roll| #[trigger] attack_roll_post(
                    *old(self),
                    *final(self),
                    out@,
                    roll,
                    target,
                ),
                Phase::Halted => false,
            },
    {
        let phase = self.phase;
        match phase {
            Phase::MoveAck => self.step_move_ack(),
            Phase::MoveChoice => self.step_move_choice(answer),
            Phase::EffectChoice => self.step_effect_choice(answer),
            Phase::AttackChoice => self.step_attack_choice(answer),
            Phase::AttackRollAck { target } => self.step_attack_roll(target),
            Phase::Halted => {
                proof {
                    assert(false);
                }
                unreached()
            },
        }
    }
}

} // verus!
