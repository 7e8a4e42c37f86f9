use shadow_hunters::character::CharacterId;
use shadow_hunters::dice::{Dice, Roll};
use shadow_hunters::engine::{GameLogic, Phase};
use shadow_hunters::location::{LocationId, Locations};
use shadow_hunters::messages::{Action, Command, Dices, InfoMessage};
use shadow_hunters::state::{Mutation, Player, State};
use shadow_hunters::PlayerId;

fn player(id: usize, location: usize, character: usize) -> Player {
    Player {
        id: PlayerId(id),
        damage: 0,
        location: LocationId(location),
        revealed: false,
        character: Some(CharacterId(character)),
    }
}

/// Three players on the catalog-order board: the current player on
/// location 0, one player on location 2, one on location 5.
fn three_player_engine(script: Vec<Roll>) -> GameLogic {
    let players = vec![player(0, 0, 0), player(1, 2, 1), player(2, 5, 2)];
    let state = State::new(players, Locations::unshuffled(), PlayerId(0));
    GameLogic::with_state(state, Dice::from_script(script))
}

fn request_choices(engine: &GameLogic) -> Vec<Action> {
    match engine.pending_request() {
        Command::ActionRequest { player, choices } => {
            assert_eq!(player, engine.state.current_player);
            choices
        }
        other => panic!("expected an action request, got {:?}", other),
    }
}

#[test]
fn scripted_dice_hand_out_rolls_in_order() {
    let mut dice = Dice::from_script(vec![Roll { d4: 3, d6: 4 }, Roll { d4: 1, d6: 2 }]);
    let first = dice.roll();
    assert_eq!((first.d4, first.d6), (3, 4));
    assert_eq!(first.sum(), 7);
    assert_eq!(first.diff(), 1);
    let second = dice.roll();
    assert_eq!((second.d4, second.d6), (1, 2));
    assert_eq!(second.sum(), 3);
    assert_eq!(second.diff(), 1);
}

#[test]
fn random_rolls_stay_in_range() {
    let mut dice = Dice::new();
    for _ in 0..200 {
        let roll = dice.roll();
        assert!((1..=4).contains(&roll.d4));
        assert!((1..=6).contains(&roll.d6));
        assert!((2..=10).contains(&roll.sum()));
        assert!(roll.diff() <= 5);
    }
}

/// The end-to-end movement-attack-advance scenario: a 7 triggers the free
/// relocation, the attack offer covers exactly the group mates, skip
/// broadcasts the refusal without a mutation, and the turn passes on.
#[test]
fn free_choice_turn_with_skip() {
    let mut engine = three_player_engine(vec![Roll { d4: 3, d6: 4 }, Roll { d4: 1, d6: 2 }]);

    // Movement asks the current player to acknowledge the dice roll.
    let choices = request_choices(&engine);
    assert_eq!(choices.len(), 1);
    assert!(matches!(choices[0], Action::DiceRoll(Dices::Both)));

    // The scripted roll sums to 7: the roll is broadcast and the engine
    // suspends on a free relocation choice excluding the current location 0.
    let out = engine.step(0);
    assert_eq!(out.len(), 1);
    match &out[0] {
        Command::Info { destination, payload } => {
            assert_eq!(destination.len(), 3);
            match payload {
                InfoMessage::Roll { from, roll } => {
                    assert_eq!(*from, PlayerId(0));
                    assert_eq!((roll.d4, roll.d6), (3, 4));
                }
                other => panic!("expected a roll, got {:?}", other),
            }
        }
        other => panic!("expected an info broadcast, got {:?}", other),
    }
    assert_eq!(engine.phase, Phase::MoveChoice);
    let choices = request_choices(&engine);
    let offered: Vec<usize> = choices
        .iter()
        .map(|c| match c {
            Action::Location(l) => l.0,
            other => panic!("expected a location choice, got {:?}", other),
        })
        .collect();
    assert_eq!(offered, vec![1, 2, 3, 4, 5]);

    // Choose location 3: the move is applied and broadcast.
    let out = engine.step(2);
    assert_eq!(out.len(), 1);
    assert!(matches!(
        out[0],
        Command::StateMutation(Mutation::Move(PlayerId(0), LocationId(3)))
    ));
    assert_eq!(engine.state.players()[0].location(), LocationId(3));

    // The attack offer holds exactly the players sharing group {2, 3} —
    // player 1 — plus skip.
    assert_eq!(engine.phase, Phase::AttackChoice);
    let choices = request_choices(&engine);
    assert_eq!(choices.len(), 2);
    assert!(matches!(choices[0], Action::DamagePlayer(PlayerId(1), None)));
    assert!(matches!(choices[1], Action::Skip));

    // Skip: the refusal is broadcast, no mutation accompanies it, and the
    // turn passes to the next alive player in cyclic order.
    let out = engine.step(1);
    assert_eq!(out.len(), 2);
    assert!(matches!(
        out[0],
        Command::Info {
            payload: InfoMessage::DidNotAttack { from: PlayerId(0) },
            ..
        }
    ));
    assert!(matches!(
        out[1],
        Command::StateMutation(Mutation::ChangeCurrentPlayer(PlayerId(1)))
    ));
    assert_eq!(engine.state.current_player().id(), PlayerId(1));
    assert_eq!(engine.phase, Phase::MoveAck);
}

/// A direct hit moves the player without a choice, and an attack damages the
/// target by the dice difference.
#[test]
fn direct_move_and_attack() {
    // First roll: sum 6 (church, same group as nobody needed) — put the
    // current player where a group mate waits.  Second roll: the attack.
    let players = vec![player(0, 0, 0), player(1, 2, 1), player(2, 5, 2)];
    let state = State::new(players, Locations::unshuffled(), PlayerId(0));
    let script = vec![Roll { d4: 2, d6: 4 }, Roll { d4: 4, d6: 1 }];
    let mut engine = GameLogic::with_state(state, Dice::from_script(script));

    // Sum 6 lands on location 2 directly; no relocation choice.
    let out = engine.step(0);
    assert_eq!(out.len(), 2);
    assert!(matches!(
        out[1],
        Command::StateMutation(Mutation::Move(PlayerId(0), LocationId(2)))
    ));
    assert_eq!(engine.phase, Phase::AttackChoice);

    // Player 1 stands on location 2 as well: groups {2, 3} match.
    let choices = request_choices(&engine);
    assert_eq!(choices.len(), 2);
    assert!(matches!(choices[0], Action::DamagePlayer(PlayerId(1), None)));

    // Choose the attack: the announcement comes, then the roll request.
    let out = engine.step(0);
    assert_eq!(out.len(), 1);
    assert!(matches!(
        out[0],
        Command::Info {
            payload: InfoMessage::PreparingAttack {
                from: PlayerId(0),
                target: PlayerId(1)
            },
            ..
        }
    ));
    assert_eq!(
        engine.phase,
        Phase::AttackRollAck {
            target: PlayerId(1)
        }
    );

    // Acknowledge: the scripted (4, 1) roll gives damage |4 - 1| = 3.
    let out = engine.step(0);
    assert_eq!(out.len(), 3);
    assert!(matches!(
        out[0],
        Command::Info {
            payload: InfoMessage::Roll { from: PlayerId(0), .. },
            ..
        }
    ));
    assert!(matches!(
        out[1],
        Command::StateMutation(Mutation::DamagePlayer(PlayerId(1), 3))
    ));
    assert!(matches!(
        out[2],
        Command::StateMutation(Mutation::ChangeCurrentPlayer(PlayerId(1)))
    ));
    assert_eq!(engine.state.players()[1].damage(), 3);
    assert_eq!(engine.state.current_player().id(), PlayerId(1));
}

/// Landing on the Weird Woods (location 4) offers the area effect: damage
/// any player by 2 or heal any player by 1.
#[test]
fn weird_woods_offers_area_effect() {
    let players = vec![player(0, 0, 0), player(1, 2, 1), player(2, 5, 2)];
    let state = State::new(players, Locations::unshuffled(), PlayerId(0));
    // Sum 9 lands on location 4.
    let script = vec![Roll { d4: 3, d6: 6 }];
    let mut engine = GameLogic::with_state(state, Dice::from_script(script));

    let out = engine.step(0);
    assert_eq!(out.len(), 2);
    assert!(matches!(
        out[1],
        Command::StateMutation(Mutation::Move(PlayerId(0), LocationId(4)))
    ));
    assert_eq!(engine.phase, Phase::EffectChoice);

    let choices = request_choices(&engine);
    assert_eq!(choices.len(), 6);
    for (i, c) in choices.iter().take(3).enumerate() {
        assert!(matches!(c, Action::DamagePlayer(p, Some(2)) if p.0 == i));
    }
    for (i, c) in choices.iter().skip(3).enumerate() {
        assert!(matches!(c, Action::HealPlayer(p, Some(1)) if p.0 == i));
    }

    // Damage player 2 by 2.
    let out = engine.step(2);
    assert_eq!(out.len(), 1);
    assert!(matches!(
        out[0],
        Command::StateMutation(Mutation::DamagePlayer(PlayerId(2), 2))
    ));
    assert_eq!(engine.state.players()[2].damage(), 2);
    assert_eq!(engine.phase, Phase::AttackChoice);
}

/// A player whose damage sits exactly at their hit-point maximum is dead and
/// the advance-turn scan passes over them.
#[test]
fn advance_skips_player_at_exact_hit_point_maximum() {
    let players = vec![player(0, 0, 0), player(1, 2, 1), player(2, 5, 2)];
    let mut state = State::new(players, Locations::unshuffled(), PlayerId(0));
    // Character 1 has 11 hit points; damage player 1 to exactly that.
    state.mutate(Mutation::DamagePlayer(PlayerId(1), 11));
    assert!(!state.players()[1].is_alive());
    // Sum 6 moves player 0 to location 2; player 1 shares the group but is
    // dead — the attack offer lists every group mate regardless, and
    // skipping advances past the dead player to player 2.
    let script = vec![Roll { d4: 2, d6: 4 }];
    let mut engine = GameLogic::with_state(state, Dice::from_script(script));
    engine.step(0);
    assert_eq!(engine.phase, Phase::AttackChoice);
    let choices = request_choices(&engine);
    let skip = choices.len() - 1;
    let out = engine.step(skip);
    assert!(matches!(
        out.last(),
        Some(Command::StateMutation(Mutation::ChangeCurrentPlayer(
            PlayerId(2)
        )))
    ));
    assert_eq!(engine.state.current_player().id(), PlayerId(2));
}

/// When no player besides the current one is alive, advancing the turn
/// halts the engine instead of handing the turn on.
#[test]
fn engine_halts_without_another_alive_player() {
    let players = vec![player(0, 0, 0), player(1, 2, 1)];
    let mut state = State::new(players, Locations::unshuffled(), PlayerId(0));
    state.mutate(Mutation::DamagePlayer(PlayerId(1), 11));
    let script = vec![Roll { d4: 2, d6: 4 }];
    let mut engine = GameLogic::with_state(state, Dice::from_script(script));
    engine.step(0);
    assert_eq!(engine.phase, Phase::AttackChoice);
    let choices = request_choices(&engine);
    let out = engine.step(choices.len() - 1);
    // Only the refusal is broadcast; no turn change is emitted.
    assert_eq!(out.len(), 1);
    assert!(matches!(
        out[0],
        Command::Info {
            payload: InfoMessage::DidNotAttack { from: PlayerId(0) },
            ..
        }
    ));
    assert_eq!(engine.phase, Phase::Halted);
}

/// The movement reroll discards sums that sit on the current location.
#[test]
fn movement_rerolls_sums_of_the_current_location() {
    let players = vec![player(0, 2, 0), player(1, 3, 1)];
    let state = State::new(players, Locations::unshuffled(), PlayerId(0));
    // Location 2 owns sum 6: the first scripted roll (2, 4) must be
    // discarded and the second (4, 4) used.
    let script = vec![Roll { d4: 2, d6: 4 }, Roll { d4: 4, d6: 4 }];
    let mut engine = GameLogic::with_state(state, Dice::from_script(script));
    let out = engine.step(0);
    match &out[0] {
        Command::Info {
            payload: InfoMessage::Roll { roll, .. },
            ..
        } => {
            assert_eq!((roll.d4, roll.d6), (4, 4));
        }
        other => panic!("expected a roll broadcast, got {:?}", other),
    }
    // Sum 8 lands on location 3.
    assert!(matches!(
        out[1],
        Command::StateMutation(Mutation::Move(PlayerId(0), LocationId(3)))
    ));
}

/// A fresh random game starts with a movement request for player 0.
#[test]
fn new_engine_requests_movement_first() {
    let engine = GameLogic::new(3, Dice::new());
    assert_eq!(engine.phase, Phase::MoveAck);
    assert_eq!(engine.state.players().len(), 3);
    let choices = request_choices(&engine);
    assert_eq!(choices.len(), 1);
    assert!(matches!(choices[0], Action::DiceRoll(Dices::Both)));
}
