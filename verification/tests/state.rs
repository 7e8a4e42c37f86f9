use shadow_hunters::character::{Characters, CharacterId};
use shadow_hunters::dice::Dice;
use shadow_hunters::location::{LocationId, Locations};
use shadow_hunters::state::{Mutation, Player, State};
use shadow_hunters::PlayerId;

fn player(id: usize, location: usize, character: usize) -> Player {
    Player {
        id: PlayerId(id),
        damage: 0,
        location: LocationId(location),
        revealed: false,
        character: Some(CharacterId(character)),
    }
}

fn three_player_state() -> State {
    let players = vec![player(0, 0, 0), player(1, 2, 1), player(2, 5, 2)];
    State::new(players, Locations::unshuffled(), PlayerId(0))
}

#[test]
fn mutations_keep_damage_non_negative() {
    let mut state = three_player_state();
    state.mutate(Mutation::DamagePlayer(PlayerId(1), 3));
    assert_eq!(state.players()[1].damage(), 3);
    state.mutate(Mutation::HealPlayer(PlayerId(1), 1));
    assert_eq!(state.players()[1].damage(), 2);
    // Healing past zero saturates instead of underflowing.
    state.mutate(Mutation::HealPlayer(PlayerId(1), 10));
    assert_eq!(state.players()[1].damage(), 0);
    state.mutate(Mutation::HealPlayer(PlayerId(0), 4));
    assert_eq!(state.players()[0].damage(), 0);
    // The other variants leave every damage untouched.
    state.mutate(Mutation::Move(PlayerId(0), LocationId(3)));
    state.mutate(Mutation::ChangeCurrentPlayer(PlayerId(2)));
    state.mutate(Mutation::RevealPlayer(PlayerId(1), CharacterId(1)));
    for p in state.players() {
        assert_eq!(p.damage(), 0);
    }
}

#[test]
fn mutate_applies_each_variant() {
    let mut state = three_player_state();
    state.mutate(Mutation::Move(PlayerId(2), LocationId(4)));
    assert_eq!(state.players()[2].location(), LocationId(4));
    state.mutate(Mutation::ChangeCurrentPlayer(PlayerId(1)));
    assert_eq!(state.current_player().id(), PlayerId(1));
    state.mutate(Mutation::DamagePlayer(PlayerId(0), 5));
    assert_eq!(state.players()[0].damage(), 5);
    state.mutate(Mutation::RevealPlayer(PlayerId(0), CharacterId(0)));
    assert!(state.players()[0].revealed());
    assert_eq!(state.players()[0].character(), Some(CharacterId(0)));
}

#[test]
fn reveal_twice_with_same_character_is_idempotent() {
    let mut state = three_player_state();
    state.mutate(Mutation::RevealPlayer(PlayerId(1), CharacterId(1)));
    let after_once: Vec<(bool, Option<CharacterId>)> = state
        .players()
        .iter()
        .map(|p| (p.revealed(), p.character()))
        .collect();
    state.mutate(Mutation::RevealPlayer(PlayerId(1), CharacterId(1)));
    let after_twice: Vec<(bool, Option<CharacterId>)> = state
        .players()
        .iter()
        .map(|p| (p.revealed(), p.character()))
        .collect();
    assert_eq!(after_once, after_twice);
    assert!(state.players()[1].revealed());
    assert_eq!(state.players()[1].character(), Some(CharacterId(1)));
}

#[test]
fn projection_masks_unrevealed_characters() {
    let mut state = three_player_state();
    // B (player 1) is revealed; A (player 0) and player 2 are not.
    state.mutate(Mutation::RevealPlayer(PlayerId(1), CharacterId(1)));
    let view = state.prepare_for_player(PlayerId(0));
    // The viewer sees their own character even though they are unrevealed.
    assert_eq!(view.players()[0].character(), Some(CharacterId(0)));
    // A revealed player's character stays visible.
    assert_eq!(view.players()[1].character(), Some(CharacterId(1)));
    // Every other unrevealed character is masked to unknown.
    assert_eq!(view.players()[2].character(), None);
    // Everything else is untouched.
    assert_eq!(view.current_player().id(), PlayerId(0));
    for (p, q) in state.players().iter().zip(view.players().iter()) {
        assert_eq!(p.id(), q.id());
        assert_eq!(p.damage(), q.damage());
        assert_eq!(p.location(), q.location());
        assert_eq!(p.revealed(), q.revealed());
    }
}

#[test]
fn is_alive_is_damage_below_hit_points() {
    // Character 2 (Allie) has 8 hit points.
    let mut p = player(1, 0, 2);
    let max = Characters::from_id(CharacterId(2)).hit_points();
    assert_eq!(max, 8);
    p.damage = max - 1;
    assert!(p.is_alive());
    // Damage exactly at the maximum means dead.
    p.damage = max;
    assert!(!p.is_alive());
    p.damage = max + 3;
    assert!(!p.is_alive());
}

#[test]
fn character_catalog_hit_points() {
    let expected = [14, 11, 8, 13, 14];
    for (i, hp) in expected.into_iter().enumerate() {
        assert_eq!(Characters::from_id(CharacterId(i)).hit_points(), hp);
    }
}

#[test]
fn generated_characters_are_distinct() {
    for count in 1..=5 {
        let drawn = Characters::generate(count);
        assert_eq!(drawn.len(), count);
        for (i, a) in drawn.iter().enumerate() {
            assert!(a.0 < 5);
            for b in &drawn[i + 1..] {
                assert_ne!(a, b);
            }
        }
    }
}

#[test]
fn generated_state_is_fresh() {
    let mut dice = Dice::new();
    let state = State::generate(4, &mut dice);
    assert_eq!(state.players().len(), 4);
    assert_eq!(state.current_player().id(), PlayerId(0));
    for p in state.players() {
        assert_eq!(p.damage(), 0);
        assert!(!p.revealed());
        assert!(p.character().is_some());
        // A start location is never reached by the free-choice sum 7.
        let loc = state.locations().from_id(p.location());
        assert!(!loc.dice_numbers().contains(&7));
    }
}

#[test]
fn next_alive_player_cycles_in_order() {
    let state = three_player_state();
    assert_eq!(state.next_alive_player(), Some(PlayerId(1)));
    let mut state = state;
    state.mutate(Mutation::ChangeCurrentPlayer(PlayerId(2)));
    assert_eq!(state.next_alive_player(), Some(PlayerId(0)));
}

#[test]
fn next_alive_player_skips_dead_players() {
    let mut state = three_player_state();
    // Player 1 holds character 1 (11 hit points); kill them exactly.
    state.mutate(Mutation::DamagePlayer(PlayerId(1), 11));
    assert_eq!(state.next_alive_player(), Some(PlayerId(2)));
}

#[test]
fn next_alive_player_none_when_alone() {
    let mut state = three_player_state();
    state.mutate(Mutation::DamagePlayer(PlayerId(1), 11));
    state.mutate(Mutation::DamagePlayer(PlayerId(2), 8));
    assert_eq!(state.next_alive_player(), None);
}
