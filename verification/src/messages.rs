//! The protocol vocabulary between the turn engine and the player sessions:
//! action descriptors shown to a player when a decision is requested,
//! informational events, the commands the engine emits, and the wire-level
//! envelopes a transport exchanges with one player.

use vstd::prelude::*;
use crate::PlayerId;
use crate::dice::Roll;
use crate::location::LocationId;
use crate::state::Mutation;

verus! {

/// Which dice a roll request concerns.
#[derive(Debug, Clone, Copy)]
pub enum Dices {
    D4,
    D6,
    Both,
}

/// One selectable choice shown to a player.  Descriptors are display and
/// selection hints only; the outcome the engine uses internally may differ.
#[derive(Debug, Clone, Copy)]
pub enum Action {
    Skip,
    DiceRoll(Dices),
    Location(LocationId),
    DamagePlayer(PlayerId, Option<usize>),
    HealPlayer(PlayerId, Option<usize>),
}

/// A notification carrying no state change; sessions display it.
#[derive(Debug, Clone)]
pub enum InfoMessage {
    Basic(String),
    Roll { from: PlayerId, roll: Roll },
    PreparingAttack { from: PlayerId, target: PlayerId },
    DidNotAttack { from: PlayerId },
}

/// One outbound command of the engine.  An action request asks the named
/// player to answer with an index into `choices`; an info and a state
/// mutation are fire-and-forget events the transport must deliver to each
/// recipient in emission order.
#[derive(Debug, Clone)]
pub enum Command {
    ActionRequest { player: PlayerId, choices: Vec<Action> },
    Info { destination: Vec<PlayerId>, payload: InfoMessage },
    StateMutation(Mutation),
}

/// What a player's session receives over the wire.
#[derive(Debug, Clone)]
pub enum ToPlayer {
    ActionRequest(Vec<Action>),
    Info(InfoMessage),
    StateMutation(Mutation),
}

/// What a player's session sends over the wire: the index of the chosen
/// entry of the one outstanding action request.
#[derive(Debug, Clone, Copy)]
pub enum FromPlayer {
    ActionChoice(usize),
}

} // verus!
