//! What the room manager, the rooms and the player sessions say to each other,
//! and what a client says to its session and hears back.
use crate::letters::Letter;
use crate::user::User;
use vstd::prelude::*;

verus! {

/// Handle of a player session: equal handles name the same connection.
pub type SessionId = u64;

/// The seat that acts now, and how long it has.
#[derive(Debug, Clone, Copy, PartialEq, Eq, Structural)]
pub struct NextTurn {
    pub player_index: usize,
    pub seconds: u64,
}

/// The countdown before the first turn, the players in seat order and the
/// receiver's first rack.
#[derive(Debug)]
pub struct StartPreparationTime {
    pub seconds: u64,
    pub users: Vec<User>,
    pub letters: Vec<Letter>,
}

/// A seat has submitted a word.
#[derive(Debug)]
pub struct WordCreated {
    pub player_index: usize,
    pub word: String,
}

/// Asks the acting session to validate the word it submitted.
#[derive(Debug)]
pub struct CheckWordExisting {
    pub player_index: usize,
    pub word: String,
}

/// The dice may be rolled within `seconds`.
#[derive(Debug, Clone, Copy, PartialEq, Eq, Structural)]
pub struct CanRollDice {
    pub seconds: u64,
}

/// A submitted word was confirmed: the damage it does and the seat it hits.
#[derive(Debug)]
pub struct WordExists {
    pub word: String,
    pub player_index: usize,
    pub damage: u32,
}

/// The dice were rolled, explicitly or when the window elapsed.
#[derive(Debug)]
pub struct DiceRolled {
    pub word_exists_event: WordExists,
}

/// A seat was dealt damage.
#[derive(Debug, Clone, Copy, PartialEq, Eq, Structural)]
pub struct DamagePlayer {
    pub player_index: usize,
    pub damage: u32,
}

/// The receiver was dealt damage.
#[derive(Debug, Clone, Copy, PartialEq, Eq, Structural)]
pub struct TakeDamage {
    pub damage: u32,
}

/// A seat was eliminated.
#[derive(Debug, Clone, Copy, PartialEq, Eq, Structural)]
pub struct PlayerDead {
    pub player_index: usize,
}

/// The rack after a roll, and the seat that the roll hit.
#[derive(Debug)]
pub struct DiceRolledResponse {
    pub amount: usize,
    pub new_letters: Vec<Letter>,
}

/// What a client asks of its session.
#[derive(Debug)]
pub enum WsRequest {
    Join,
    CreateWord(String),
    RollDice,
}

/// What a session tells its client.
#[derive(Debug)]
pub enum WsResponse {
    StartPreparationTime(StartPreparationTime),
    NextTurn(NextTurn),
    WordCreated(WordCreated),
    CanRollDice(CanRollDice),
    DiceRolledResponse(DiceRolledResponse),
    DamagePlayer(DamagePlayer),
    TakeDamage(TakeDamage),
    PlayerDead(PlayerDead),
}

/// What a room sends to one of its sessions.
#[derive(Debug)]
pub enum SessionMessage {
    StartPreparationTime(StartPreparationTime),
    NextTurn(NextTurn),
    WordCreated(WordCreated),
    CheckWordExisting(CheckWordExisting),
    DamagePlayer(DamagePlayer),
    TakeDamage(TakeDamage),
    PlayerDead(PlayerDead),
}

/// A message and the session it goes to.
#[derive(Debug)]
pub struct Delivery {
    pub to: SessionId,
    pub message: SessionMessage,
}

/// A player asks to be seated.
#[derive(Debug)]
pub struct Join {
    pub user: User,
    pub session_addr: SessionId,
}

/// A player submits a word.
#[derive(Debug)]
pub struct CreateWord {
    pub user: User,
    pub word: String,
    pub session_addr: SessionId,
}

/// A session asks its room to pass the turn.
#[derive(Debug, Clone, Copy, PartialEq, Eq, Structural)]
pub struct RoomNextTurn {
    pub session_addr: SessionId,
}

/// A session asks its room to deal damage to a seat.
#[derive(Debug, Clone, Copy, PartialEq, Eq, Structural)]
pub struct RoomDamagePlayer {
    pub session_addr: SessionId,
    pub player_index: usize,
    pub damage: u32,
}

/// A session asks its room to arm the turn timer, where none is pending.
#[derive(Debug, Clone, Copy, PartialEq, Eq, Structural)]
pub struct RoomNextTurnTimeoutInit {
    pub session_addr: SessionId,
}

/// A session reports that its player has no health left.
#[derive(Debug, Clone, Copy, PartialEq, Eq, Structural)]
pub struct RoomPlayerDead {
    pub session_addr: SessionId,
}

} // verus!
