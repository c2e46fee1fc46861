//! A player session: the phase of its client, its rack and health, and the
//! word-check and dice-roll pipeline of its turns.
use crate::letters::{
    alphabet, can_spell, ALPHABET_SIZE, clamp_u32, draw_missing_letters, get_word_value,
    player_has_letters_for_word, rack_codes, remove_used_letters, score, leftover_codes, spend, Letter,
};
use crate::messages::{
    CanRollDice, CheckWordExisting, DamagePlayer, DiceRolled, DiceRolledResponse, NextTurn,
    PlayerDead, StartPreparationTime, TakeDamage, WordCreated, WordExists, WsRequest, WsResponse,
};
use crate::room::{MAX_PLAYERS_PER_ROOM, TURN_SECONDS};
use crate::user::User;
use rand::seq::SliceRandom;
use vstd::prelude::*;

verus! {

/// Health of a player when the game starts.
pub const START_HEALTH: u32 = 100;

/// Seconds that a confirmed word leaves to roll the dice.
pub const ROLL_DICE_SECONDS: u64 = 10;

/// The kind of the last event a session sent to its client: what the client
/// may do next depends on it.
#[derive(Debug, Clone, Copy, PartialEq, Eq, Structural)]
pub enum ResponseKind {
    StartPreparationTime,
    NextTurn,
    WordCreated,
    CanRollDice,
    DiceRolledResponse,
    DamagePlayer,
    TakeDamage,
    PlayerDead,
}

/// What a client request asks the caller to do.
#[derive(Debug)]
pub enum SessionAction {
    /// The request is out of phase: drop it.
    Ignore,
    /// Ask the room manager to seat the player.
    Join,
    /// Submit the word to the room manager.
    CreateWord(String),
    /// Resolve the roll now.
    RollDice(DiceRolled),
}

/// How a word check ended.
#[derive(Debug)]
pub enum WordCheck {
    Confirmed(WordExists),
    Rejected,
}

/// A confirmed word opens the dice window: what to tell the client, and the
/// token of the window's timer, which the caller schedules.
#[derive(Debug)]
pub struct DiceWindow {
    pub can_roll_dice: CanRollDice,
    pub timer: Option<u64>,
}

/// A resolved roll: what to tell the client, and the damage to deal and to
/// which seat.
#[derive(Debug)]
pub struct RollOutcome {
    pub response: WsResponse,
    pub damage: u32,
    pub target: usize,
}

/// One connected player.
pub struct PlayerSession {
    pub player: User,
    pub health: u32,
    pub letters: Vec<Letter>,
    pub last_ws_response: Option<ResponseKind>,
    pub last_word_exists: WordExists,
    pub roll_dice_timeout: Option<u64>,
    pub next_timer: u64,
}

impl WordExists {
    /// A copy of this confirmation.
    pub fn duplicate(&self) -> (r: WordExists)
        ensures
            r == *self,
    {
        WordExists { word: self.word.clone(), player_index: self.player_index, damage: self.damage }
    }
}

/// Relies on rand's `SliceRandom::choose` with the thread-local generator:
/// `None` for an empty slice, otherwise one of its elements.
#[verifier::external_body]
fn choose_one(candidates: &Vec<usize>) -> (r: Option<usize>)
    ensures
        candidates@.len() == 0 <==> r is None,
        r matches Some(x) ==> candidates@.contains(x),
{
    candidates.choose(&mut rand::thread_rng()).copied()
}

/// A seat other than `player_index` among the first `seats`, picked at
/// random; `None` where there is none.
pub fn pick_damage_target(player_index: usize, seats: usize) -> (r: Option<usize>)
    ensures
        r is None <==> (seats == 0 || (seats == 1 && player_index == 0)),
        r matches Some(t) ==> t < seats && t != player_index,
{
    let mut other_player_indices: Vec<usize> = Vec::new();
    let mut k: usize = 0;
    while k < seats
        invariant
            k <= seats,
            forall|j: int|
                0 <= j < other_player_indices@.len() ==> #[trigger] other_player_indices@[j]
                    < k && other_player_indices@[j] != player_index,
            forall|j: usize|
                j < k && j != player_index ==> #[trigger] other_player_indices@.contains(j),
        decreases seats - k,
    {
        if k != player_index {
            let ghost before = other_player_indices@;
            other_player_indices.push(k);
            assert forall|j: usize| j < k + 1 && j != player_index implies #[trigger] other_player_indices@.contains(j) by {
                if j < k {
                    assert(before.contains(j));
                    let q = choose|q: int| 0 <= q < before.len() && before[q] == j;
                    assert(other_player_indices@[q] == j);
                } else {
                    assert(other_player_indices@[before.len() as int] == j);
                }
            }
        }
        k = k + 1;
    }
    let r = choose_one(&other_player_indices);
    proof {
        if other_player_indices@.len() == 0 {
            if seats >= 2 {
                let j: usize = if player_index == 0 { 1 } else { 0 };
                assert(other_player_indices@.contains(j));
            }
            if seats == 1 && player_index != 0 {
                assert(other_player_indices@.contains(0usize));
            }
        } else {
            assert(other_player_indices@[0] < seats && other_player_indices@[0] != player_index);
        }
    }
    r
}

/// The end of a word check, given what the dictionary said (`found`),
/// whether the rack covers the word, and the seat drawn as target: the
/// word is confirmed, with its score as damage, exactly when both hold and
/// a target was drawn.
pub fn word_check_outcome(
    msg: CheckWordExisting,
    found: bool,
    has_letters: bool,
    target: Option<usize>,
) -> (r: WordCheck)
    ensures
        (found && has_letters && target is Some) ==> r == WordCheck::Confirmed(
            WordExists {
                word: msg.word,
                player_index: target->0,
                damage: clamp_u32(score(msg.word@)),
            },
        ),
        !(found && has_letters && target is Some) ==> r is Rejected,
{
    match target {
        Some(player_index) => {
            if found && has_letters {
                let damage = get_word_value(msg.word.clone());
                WordCheck::Confirmed(WordExists { word: msg.word, player_index, damage })
            } else {
                WordCheck::Rejected
            }
        },
        None => WordCheck::Rejected,
    }
}

impl PlayerSession {
    /// A pending dice timer carries a token handed out before: every later
    /// token differs from it.
    pub open spec fn wf(&self) -> bool {
        match self.roll_dice_timeout {
            Some(t) => t < self.next_timer,
            None => true,
        }
    }

    /// A fresh session for `player`: full health, an empty rack, no phase.
    pub fn new(player: User) -> (r: PlayerSession)
        ensures
            r.player == player,
            r.health == START_HEALTH,
            r.letters@.len() == 0,
            r.last_ws_response is None,
            r.roll_dice_timeout is None,
            r.next_timer == 0,
            r.wf(),
    {
        PlayerSession {
            player,
            health: START_HEALTH,
            letters: Vec::new(),
            last_ws_response: None,
            last_word_exists: WordExists { word: String::new(), damage: 0, player_index: 0 },
            roll_dice_timeout: None,
            next_timer: 0,
        }
    }

    /// Gates a client request on the phase: `Join` only before any event,
    /// a word only on a `NextTurn`, a roll only on a `CanRollDice` whose
    /// window is still open (the roll consumes it). Anything else is dropped.
    pub fn handle_request(&mut self, req: WsRequest) -> (r: SessionAction)
        requires
            old(self).wf(),
        ensures
            final(self).wf(),
            final(self).player == old(self).player,
            final(self).health == old(self).health,
            final(self).letters == old(self).letters,
            final(self).last_ws_response == old(self).last_ws_response,
            final(self).last_word_exists == old(self).last_word_exists,
            final(self).next_timer == old(self).next_timer,
            match req {
                WsRequest::Join => {
                    &&& final(self).roll_dice_timeout == old(self).roll_dice_timeout
                    &&& if old(self).last_ws_response is None {
                        r is Join
                    } else {
                        r is Ignore
                    }
                },
                WsRequest::CreateWord(w) => {
                    &&& final(self).roll_dice_timeout == old(self).roll_dice_timeout
                    &&& if old(self).last_ws_response == Some(ResponseKind::NextTurn) {
                        r == SessionAction::CreateWord(w)
                    } else {
                        r is Ignore
                    }
                },
                WsRequest::RollDice => if old(self).last_ws_response == Some(
                    ResponseKind::CanRollDice,
                ) && old(self).roll_dice_timeout is Some {
                    &&& final(self).roll_dice_timeout is None
                    &&& r == SessionAction::RollDice(
                        DiceRolled { word_exists_event: old(self).last_word_exists },
                    )
                } else {
                    &&& final(self).roll_dice_timeout == old(self).roll_dice_timeout
                    &&& r is Ignore
                },
            },
    {
        match req {
            WsRequest::Join => {
                if self.last_ws_response.is_none() {
                    SessionAction::Join
                } else {
                    SessionAction::Ignore
                }
            },
            WsRequest::CreateWord(word) => {
                match self.last_ws_response {
                    Some(ResponseKind::NextTurn) => SessionAction::CreateWord(word),
                    _ => SessionAction::Ignore,
                }
            },
            WsRequest::RollDice => {
                match self.last_ws_response {
                    Some(ResponseKind::CanRollDice) => {
                        if self.roll_dice_timeout.is_some() {
                            self.roll_dice_timeout = None;
                            SessionAction::RollDice(
                                DiceRolled { word_exists_event: self.last_word_exists.duplicate() },
                            )
                        } else {
                            SessionAction::Ignore
                        }
                    },
                    _ => SessionAction::Ignore,
                }
            },
        }
    }

    /// Relays a turn change to the client: any open dice window closes.
    pub fn on_next_turn(&mut self, msg: NextTurn) -> (r: WsResponse)
        requires
            old(self).wf(),
        ensures
            final(self).wf(),
            r == WsResponse::NextTurn(msg),
            final(self).last_ws_response == Some(ResponseKind::NextTurn),
            final(self).roll_dice_timeout is None,
            final(self).player == old(self).player,
            final(self).health == old(self).health,
            final(self).letters == old(self).letters,
            final(self).last_word_exists == old(self).last_word_exists,
            final(self).next_timer == old(self).next_timer,
    {
        self.roll_dice_timeout = None;
        self.last_ws_response = Some(ResponseKind::NextTurn);
        WsResponse::NextTurn(msg)
    }

    /// Relays the start of the game to the client and takes the rack it
    /// brings.
    pub fn on_start_preparation_time(&mut self, msg: StartPreparationTime) -> (r: WsResponse)
        requires
            old(self).wf(),
        ensures
            final(self).wf(),
            final(self).letters@ == msg.letters@,
            r == WsResponse::StartPreparationTime(msg),
            final(self).last_ws_response == Some(ResponseKind::StartPreparationTime),
            final(self).roll_dice_timeout == old(self).roll_dice_timeout,
            final(self).player == old(self).player,
            final(self).health == old(self).health,
            final(self).last_word_exists == old(self).last_word_exists,
            final(self).next_timer == old(self).next_timer,
    {
        self.letters = msg.letters.clone();
        self.last_ws_response = Some(ResponseKind::StartPreparationTime);
        WsResponse::StartPreparationTime(msg)
    }

    /// The countdown before the first turn has elapsed: the first turn, seat
    /// 0's, begins for this client.
    pub fn on_preparation_elapsed(&mut self) -> (r: WsResponse)
        requires
            old(self).wf(),
        ensures
            final(self).wf(),
            r == WsResponse::NextTurn(NextTurn { player_index: 0, seconds: TURN_SECONDS }),
            final(self).last_ws_response == Some(ResponseKind::NextTurn),
            final(self).roll_dice_timeout is None,
            final(self).player == old(self).player,
            final(self).health == old(self).health,
            final(self).letters == old(self).letters,
            final(self).last_word_exists == old(self).last_word_exists,
            final(self).next_timer == old(self).next_timer,
    {
        self.on_next_turn(NextTurn { player_index: 0, seconds: TURN_SECONDS })
    }

    /// Relays a submitted word to the client.
    pub fn on_word_created(&mut self, msg: WordCreated) -> (r: WsResponse)
        requires
            old(self).wf(),
        ensures
            final(self).wf(),
            r == WsResponse::WordCreated(msg),
            final(self).last_ws_response == Some(ResponseKind::WordCreated),
            final(self).roll_dice_timeout == old(self).roll_dice_timeout,
            final(self).player == old(self).player,
            final(self).health == old(self).health,
            final(self).letters == old(self).letters,
            final(self).last_word_exists == old(self).last_word_exists,
            final(self).next_timer == old(self).next_timer,
    {
        self.last_ws_response = Some(ResponseKind::WordCreated);
        WsResponse::WordCreated(msg)
    }

    /// Whether the rack covers `word`: the first step of a word check, taken
    /// before the dictionary is asked.
    pub fn has_letters_for(&self, word: &str) -> (r: bool)
        ensures
            r == can_spell(self.letters@, word@),
    {
        player_has_letters_for_word(self.letters.clone(), word)
    }

    /// Ends a word check once the dictionary has answered: a word that the
    /// dictionary knows and the rack covers is confirmed against a seat of a
    /// full room other than the sender's, drawn at random, with its score as
    /// damage; any other word is rejected. A room seats at least two, so a
    /// seat to hit is always there.
    pub fn check_word_existing(&self, msg: CheckWordExisting, found: bool, has_letters: bool) -> (r:
        WordCheck)
        ensures
            !(found && has_letters) ==> r is Rejected,
            (found && has_letters) ==> (
            r matches WordCheck::Confirmed(e) && e.word == msg.word && e.damage == clamp_u32(
                score(msg.word@),
            ) && e.player_index < MAX_PLAYERS_PER_ROOM && e.player_index != msg.player_index),
            r matches WordCheck::Confirmed(e) ==> e.word == msg.word && e.damage == clamp_u32(
                score(msg.word@),
            ) && e.player_index < MAX_PLAYERS_PER_ROOM && e.player_index != msg.player_index,
    {
        let target = pick_damage_target(msg.player_index, MAX_PLAYERS_PER_ROOM);
        word_check_outcome(msg, found, has_letters, target)
    }

    /// A word was confirmed: keeps the confirmation, opens the dice window
    /// with a fresh timer, and tells the client it may roll.
    pub fn on_word_exists(&mut self, msg: WordExists) -> (r: DiceWindow)
        requires
            old(self).wf(),
        ensures
            final(self).wf(),
            final(self).last_word_exists == msg,
            final(self).last_ws_response == Some(ResponseKind::CanRollDice),
            r.can_roll_dice == (CanRollDice { seconds: ROLL_DICE_SECONDS }),
            final(self).roll_dice_timeout == r.timer,
            old(self).next_timer < u64::MAX ==> r.timer == Some(old(self).next_timer)
                && final(self).next_timer == old(self).next_timer + 1,
            old(self).next_timer == u64::MAX ==> r.timer is None,
            old(self).roll_dice_timeout matches Some(t) ==> r.timer != Some(t),
            final(self).player == old(self).player,
            final(self).health == old(self).health,
            final(self).letters == old(self).letters,
    {
        self.last_word_exists = msg;
        self.last_ws_response = Some(ResponseKind::CanRollDice);
        let timer = if self.next_timer < u64::MAX {
            let token = self.next_timer;
            self.next_timer = token + 1;
            Some(token)
        } else {
            None
        };
        self.roll_dice_timeout = timer;
        DiceWindow { can_roll_dice: CanRollDice { seconds: ROLL_DICE_SECONDS }, timer }
    }

    /// The dice window's timer has fired: where it is still the open window,
    /// the roll resolves now; where the roll or a turn change came first, the
    /// timer is stale and nothing happens.
    pub fn on_roll_dice_timeout(&mut self, token: u64) -> (r: Option<DiceRolled>)
        requires
            old(self).wf(),
        ensures
            final(self).wf(),
            old(self).roll_dice_timeout == Some(token) ==> final(self).roll_dice_timeout is None
                && r == Some(DiceRolled { word_exists_event: old(self).last_word_exists }),
            old(self).roll_dice_timeout != Some(token) ==> final(self).roll_dice_timeout == old(
                self).roll_dice_timeout && r is None,
            final(self).last_ws_response == old(self).last_ws_response,
            final(self).player == old(self).player,
            final(self).health == old(self).health,
            final(self).letters == old(self).letters,
            final(self).last_word_exists == old(self).last_word_exists,
            final(self).next_timer == old(self).next_timer,
    {
        match self.roll_dice_timeout {
            Some(t) => {
                if t == token {
                    self.roll_dice_timeout = None;
                    Some(DiceRolled { word_exists_event: self.last_word_exists.duplicate() })
                } else {
                    None
                }
            },
            None => None,
        }
    }

    /// Resolves a roll: spends the tiles of the word, draws the rack back to
    /// its size before the word, tells the client the new rack and the seat
    /// hit, and hands back the damage to deal.
    pub fn on_dice_rolled(&mut self, msg: DiceRolled) -> (r: RollOutcome)
        requires
            old(self).wf(),
        ensures
            final(self).wf(),
            exists|k: int|
                0 <= k <= final(self).letters@.len() && rack_codes(final(self).letters@.take(k)).to_multiset()
                    == leftover_codes(old(self).letters@, msg.word_exists_event.word@)
                    && final(self).letters@.take(k).to_multiset().subset_of(
                    old(self).letters@.to_multiset(),
                ) && forall|i: int|
                    k <= i < final(self).letters@.len() ==> alphabet().contains(
                        #[trigger] final(self).letters@[i],
                    ),
            old(self).letters@.len() <= ALPHABET_SIZE ==> final(self).letters@.len() == old(
                self).letters@.len(),
            r.response matches WsResponse::DiceRolledResponse(d) && d.amount
                == msg.word_exists_event.player_index && d.new_letters@ == final(self).letters@,
            final(self).letters@.subrange(
                0,
                spend(old(self).letters@, msg.word_exists_event.word@).len() as int,
            ) == spend(old(self).letters@, msg.word_exists_event.word@),
            r.damage == msg.word_exists_event.damage,
            r.target == msg.word_exists_event.player_index,
            final(self).last_ws_response == Some(ResponseKind::DiceRolledResponse),
            final(self).roll_dice_timeout == old(self).roll_dice_timeout,
            final(self).player == old(self).player,
            final(self).health == old(self).health,
            final(self).next_timer == old(self).next_timer,
    {
        let rack_size = self.letters.len();
        let ghost old_letters = self.letters@;
        let kept = remove_used_letters(self.letters.clone(), msg.word_exists_event.word.clone());
        let ghost kept_view = kept@;
        self.letters = draw_missing_letters(kept, rack_size);
        proof {
            assert(self.letters@.take(kept_view.len() as int) =~= kept_view);
        }
        self.last_ws_response = Some(ResponseKind::DiceRolledResponse);
        let response = WsResponse::DiceRolledResponse(
            DiceRolledResponse {
                amount: msg.word_exists_event.player_index,
                new_letters: self.letters.clone(),
            },
        );
        RollOutcome {
            response,
            damage: msg.word_exists_event.damage,
            target: msg.word_exists_event.player_index,
        }
    }

    /// Relays damage dealt to a seat to the client.
    pub fn on_damage_player(&mut self, msg: DamagePlayer) -> (r: WsResponse)
        requires
            old(self).wf(),
        ensures
            final(self).wf(),
            r == WsResponse::DamagePlayer(msg),
            final(self).last_ws_response == Some(ResponseKind::DamagePlayer),
            final(self).roll_dice_timeout == old(self).roll_dice_timeout,
            final(self).player == old(self).player,
            final(self).health == old(self).health,
            final(self).letters == old(self).letters,
            final(self).last_word_exists == old(self).last_word_exists,
            final(self).next_timer == old(self).next_timer,
    {
        self.last_ws_response = Some(ResponseKind::DamagePlayer);
        WsResponse::DamagePlayer(msg)
    }

    /// Takes damage: health goes down by it, never below 0; the player is
    /// eliminated once none is left.
    pub fn on_take_damage(&mut self, msg: TakeDamage) -> (r: (WsResponse, bool))
        requires
            old(self).wf(),
        ensures
            final(self).wf(),
            final(self).health == if old(self).health >= msg.damage {
                (old(self).health - msg.damage) as u32
            } else {
                0u32
            },
            r.0 == WsResponse::TakeDamage(msg),
            r.1 == (final(self).health == 0),
            final(self).last_ws_response == Some(ResponseKind::TakeDamage),
            final(self).roll_dice_timeout == old(self).roll_dice_timeout,
            final(self).player == old(self).player,
            final(self).letters == old(self).letters,
            final(self).last_word_exists == old(self).last_word_exists,
            final(self).next_timer == old(self).next_timer,
    {
        self.health = self.health.saturating_sub(msg.damage);
        self.last_ws_response = Some(ResponseKind::TakeDamage);
        (WsResponse::TakeDamage(msg), self.health == 0)
    }

    /// Relays an elimination to the client.
    pub fn on_player_dead(&mut self, msg: PlayerDead) -> (r: WsResponse)
        requires
            old(self).wf(),
        ensures
            final(self).wf(),
            r == WsResponse::PlayerDead(msg),
            final(self).last_ws_response == Some(ResponseKind::PlayerDead),
            final(self).roll_dice_timeout == old(self).roll_dice_timeout,
            final(self).player == old(self).player,
            final(self).health == old(self).health,
            final(self).letters == old(self).letters,
            final(self).last_word_exists == old(self).last_word_exists,
            final(self).next_timer == old(self).next_timer,
    {
        self.last_ws_response = Some(ResponseKind::PlayerDead);
        WsResponse::PlayerDead(msg)
    }
}

} // verus!
