//! A room: a fixed-capacity group of sessions, its seat order and whose turn it is.
use crate::letters::{alphabet, get_random_letters, MAX_LETTERS};
use crate::messages::{
    CheckWordExisting, DamagePlayer, Delivery, NextTurn, PlayerDead, SessionId, SessionMessage,
    StartPreparationTime, TakeDamage, WordCreated,
};
use crate::user::{copy_users, User};
use vstd::arithmetic::div_mod::{lemma_add_mod_noop_right, lemma_mod_self_0, lemma_small_mod};
use vstd::prelude::*;

verus! {

/// Most players that a room seats.
pub const MAX_PLAYERS_PER_ROOM: usize = 2;

/// Seconds that a seat has to act.
pub const TURN_SECONDS: u64 = 60;

/// Seconds of countdown before the first turn.
pub const PREPARATION_TIME_SECONDS: u64 = 10;

/// Members in seat order, with the identity of each, the seat that acts, and
/// the token of the pending turn timer.
pub struct Room {
    pub users: Vec<User>,
    pub next_turn_timeout: Option<u64>,
    pub sessions: Vec<SessionId>,
    pub turn_of_player_index: usize,
    pub max_players: usize,
    pub game_started: bool,
}

/// `s` followed by `x` at seat `i` removed, with the turn index renumbered: a
/// turn past the removed seat moves down by one; a turn on it passes to
/// the seat that slides into its place, or to seat 0 when none does.
pub open spec fn turn_after_removal(turn: int, i: int, new_len: int) -> int {
    if turn > i {
        turn - 1
    } else if turn == i && i >= new_len {
        0
    } else {
        turn
    }
}

/// The seat after `turn`, counting round a table of `len` members.
pub open spec fn next_seat(turn: int, len: int) -> int {
    if len == 0 {
        0
    } else {
        (turn + 1) % len
    }
}

/// `k` turn advances from `turn` on a table of `len` members.
pub open spec fn seat_after(turn: int, len: int, k: nat) -> int
    decreases k,
{
    if k == 0 {
        turn
    } else {
        next_seat(seat_after(turn, len, (k - 1) as nat), len)
    }
}

impl Room {
    /// Seats and identities line up, no session sits twice, the room holds
    /// at most its capacity, and the turn is on a seat (0 in an empty room).
    pub open spec fn wf(&self) -> bool {
        &&& self.users@.len() == self.sessions@.len()
        &&& self.sessions@.len() <= self.max_players
        &&& self.sessions@.no_duplicates()
        &&& if self.sessions@.len() > 0 {
            self.turn_of_player_index < self.sessions@.len()
        } else {
            self.turn_of_player_index == 0
        }
    }

    /// Whether the room takes no more joins.
    pub open spec fn full(&self) -> bool {
        self.game_started || self.sessions@.len() == self.max_players
    }

    /// An empty room with the given capacity.
    pub fn new(max_players: usize) -> (r: Room)
        ensures
            r.wf(),
            r.users@.len() == 0,
            r.sessions@.len() == 0,
            r.next_turn_timeout is None,
            r.turn_of_player_index == 0,
            r.max_players == max_players,
            !r.game_started,
    {
        Room {
            users: Vec::new(),
            next_turn_timeout: None,
            sessions: Vec::new(),
            turn_of_player_index: 0,
            max_players,
            game_started: false,
        }
    }

    /// The seat of `session`, if it is a member.
    pub fn seat_of(&self, session: SessionId) -> (r: Option<usize>)
        ensures
            r matches Some(i) ==> i < self.sessions@.len() && self.sessions@[i as int] == session,
            r is None ==> !self.sessions@.contains(session),
    {
        let mut i: usize = 0;
        while i < self.sessions.len()
            invariant
                i <= self.sessions@.len(),
                forall|k: int| 0 <= k < i ==> self.sessions@[k] != session,
            decreases self.sessions@.len() - i,
        {
            if self.sessions[i] == session {
                return Some(i);
            }
            i = i + 1;
        }
        None
    }

    /// Whether `session` sits in the seat that acts now.
    pub fn is_player_turn(&self, session: SessionId) -> (r: bool)
        ensures
            r == (self.turn_of_player_index < self.sessions@.len()
                && self.sessions@[self.turn_of_player_index as int] == session),
    {
        self.turn_of_player_index < self.sessions.len()
            && self.sessions[self.turn_of_player_index] == session
    }

    /// Passes the turn to the next seat round the table, replaces the pending
    /// turn timer by `timer`, the token of a timer armed for the new turn, and
    /// tells every member whose turn it is.
    pub fn increase_turn_index(&mut self, timer: Option<u64>) -> (r: Vec<Delivery>)
        requires
            old(self).wf(),
        ensures
            final(self).wf(),
            final(self).turn_of_player_index == next_seat(
                old(self).turn_of_player_index as int,
                old(self).sessions@.len() as int,
            ),
            final(self).next_turn_timeout == timer,
            final(self).users == old(self).users,
            final(self).sessions == old(self).sessions,
            final(self).max_players == old(self).max_players,
            final(self).game_started == old(self).game_started,
            r@.len() == final(self).sessions@.len(),
            forall|i: int|
                0 <= i < r@.len() ==> (#[trigger] r@[i]).to == final(self).sessions@[i]
                    && r@[i].message == SessionMessage::NextTurn(
                    NextTurn {
                        player_index: final(self).turn_of_player_index,
                        seconds: TURN_SECONDS,
                    },
                ),
    {
        self.next_turn_timeout = timer;
        let n = self.sessions.len();
        if n == 0 {
            self.turn_of_player_index = 0;
        } else if self.turn_of_player_index < n - 1 {
            proof {
                lemma_small_mod((self.turn_of_player_index + 1) as nat, n as nat);
            }
            self.turn_of_player_index = self.turn_of_player_index + 1;
        } else {
            proof {
                lemma_mod_self_0(n as int);
            }
            self.turn_of_player_index = 0;
        }
        let mut r: Vec<Delivery> = Vec::new();
        let mut i: usize = 0;
        while i < n
            invariant
                n == self.sessions@.len(),
                i <= n,
                r@.len() == i,
                forall|k: int|
                    0 <= k < i ==> (#[trigger] r@[k]).to == self.sessions@[k] && r@[k].message
                        == SessionMessage::NextTurn(
                        NextTurn {
                            player_index: self.turn_of_player_index,
                            seconds: TURN_SECONDS,
                        },
                    ),
            decreases n - i,
        {
            r.push(
                Delivery {
                    to: self.sessions[i],
                    message: SessionMessage::NextTurn(
                        NextTurn { player_index: self.turn_of_player_index, seconds: TURN_SECONDS },
                    ),
                },
            );
            i = i + 1;
        }
        r
    }

    /// Seats `user` at the end of the table, unless the game has started, the
    /// room is at capacity, or `session` already sits in it.
    pub fn add_player(&mut self, user: User, session: SessionId)
        requires
            old(self).wf(),
        ensures
            final(self).wf(),
            if !old(self).game_started && old(self).sessions@.len() < old(self).max_players
                && !old(self).sessions@.contains(session) {
                &&& final(self).sessions@ == old(self).sessions@.push(session)
                &&& final(self).users@ == old(self).users@.push(user)
            } else {
                &&& final(self).sessions == old(self).sessions
                &&& final(self).users == old(self).users
            },
            final(self).turn_of_player_index == old(self).turn_of_player_index,
            final(self).next_turn_timeout == old(self).next_turn_timeout,
            final(self).max_players == old(self).max_players,
            final(self).game_started == old(self).game_started,
    {
        let is_player_already_in_room = self.seat_of(session).is_some();
        if !self.game_started && self.sessions.len() < self.max_players
            && !is_player_already_in_room {
            self.sessions.push(session);
            self.users.push(user);
        }
    }

    /// Whether the game has started or every seat is taken.
    pub fn is_full(&self) -> (r: bool)
        requires
            self.wf(),
        ensures
            r == self.full(),
    {
        self.game_started || self.sessions.len() == self.max_players
    }

    /// Starts the game: every member gets the countdown before the first
    /// turn, the players in seat order, and a rack freshly drawn for it.
    pub fn start_game(&mut self) -> (r: Vec<Delivery>)
        requires
            old(self).wf(),
        ensures
            final(self).wf(),
            final(self).game_started,
            final(self).users == old(self).users,
            final(self).sessions == old(self).sessions,
            final(self).turn_of_player_index == old(self).turn_of_player_index,
            final(self).next_turn_timeout == old(self).next_turn_timeout,
            final(self).max_players == old(self).max_players,
            r@.len() == final(self).sessions@.len(),
            forall|i: int|
                0 <= i < r@.len() ==> (#[trigger] r@[i]).to == final(self).sessions@[i] && (
                r@[i].message matches SessionMessage::StartPreparationTime(m) && m.seconds
                    == PREPARATION_TIME_SECONDS && m.users@ == final(self).users@
                    && m.letters@.len() == MAX_LETTERS && m.letters@.no_duplicates() && forall|
                    j: int,
                | 0 <= j < m.letters@.len() ==> alphabet().contains(#[trigger] m.letters@[j])),
    {
        self.game_started = true;
        let n = self.sessions.len();
        let mut r: Vec<Delivery> = Vec::new();
        let mut i: usize = 0;
        while i < n
            invariant
                n == self.sessions@.len(),
                i <= n,
                r@.len() == i,
                forall|k: int|
                    0 <= k < i ==> (#[trigger] r@[k]).to == self.sessions@[k] && (
                    r@[k].message matches SessionMessage::StartPreparationTime(m) && m.seconds
                        == PREPARATION_TIME_SECONDS && m.users@ == self.users@
                        && m.letters@.len() == MAX_LETTERS && m.letters@.no_duplicates()
                        && forall|j: int|
                        0 <= j < m.letters@.len() ==> alphabet().contains(
                            #[trigger] m.letters@[j],
                        )),
            decreases n - i,
        {
            let message = StartPreparationTime {
                seconds: PREPARATION_TIME_SECONDS,
                users: copy_users(&self.users),
                letters: get_random_letters(MAX_LETTERS),
            };
            r.push(
                Delivery {
                    to: self.sessions[i],
                    message: SessionMessage::StartPreparationTime(message),
                },
            );
            i = i + 1;
        }
        r
    }

    /// Announces to every member the word that `session` submitted, then asks
    /// that session alone to validate it; nothing where `session` has no seat.
    pub fn on_word_created(&self, word: String, session: SessionId) -> (r: Vec<Delivery>)
        requires
            self.wf(),
        ensures
            !self.sessions@.contains(session) ==> r@.len() == 0,
            forall|i: int|
                0 <= i < self.sessions@.len() && self.sessions@[i] == session ==> {
                    &&& r@.len() == self.sessions@.len() + 1
                    &&& forall|k: int|
                        0 <= k < self.sessions@.len() ==> (#[trigger] r@[k]).to
                            == self.sessions@[k] && r@[k].message == SessionMessage::WordCreated(
                            WordCreated { player_index: i as usize, word },
                        )
                    &&& r@.last().to == session
                    &&& r@.last().message == SessionMessage::CheckWordExisting(
                        CheckWordExisting { player_index: i as usize, word },
                    )
                },
    {
        let player_index = match self.seat_of(session) {
            Some(index) => index,
            None => {
                return Vec::new();
            },
        };
        let n = self.sessions.len();
        let mut r: Vec<Delivery> = Vec::new();
        let mut k: usize = 0;
        while k < n
            invariant
                n == self.sessions@.len(),
                k <= n,
                r@.len() == k,
                forall|j: int|
                    0 <= j < k ==> (#[trigger] r@[j]).to == self.sessions@[j] && r@[j].message
                        == SessionMessage::WordCreated(WordCreated { player_index, word }),
            decreases n - k,
        {
            r.push(
                Delivery {
                    to: self.sessions[k],
                    message: SessionMessage::WordCreated(
                        WordCreated { player_index, word: word.clone() },
                    ),
                },
            );
            k = k + 1;
        }
        r.push(
            Delivery {
                to: self.sessions[player_index],
                message: SessionMessage::CheckWordExisting(CheckWordExisting { player_index, word }),
            },
        );
        proof {
            assert forall|i: int|
                0 <= i < self.sessions@.len() && self.sessions@[i] == session implies i
                == player_index by {
                if i != player_index {
                    assert(self.sessions@.no_duplicates());
                }
            }
        }
        r
    }

    /// Deals `damage` to the member at seat `player_index` and tells every
    /// member of it; a seat past the last one is no seat, and nothing is sent.
    pub fn on_damage_player(&self, damage: u32, player_index: usize) -> (r: Vec<Delivery>)
        requires
            self.wf(),
        ensures
            player_index >= self.sessions@.len() ==> r@.len() == 0,
            player_index < self.sessions@.len() ==> {
                &&& r@.len() == self.sessions@.len() + 1
                &&& r@[0].to == self.sessions@[player_index as int]
                &&& r@[0].message == SessionMessage::TakeDamage(TakeDamage { damage })
                &&& forall|k: int|
                    0 <= k < self.sessions@.len() ==> (#[trigger] r@[k + 1]).to
                        == self.sessions@[k] && r@[k + 1].message == SessionMessage::DamagePlayer(
                        DamagePlayer { player_index, damage },
                    )
            },
    {
        let n = self.sessions.len();
        let mut r: Vec<Delivery> = Vec::new();
        if player_index >= n {
            return r;
        }
        r.push(
            Delivery {
                to: self.sessions[player_index],
                message: SessionMessage::TakeDamage(TakeDamage { damage }),
            },
        );
        let mut k: usize = 0;
        while k < n
            invariant
                n == self.sessions@.len(),
                player_index < n,
                k <= n,
                r@.len() == k + 1,
                r@[0].to == self.sessions@[player_index as int],
                r@[0].message == SessionMessage::TakeDamage(TakeDamage { damage }),
                forall|j: int|
                    0 <= j < k ==> (#[trigger] r@[j + 1]).to == self.sessions@[j] && r@[j
                        + 1].message == SessionMessage::DamagePlayer(
                        DamagePlayer { player_index, damage },
                    ),
            decreases n - k,
        {
            r.push(
                Delivery {
                    to: self.sessions[k],
                    message: SessionMessage::DamagePlayer(DamagePlayer { player_index, damage }),
                },
            );
            k = k + 1;
        }
        r
    }

    /// Removes the seat of `session` from the table: every later seat moves
    /// down by one and the turn index follows its seat. The eliminated
    /// session hears of it first, then every remaining member. Nothing where
    /// `session` has no seat.
    pub fn on_player_dead(&mut self, session: SessionId) -> (r: Vec<Delivery>)
        requires
            old(self).wf(),
        ensures
            final(self).wf(),
            final(self).max_players == old(self).max_players,
            final(self).game_started == old(self).game_started,
            final(self).next_turn_timeout == old(self).next_turn_timeout,
            !old(self).sessions@.contains(session) ==> {
                &&& final(self).sessions == old(self).sessions
                &&& final(self).users == old(self).users
                &&& final(self).turn_of_player_index == old(self).turn_of_player_index
                &&& r@.len() == 0
            },
            forall|i: int|
                0 <= i < old(self).sessions@.len() && old(self).sessions@[i] == session ==> {
                    &&& final(self).sessions@ == old(self).sessions@.remove(i)
                    &&& final(self).users@ == old(self).users@.remove(i)
                    &&& final(self).turn_of_player_index == turn_after_removal(
                        old(self).turn_of_player_index as int,
                        i,
                        final(self).sessions@.len() as int,
                    )
                    &&& r@.len() == final(self).sessions@.len() + 1
                    &&& r@[0].to == session
                    &&& r@[0].message == SessionMessage::PlayerDead(
                        PlayerDead { player_index: i as usize },
                    )
                    &&& forall|k: int|
                        0 <= k < final(self).sessions@.len() ==> (#[trigger] r@[k + 1]).to
                            == final(self).sessions@[k] && r@[k + 1].message
                            == SessionMessage::PlayerDead(PlayerDead { player_index: i as usize })
                },
    {
        let player_index = match self.seat_of(session) {
            Some(index) => index,
            None => {
                return Vec::new();
            },
        };
        let ghost before = self.sessions@;
        proof {
            assert forall|i: int|
                0 <= i < before.len() && before[i] == session implies i == player_index by {
                if i != player_index {
                    assert(before.no_duplicates());
                }
            }
        }
        self.users.remove(player_index);
        self.sessions.remove(player_index);
        let n = self.sessions.len();
        if self.turn_of_player_index > player_index {
            self.turn_of_player_index = self.turn_of_player_index - 1;
        } else if self.turn_of_player_index == player_index && player_index >= n {
            self.turn_of_player_index = 0;
        }
        assert(self.sessions@.no_duplicates()) by {
            assert forall|a: int, b: int|
                0 <= a < self.sessions@.len() && 0 <= b < self.sessions@.len() && a != b implies
                self.sessions@[a] != self.sessions@[b] by {
                let a0 = if a < player_index { a } else { a + 1 };
                let b0 = if b < player_index { b } else { b + 1 };
                assert(self.sessions@[a] == before[a0]);
                assert(self.sessions@[b] == before[b0]);
            }
        }
        let mut r: Vec<Delivery> = Vec::new();
        r.push(
            Delivery { to: session, message: SessionMessage::PlayerDead(PlayerDead { player_index }) },
        );
        let mut k: usize = 0;
        while k < n
            invariant
                n == self.sessions@.len(),
                k <= n,
                r@.len() == k + 1,
                r@[0].to == session,
                r@[0].message == SessionMessage::PlayerDead(PlayerDead { player_index }),
                forall|j: int|
                    0 <= j < k ==> (#[trigger] r@[j + 1]).to == self.sessions@[j] && r@[j
                        + 1].message == SessionMessage::PlayerDead(PlayerDead { player_index }),
            decreases n - k,
        {
            r.push(
                Delivery {
                    to: self.sessions[k],
                    message: SessionMessage::PlayerDead(PlayerDead { player_index }),
                },
            );
            k = k + 1;
        }
        r
    }
}

/// From seat 0, `k` turn advances with no elimination between them leave the
/// turn on seat `k mod len`.
pub proof fn lemma_turns_cycle(len: int, k: nat)
    requires
        len > 0,
    ensures
        seat_after(0, len, k) == (k as int) % len,
    decreases k,
{
    if k == 0 {
        lemma_small_mod(0, len as nat);
    } else {
        lemma_turns_cycle(len, (k - 1) as nat);
        lemma_add_mod_noop_right(1, k - 1, len);
    }
}

/// Removing seat `i` moves every later seat `j` down to `j - 1`, keeps every
/// earlier seat where it was, and renumbers a turn on a later seat the same way.
pub proof fn lemma_elimination_shifts_seats(sessions: Seq<SessionId>, i: int, j: int)
    requires
        0 <= i < sessions.len(),
        0 <= j < sessions.len(),
        j != i,
    ensures
        j > i ==> sessions.remove(i)[j - 1] == sessions[j],
        j > i ==> turn_after_removal(j, i, sessions.len() - 1) == j - 1,
        j < i ==> sessions.remove(i)[j] == sessions[j],
        j < i ==> turn_after_removal(j, i, sessions.len() - 1) == j,
        sessions.remove(i).len() == sessions.len() - 1,
{
}

} // verus!
