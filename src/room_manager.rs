//! The room manager: matchmaking, routing of game events to the room that
//! seats their sender, and the turn timers of all rooms.
use crate::letters::{alphabet, MAX_LETTERS};
use crate::messages::{
    CheckWordExisting, CreateWord, DamagePlayer, Delivery, Join, NextTurn, PlayerDead,
    RoomDamagePlayer, RoomNextTurn, RoomNextTurnTimeoutInit, RoomPlayerDead, SessionId,
    SessionMessage, TakeDamage, WordCreated,
};
use crate::room::{
    next_seat, turn_after_removal, Room, MAX_PLAYERS_PER_ROOM, PREPARATION_TIME_SECONDS, TURN_SECONDS,
};
use vstd::prelude::*;

verus! {

/// What a turn change produces: the messages to deliver, and the token of the
/// turn timer that was armed, which the caller schedules.
#[derive(Debug)]
pub struct TurnChange {
    pub deliveries: Vec<Delivery>,
    pub timer: Option<u64>,
}

/// All rooms, newest last, and the token that the next turn timer gets.
pub struct RoomManager {
    pub rooms: Vec<Room>,
    pub next_timer: u64,
}

/// Whether a room seats `s`.
pub open spec fn seats(r: Room, s: SessionId) -> bool {
    r.sessions@.contains(s)
}

/// Whether some room of `rooms` has `t` as its pending turn timer.
pub open spec fn timer_pending(rooms: Seq<Room>, t: u64) -> bool {
    exists|i: int| 0 <= i < rooms.len() && (#[trigger] rooms[i]).next_turn_timeout == Some(t)
}

/// `new` is `old` with the pending turn timer of room `i` cleared and nothing
/// else of the timers changed.
pub open spec fn timer_cleared(old_rooms: Seq<Room>, new_rooms: Seq<Room>, i: int) -> bool {
    &&& new_rooms.len() == old_rooms.len()
    &&& new_rooms[i].next_turn_timeout is None
    &&& forall|j: int|
        0 <= j < new_rooms.len() && j != i ==> (#[trigger] new_rooms[j]).next_turn_timeout
            == old_rooms[j].next_turn_timeout
}


/// Changing one room, keeping it well formed, seating nobody new in it and
/// either keeping or clearing its turn timer or giving it the next fresh
/// token, keeps the manager well formed.
proof fn lemma_room_update_wf(old_m: RoomManager, new_m: RoomManager, i: int)
    requires
        old_m.wf(),
        0 <= i < old_m.rooms@.len(),
        new_m.rooms@.len() == old_m.rooms@.len(),
        forall|j: int|
            0 <= j < new_m.rooms@.len() && j != i ==> #[trigger] new_m.rooms@[j] == old_m.rooms@[j],
        new_m.rooms@[i].wf(),
        new_m.rooms@[i].max_players == MAX_PLAYERS_PER_ROOM,
        forall|x: SessionId| seats(new_m.rooms@[i], x) ==> seats(old_m.rooms@[i], x),
        new_m.rooms@[i].next_turn_timeout is None || new_m.rooms@[i].next_turn_timeout
            == old_m.rooms@[i].next_turn_timeout || (new_m.rooms@[i].next_turn_timeout == Some(
            old_m.next_timer,
        ) && new_m.next_timer > old_m.next_timer),
        new_m.next_timer >= old_m.next_timer,
    ensures
        new_m.wf(),
{
    let rooms = new_m.rooms@;
    let old_rooms = old_m.rooms@;
    assert forall|a: int| 0 <= a < rooms.len() implies (#[trigger] rooms[a]).wf()
        && rooms[a].max_players == MAX_PLAYERS_PER_ROOM && match rooms[a].next_turn_timeout {
        Some(t) => t < new_m.next_timer,
        None => true,
    } by {
        assert(old_rooms[a].wf());
        assert(match old_rooms[a].next_turn_timeout {
            Some(t) => t < old_m.next_timer,
            None => true,
        });
    }
    assert forall|a: int, b: int, x: SessionId|
        #![trigger seats(rooms[a], x), seats(rooms[b], x)]
        0 <= a < rooms.len() && 0 <= b < rooms.len() && a != b && seats(
            rooms[a],
            x,
        ) implies !seats(rooms[b], x) by {
        assert(seats(old_rooms[a], x));
        if seats(rooms[b], x) {
            assert(seats(old_rooms[b], x));
        }
    }
    assert forall|a: int, b: int|
        0 <= a < rooms.len() && 0 <= b < rooms.len() && a != b
            && (#[trigger] rooms[a]).next_turn_timeout is Some implies (#[trigger] rooms[b]).next_turn_timeout
        != rooms[a].next_turn_timeout by {
        let fresh = Some(old_m.next_timer);
        assert(match old_rooms[a].next_turn_timeout {
            Some(t) => t < old_m.next_timer,
            None => true,
        });
        assert(match old_rooms[b].next_turn_timeout {
            Some(t) => t < old_m.next_timer,
            None => true,
        });
        if rooms[a].next_turn_timeout == fresh && a == i {
            assert(rooms[b] == old_rooms[b]);
        } else if rooms[b].next_turn_timeout == fresh && b == i {
            assert(rooms[a] == old_rooms[a]);
        } else {
            assert(old_rooms[a].next_turn_timeout is Some);
            assert(old_rooms[a].next_turn_timeout == rooms[a].next_turn_timeout);
            if rooms[b].next_turn_timeout is Some {
                assert(old_rooms[b].next_turn_timeout == rooms[b].next_turn_timeout);
            }
        }
    }
}

/// Room `i` of `old_m` has passed its turn, giving `new_m` and `r`: every
/// other room is as it was; room `i` keeps its members; the turn moves to the
/// next seat; the next fresh token, where one is left, becomes its pending
/// turn timer; and every member is told, in seat order, whose turn it is.
pub open spec fn turn_passed(old_m: RoomManager, new_m: RoomManager, i: int, r: TurnChange) -> bool {
    let before = old_m.rooms@[i];
    let after = new_m.rooms@[i];
    &&& new_m.rooms@.len() == old_m.rooms@.len()
    &&& forall|j: int|
        0 <= j < new_m.rooms@.len() && j != i ==> #[trigger] new_m.rooms@[j] == old_m.rooms@[j]
    &&& after.sessions == before.sessions
    &&& after.users == before.users
    &&& after.game_started == before.game_started
    &&& after.max_players == before.max_players
    &&& after.turn_of_player_index == next_seat(
        before.turn_of_player_index as int,
        before.sessions@.len() as int,
    )
    &&& after.next_turn_timeout == r.timer
    &&& if old_m.next_timer < u64::MAX {
        r.timer == Some(old_m.next_timer) && new_m.next_timer == old_m.next_timer + 1
    } else {
        r.timer is None && new_m.next_timer == old_m.next_timer
    }
    &&& r.deliveries@.len() == after.sessions@.len()
    &&& forall|k: int|
        0 <= k < r.deliveries@.len() ==> (#[trigger] r.deliveries@[k]).to == after.sessions@[k]
            && r.deliveries@[k].message == SessionMessage::NextTurn(
            NextTurn { player_index: after.turn_of_player_index, seconds: TURN_SECONDS },
        )
}

impl RoomManager {
    /// At least one room; every room well formed and of the configured
    /// capacity; no session seated in two rooms; pending timer tokens below
    /// the next one and pairwise distinct.
    pub open spec fn wf(&self) -> bool {
        &&& self.rooms@.len() > 0
        &&& forall|i: int|
            0 <= i < self.rooms@.len() ==> (#[trigger] self.rooms@[i]).wf()
                && self.rooms@[i].max_players == MAX_PLAYERS_PER_ROOM
        &&& forall|i: int, j: int, s: SessionId|
            #![trigger seats(self.rooms@[i], s), seats(self.rooms@[j], s)]
            0 <= i < self.rooms@.len() && 0 <= j < self.rooms@.len() && i != j && seats(
                self.rooms@[i],
                s,
            ) ==> !seats(self.rooms@[j], s)
        &&& forall|i: int|
            0 <= i < self.rooms@.len() ==> match (#[trigger] self.rooms@[i]).next_turn_timeout {
                Some(t) => t < self.next_timer,
                None => true,
            }
        &&& forall|i: int, j: int|
            0 <= i < self.rooms@.len() && 0 <= j < self.rooms@.len() && i != j
                && (#[trigger] self.rooms@[i]).next_turn_timeout is Some ==> (#[trigger] self.rooms@[j]).next_turn_timeout
                != self.rooms@[i].next_turn_timeout
    }

    /// A manager with one empty room.
    pub fn new() -> (r: RoomManager)
        ensures
            r.wf(),
            r.rooms@.len() == 1,
            r.rooms@[0].sessions@.len() == 0,
            !r.rooms@[0].game_started,
    {
        let mut rooms: Vec<Room> = Vec::new();
        rooms.push(Room::new(MAX_PLAYERS_PER_ROOM));
        RoomManager { rooms, next_timer: 0 }
    }

    /// The room that seats `session`.
    pub fn find_room(&self, session: SessionId) -> (r: Option<usize>)
        requires
            self.wf(),
        ensures
            r matches Some(i) ==> i < self.rooms@.len() && seats(self.rooms@[i as int], session),
            r is None ==> forall|i: int|
                0 <= i < self.rooms@.len() ==> !seats(#[trigger] self.rooms@[i], session),
    {
        let mut i: usize = 0;
        while i < self.rooms.len()
            invariant
                i <= self.rooms@.len(),
                forall|k: int| 0 <= k < i ==> !seats(#[trigger] self.rooms@[k], session),
            decreases self.rooms@.len() - i,
        {
            if self.rooms[i].seat_of(session).is_some() {
                return Some(i);
            }
            i = i + 1;
        }
        None
    }

    /// The room whose pending turn timer is `token`.
    pub fn find_timer(&self, token: u64) -> (r: Option<usize>)
        ensures
            r matches Some(i) ==> i < self.rooms@.len() && self.rooms@[i as int].next_turn_timeout
                == Some(token),
            r is None ==> !timer_pending(self.rooms@, token),
    {
        let mut i: usize = 0;
        while i < self.rooms.len()
            invariant
                i <= self.rooms@.len(),
                forall|k: int|
                    0 <= k < i ==> (#[trigger] self.rooms@[k]).next_turn_timeout != Some(token),
            decreases self.rooms@.len() - i,
        {
            if let Some(t) = self.rooms[i].next_turn_timeout {
                if t == token {
                    return Some(i);
                }
            }
            i = i + 1;
        }
        None
    }


    /// Arms a fresh turn timer on room `i` and returns its token; none is
    /// armed once the tokens have run out.
    fn arm_turn_timer(&mut self, i: usize) -> (r: Option<u64>)
        requires
            old(self).wf(),
            i < old(self).rooms@.len(),
            old(self).rooms@[i as int].next_turn_timeout is None,
        ensures
            final(self).wf(),
            final(self).rooms@.len() == old(self).rooms@.len(),
            forall|j: int|
                0 <= j < final(self).rooms@.len() && j != i ==> #[trigger] final(self).rooms@[j]
                    == old(self).rooms@[j],
            final(self).rooms@[i as int].sessions == old(self).rooms@[i as int].sessions,
            final(self).rooms@[i as int].users == old(self).rooms@[i as int].users,
            final(self).rooms@[i as int].turn_of_player_index == old(self).rooms@[i as int].turn_of_player_index,
            final(self).rooms@[i as int].game_started == old(self).rooms@[i as int].game_started,
            final(self).rooms@[i as int].next_turn_timeout == r,
            old(self).next_timer < u64::MAX ==> r == Some(old(self).next_timer),
            old(self).next_timer == u64::MAX ==> r is None,
    {
        if self.next_timer == u64::MAX {
            return None;
        }
        let token = self.next_timer;
        let ghost old_rooms = self.rooms@;
        self.rooms[i].next_turn_timeout = Some(token);
        self.next_timer = token + 1;
        proof {
            let rooms = self.rooms@;
            assert forall|a: int, b: int, x: SessionId|
                #![trigger seats(rooms[a], x), seats(rooms[b], x)]
                0 <= a < rooms.len() && 0 <= b < rooms.len() && a != b && seats(
                    rooms[a],
                    x,
                ) implies !seats(rooms[b], x) by {
                assert(rooms[a].sessions == old_rooms[a].sessions);
                assert(rooms[b].sessions == old_rooms[b].sessions);
                assert(seats(old_rooms[a], x));
                assert(!seats(old_rooms[b], x));
            }
            assert forall|a: int, b: int|
                0 <= a < rooms.len() && 0 <= b < rooms.len() && a != b
                    && (#[trigger] rooms[a]).next_turn_timeout is Some implies (#[trigger] rooms[b]).next_turn_timeout
                != rooms[a].next_turn_timeout by {
                if a != i && b != i {
                    assert(old_rooms[a].next_turn_timeout is Some);
                }
                if a != i {
                    assert(old_rooms[a].next_turn_timeout is Some);
                }
            }
        }
        Some(token)
    }


    /// Passes the turn in room `i` and arms a fresh turn timer for it.
    fn advance_room(&mut self, i: usize) -> (r: TurnChange)
        requires
            old(self).wf(),
            i < old(self).rooms@.len(),
        ensures
            final(self).wf(),
            turn_passed(*old(self), *final(self), i as int, r),
    {
        let ghost old_m = *self;
        let timer = if self.next_timer < u64::MAX {
            Some(self.next_timer)
        } else {
            None
        };
        let deliveries = self.rooms[i].increase_turn_index(timer);
        if timer.is_some() {
            self.next_timer = self.next_timer + 1;
        }
        proof {
            lemma_room_update_wf(old_m, *self, i as int);
        }
        TurnChange { deliveries, timer }
    }

    /// Passes the turn in the room that seats the sender, as after a
    /// resolved or rejected word; nothing where no room seats it.
    pub fn next_turn(&mut self, msg: RoomNextTurn) -> (r: TurnChange)
        requires
            old(self).wf(),
        ensures
            final(self).wf(),
            (forall|i: int|
                0 <= i < old(self).rooms@.len() ==> !seats(
                    #[trigger] old(self).rooms@[i],
                    msg.session_addr,
                )) ==> *final(self) == *old(self) && r.deliveries@.len() == 0 && r.timer is None,
            forall|i: int|
                0 <= i < old(self).rooms@.len() && seats(
                    #[trigger] old(self).rooms@[i],
                    msg.session_addr,
                ) ==> turn_passed(*old(self), *final(self), i, r),
    {
        match self.find_room(msg.session_addr) {
            Some(i) => {
                proof {
                    self.lemma_one_room(i as int, msg.session_addr);
                }
                self.advance_room(i)
            },
            None => TurnChange { deliveries: Vec::new(), timer: None },
        }
    }

    /// A turn timer has fired: where `token` is still the pending timer of a
    /// room, its turn passes as if its acting seat had passed; otherwise the
    /// timer is stale and nothing happens.
    pub fn turn_timeout(&mut self, token: u64) -> (r: TurnChange)
        requires
            old(self).wf(),
        ensures
            final(self).wf(),
            !timer_pending(old(self).rooms@, token) ==> *final(self) == *old(self)
                && r.deliveries@.len() == 0 && r.timer is None,
            forall|i: int|
                0 <= i < old(self).rooms@.len() && (#[trigger] old(self).rooms@[i]).next_turn_timeout == Some(token) ==> turn_passed(
                    *old(self),
                    *final(self),
                    i,
                    r,
                ) && r.timer != Some(token),
    {
        match self.find_timer(token) {
            Some(i) => {
                proof {
                    assert forall|j: int|
                        0 <= j < self.rooms@.len() && (#[trigger] self.rooms@[j]).next_turn_timeout
                            == Some(token) implies j == i by {
                        if j != i {
                            assert(self.rooms@[i as int].next_turn_timeout is Some);
                        }
                    }
                    assert(self.rooms@[i as int].next_turn_timeout == Some(token));
                    assert(token < self.next_timer);
                }
                self.advance_room(i)
            },
            None => TurnChange { deliveries: Vec::new(), timer: None },
        }
    }

    /// Arms the turn timer of the room that seats the sender, unless one is
    /// pending there; returns the token of the timer armed.
    pub fn next_turn_timeout_init(&mut self, msg: RoomNextTurnTimeoutInit) -> (r: Option<u64>)
        requires
            old(self).wf(),
        ensures
            final(self).wf(),
            (forall|i: int|
                0 <= i < old(self).rooms@.len() ==> !seats(
                    #[trigger] old(self).rooms@[i],
                    msg.session_addr,
                )) ==> final(self).rooms == old(self).rooms && r is None,
            forall|i: int|
                0 <= i < old(self).rooms@.len() && seats(
                    #[trigger] old(self).rooms@[i],
                    msg.session_addr,
                ) ==> if old(self).rooms@[i].next_turn_timeout is Some {
                    final(self).rooms == old(self).rooms && r is None
                } else {
                    &&& final(self).rooms@.len() == old(self).rooms@.len()
                    &&& forall|j: int|
                        0 <= j < final(self).rooms@.len() && j != i ==> #[trigger] final(self).rooms@[j]
                            == old(self).rooms@[j]
                    &&& final(self).rooms@[i].sessions == old(self).rooms@[i].sessions
                    &&& final(self).rooms@[i].users == old(self).rooms@[i].users
                    &&& final(self).rooms@[i].game_started == old(self).rooms@[i].game_started
                    &&& final(self).rooms@[i].turn_of_player_index
                        == old(self).rooms@[i].turn_of_player_index
                    &&& final(self).rooms@[i].next_turn_timeout == r
                    &&& old(self).next_timer < u64::MAX ==> r == Some(old(self).next_timer)
                },
    {
        match self.find_room(msg.session_addr) {
            Some(i) => {
                proof {
                    self.lemma_one_room(i as int, msg.session_addr);
                }
                if self.rooms[i].next_turn_timeout.is_some() {
                    return None;
                }
                self.arm_turn_timer(i)
            },
            None => None,
        }
    }

    /// A session seated in room `i` is seated in no other room.
    proof fn lemma_one_room(&self, i: int, s: SessionId)
        requires
            self.wf(),
            0 <= i < self.rooms@.len(),
            seats(self.rooms@[i], s),
        ensures
            forall|j: int|
                0 <= j < self.rooms@.len() && seats(#[trigger] self.rooms@[j], s) ==> j == i,
    {
        assert forall|j: int|
            0 <= j < self.rooms@.len() && seats(#[trigger] self.rooms@[j], s) implies j == i by {
            if j != i {
                assert(!seats(self.rooms@[j], s));
            }
        }
    }

    /// Seats a player: in the newest room while it takes joins, starting the
    /// game as soon as that fills it; in a new room otherwise. A session that
    /// some room already seats is not seated again.
    pub fn join(&mut self, msg: Join) -> (r: Vec<Delivery>)
        requires
            old(self).wf(),
        ensures
            final(self).wf(),
            final(self).next_timer == old(self).next_timer,
            (exists|i: int|
                0 <= i < old(self).rooms@.len() && seats(
                    #[trigger] old(self).rooms@[i],
                    msg.session_addr,
                )) ==> final(self).rooms == old(self).rooms && r@.len() == 0,
            (forall|i: int|
                0 <= i < old(self).rooms@.len() ==> !seats(
                    #[trigger] old(self).rooms@[i],
                    msg.session_addr,
                )) ==> if old(self).rooms@.last().full() {
                &&& final(self).rooms@.len() == old(self).rooms@.len() + 1
                &&& final(self).rooms@.drop_last() == old(self).rooms@
                &&& final(self).rooms@.last().sessions@ == seq![msg.session_addr]
                &&& final(self).rooms@.last().users@ == seq![msg.user]
                &&& !final(self).rooms@.last().game_started
                &&& r@.len() == 0
            } else {
                &&& final(self).rooms@.len() == old(self).rooms@.len()
                &&& final(self).rooms@.drop_last() == old(self).rooms@.drop_last()
                &&& final(self).rooms@.last().sessions@ == old(self).rooms@.last().sessions@.push(
                    msg.session_addr,
                )
                &&& final(self).rooms@.last().users@ == old(self).rooms@.last().users@.push(
                    msg.user,
                )
                &&& final(self).rooms@.last().game_started == (
                final(self).rooms@.last().sessions@.len() == MAX_PLAYERS_PER_ROOM)
                &&& if final(self).rooms@.last().game_started {
                    &&& r@.len() == final(self).rooms@.last().sessions@.len()
                    &&& forall|k: int|
                        0 <= k < r@.len() ==> (#[trigger] r@[k]).to
                            == final(self).rooms@.last().sessions@[k] && (
                        r@[k].message matches SessionMessage::StartPreparationTime(m)
                            && m.seconds == PREPARATION_TIME_SECONDS
                            && m.users@ == final(self).rooms@.last().users@
                            && m.letters@.len() == MAX_LETTERS && m.letters@.no_duplicates()
                            && forall|j: int|
                            0 <= j < m.letters@.len() ==> alphabet().contains(
                                #[trigger] m.letters@[j],
                            ))
                } else {
                    r@.len() == 0
                }
            },
    {
        let session = msg.session_addr;
        if self.find_room(session).is_some() {
            return Vec::new();
        }
        let ghost old_rooms = self.rooms@;
        let last = self.rooms.len() - 1;
        if self.rooms[last].is_full() {
            let mut new_room = Room::new(MAX_PLAYERS_PER_ROOM);
            new_room.add_player(msg.user, session);
            self.rooms.push(new_room);
            proof {
                let rooms = self.rooms@;
                assert(rooms.drop_last() =~= old_rooms);
                assert forall|i: int, j: int, x: SessionId|
                    #![trigger seats(rooms[i], x), seats(rooms[j], x)]
                    0 <= i < rooms.len() && 0 <= j < rooms.len() && i != j && seats(
                        rooms[i],
                        x,
                    ) implies !seats(rooms[j], x) by {
                    if i < old_rooms.len() && j < old_rooms.len() {
                        assert(seats(old_rooms[i], x));
                    }
                    if i == old_rooms.len() {
                        assert(rooms[i].sessions@[0] == x);
                    }
                    if j == old_rooms.len() && seats(rooms[j], x) {
                        assert(rooms[j].sessions@[0] == x);
                    }
                }
            }
            Vec::new()
        } else {
            assert(!seats(old_rooms[last as int], session));
            self.rooms[last].add_player(msg.user, session);
            assert(self.rooms@[last as int].sessions@ == old_rooms[last as int].sessions@.push(session));
            let r = if self.rooms[last].is_full() {
                self.rooms[last].start_game()
            } else {
                Vec::new()
            };
            proof {
                let rooms = self.rooms@;
                assert(rooms.drop_last() =~= old_rooms.drop_last());
                assert forall|i: int, j: int, x: SessionId|
                    #![trigger seats(rooms[i], x), seats(rooms[j], x)]
                    0 <= i < rooms.len() && 0 <= j < rooms.len() && i != j && seats(
                        rooms[i],
                        x,
                    ) implies !seats(rooms[j], x) by {
                    if i != last && j != last {
                        assert(rooms[i] == old_rooms[i]);
                        assert(rooms[j] == old_rooms[j]);
                        assert(seats(old_rooms[i], x));
                    } else if i == last {
                        let k = choose|k: int|
                            0 <= k < rooms[i].sessions@.len() && rooms[i].sessions@[k] == x;
                        assert(rooms[j] == old_rooms[j]);
                        if k < old_rooms[i].sessions@.len() {
                            assert(old_rooms[i].sessions@[k] == x);
                            assert(seats(old_rooms[i], x));
                            assert(!seats(old_rooms[j], x));
                        } else {
                            assert(x == session);
                            assert(!seats(old_rooms[j], session));
                        }
                    } else {
                        assert(rooms[i] == old_rooms[i]);
                        assert(seats(old_rooms[i], x));
                        if seats(rooms[j], x) {
                            let k = choose|k: int|
                                0 <= k < rooms[j].sessions@.len() && rooms[j].sessions@[k] == x;
                            if k < old_rooms[j].sessions@.len() {
                                assert(old_rooms[j].sessions@[k] == x);
                                assert(seats(old_rooms[j], x));
                            } else {
                                assert(x == session);
                                assert(!seats(old_rooms[i], session));
                            }
                        }
                    }
                }
            }
            r
        }
    }
    /// A seat submits a word: where the sender holds the turn in its room,
    /// that room's turn timer is cleared and the room announces the word and
    /// asks the sender to validate it; otherwise nothing happens.
    pub fn create_word(&mut self, msg: CreateWord) -> (r: Vec<Delivery>)
        requires
            old(self).wf(),
        ensures
            final(self).wf(),
            final(self).next_timer == old(self).next_timer,
            (forall|i: int|
                0 <= i < old(self).rooms@.len() ==> !seats(
                    #[trigger] old(self).rooms@[i],
                    msg.session_addr,
                )) ==> final(self).rooms == old(self).rooms && r@.len() == 0,
            forall|i: int|
                0 <= i < old(self).rooms@.len() && seats(
                    #[trigger] old(self).rooms@[i],
                    msg.session_addr,
                ) ==> {
                    let room = old(self).rooms@[i];
                    if room.turn_of_player_index < room.sessions@.len()
                        && room.sessions@[room.turn_of_player_index as int] == msg.session_addr {
                        &&& timer_cleared(old(self).rooms@, final(self).rooms@, i)
                        &&& forall|j: int|
                            0 <= j < final(self).rooms@.len() && j != i ==> #[trigger] final(self).rooms@[j]
                                == old(self).rooms@[j]
                        &&& final(self).rooms@[i].game_started == room.game_started
                        &&& final(self).rooms@[i].max_players == room.max_players
                        &&& final(self).rooms@[i].sessions == room.sessions
                        &&& final(self).rooms@[i].users == room.users
                        &&& final(self).rooms@[i].turn_of_player_index
                            == room.turn_of_player_index
                        &&& r@.len() == room.sessions@.len() + 1
                        &&& forall|k: int|
                            0 <= k < room.sessions@.len() ==> (#[trigger] r@[k]).to
                                == room.sessions@[k] && r@[k].message == SessionMessage::WordCreated(
                                WordCreated {
                                    player_index: room.turn_of_player_index,
                                    word: msg.word,
                                },
                            )
                        &&& r@.last().to == msg.session_addr
                        &&& r@.last().message == SessionMessage::CheckWordExisting(
                            CheckWordExisting {
                                player_index: room.turn_of_player_index,
                                word: msg.word,
                            },
                        )
                    } else {
                        final(self).rooms == old(self).rooms && r@.len() == 0
                    }
                },
    {
        let session = msg.session_addr;
        let i = match self.find_room(session) {
            Some(i) => i,
            None => {
                return Vec::new();
            },
        };
        proof {
            self.lemma_one_room(i as int, session);
        }
        if !self.rooms[i].is_player_turn(session) {
            return Vec::new();
        }
        let ghost old_m = *self;
        self.rooms[i].next_turn_timeout = None;
        proof {
            lemma_room_update_wf(old_m, *self, i as int);
        }
        self.rooms[i].on_word_created(msg.word, session)
    }

    /// Deals damage to a seat of the sender's room; nothing where no room
    /// seats the sender or the seat is no longer there.
    pub fn damage_player(&self, msg: RoomDamagePlayer) -> (r: Vec<Delivery>)
        requires
            self.wf(),
        ensures
            (forall|i: int|
                0 <= i < self.rooms@.len() ==> !seats(#[trigger] self.rooms@[i], msg.session_addr))
                ==> r@.len() == 0,
            forall|i: int|
                0 <= i < self.rooms@.len() && seats(#[trigger] self.rooms@[i], msg.session_addr)
                    ==> if msg.player_index < self.rooms@[i].sessions@.len() {
                    &&& r@.len() == self.rooms@[i].sessions@.len() + 1
                    &&& r@[0].to == self.rooms@[i].sessions@[msg.player_index as int]
                    &&& r@[0].message == SessionMessage::TakeDamage(
                        TakeDamage { damage: msg.damage },
                    )
                    &&& forall|k: int|
                        0 <= k < self.rooms@[i].sessions@.len() ==> (#[trigger] r@[k + 1]).to
                            == self.rooms@[i].sessions@[k] && r@[k + 1].message
                            == SessionMessage::DamagePlayer(
                            DamagePlayer { player_index: msg.player_index, damage: msg.damage },
                        )
                } else {
                    r@.len() == 0
                },
    {
        match self.find_room(msg.session_addr) {
            Some(i) => {
                proof {
                    self.lemma_one_room(i as int, msg.session_addr);
                }
                self.rooms[i].on_damage_player(msg.damage, msg.player_index)
            },
            None => Vec::new(),
        }
    }

    /// Removes an eliminated player from the rotation of its room.
    pub fn player_dead(&mut self, msg: RoomPlayerDead) -> (r: Vec<Delivery>)
        requires
            old(self).wf(),
        ensures
            final(self).wf(),
            final(self).next_timer == old(self).next_timer,
            (forall|i: int|
                0 <= i < old(self).rooms@.len() ==> !seats(
                    #[trigger] old(self).rooms@[i],
                    msg.session_addr,
                )) ==> final(self).rooms == old(self).rooms && r@.len() == 0,
            forall|i: int, j: int|
                0 <= i < old(self).rooms@.len() && 0 <= j < old(self).rooms@[i].sessions@.len()
                    && #[trigger] old(self).rooms@[i].sessions@[j] == msg.session_addr ==> {
                    &&& final(self).rooms@[i].sessions@ == old(self).rooms@[i].sessions@.remove(j)
                    &&& final(self).rooms@[i].users@ == old(self).rooms@[i].users@.remove(j)
                    &&& final(self).rooms@[i].turn_of_player_index == turn_after_removal(
                        old(self).rooms@[i].turn_of_player_index as int,
                        j,
                        final(self).rooms@[i].sessions@.len() as int,
                    )
                    &&& final(self).rooms@.len() == old(self).rooms@.len()
                    &&& forall|a: int|
                        0 <= a < final(self).rooms@.len() && a != i ==> #[trigger] final(self).rooms@[a]
                            == old(self).rooms@[a]
                    &&& final(self).rooms@[i].game_started == old(self).rooms@[i].game_started
                    &&& final(self).rooms@[i].max_players == old(self).rooms@[i].max_players
                    &&& final(self).rooms@[i].next_turn_timeout
                        == old(self).rooms@[i].next_turn_timeout
                    &&& r@.len() == final(self).rooms@[i].sessions@.len() + 1
                    &&& r@[0].to == msg.session_addr
                    &&& r@[0].message == SessionMessage::PlayerDead(
                        PlayerDead { player_index: j as usize },
                    )
                    &&& forall|k: int|
                        0 <= k < final(self).rooms@[i].sessions@.len() ==> (#[trigger] r@[k
                            + 1]).to == final(self).rooms@[i].sessions@[k] && r@[k + 1].message
                            == SessionMessage::PlayerDead(PlayerDead { player_index: j as usize })
                },
    {
        let session = msg.session_addr;
        let i = match self.find_room(session) {
            Some(i) => i,
            None => {
                return Vec::new();
            },
        };
        proof {
            self.lemma_one_room(i as int, session);
        }
        let ghost old_m = *self;
        let r = self.rooms[i].on_player_dead(session);
        proof {
            assert forall|x: SessionId| seats(self.rooms@[i as int], x) implies seats(
                old_m.rooms@[i as int],
                x,
            ) by {
                let k = choose|k: int|
                    0 <= k < self.rooms@[i as int].sessions@.len()
                        && self.rooms@[i as int].sessions@[k] == x;
                let j = choose|j: int|
                    0 <= j < old_m.rooms@[i as int].sessions@.len()
                        && old_m.rooms@[i as int].sessions@[j] == session;
                let k0 = if k < j { k } else { k + 1 };
                assert(old_m.rooms@[i as int].sessions@[k0] == x);
            }
            lemma_room_update_wf(old_m, *self, i as int);
            assert forall|a: int, j: int|
                0 <= a < old_m.rooms@.len() && 0 <= j < old_m.rooms@[a].sessions@.len()
                    && #[trigger] old_m.rooms@[a].sessions@[j] == session implies a == i by {
                assert(seats(old_m.rooms@[a], session));
            }
        }
        r
    }
}

/// A turn timer that fires after the acting seat's word has been accepted
/// finds its token pending in no room: the turn it would pass has already
/// been claimed, and firing it changes nothing.
pub proof fn lemma_timer_after_word_is_stale(
    before: RoomManager,
    after: RoomManager,
    i: int,
    token: u64,
)
    requires
        before.wf(),
        0 <= i < before.rooms@.len(),
        before.rooms@[i].next_turn_timeout == Some(token),
        timer_cleared(before.rooms@, after.rooms@, i),
    ensures
        !timer_pending(after.rooms@, token),
{
    assert forall|j: int|
        0 <= j < after.rooms@.len() implies (#[trigger] after.rooms@[j]).next_turn_timeout != Some(
        token,
    ) by {
        if j != i {
            assert(before.rooms@[i].next_turn_timeout is Some);
            assert(before.rooms@[j].next_turn_timeout != before.rooms@[i].next_turn_timeout);
        }
    }
}

/// A turn timer armed by a turn change is fresh: no room had it pending
/// before, so an older timer can never be mistaken for it.
pub proof fn lemma_armed_timer_is_fresh(m: RoomManager)
    requires
        m.wf(),
    ensures
        !timer_pending(m.rooms@, m.next_timer),
{
    assert forall|j: int|
        0 <= j < m.rooms@.len() implies (#[trigger] m.rooms@[j]).next_turn_timeout != Some(
        m.next_timer,
    ) by {
        assert(m.rooms@[j].wf());
    }
}

/// A turn timer that was pending in a room when its turn passed, by an
/// explicit pass or by the timer itself, is pending in no room afterwards:
/// when it fires it changes nothing, so a turn never advances twice.
pub proof fn lemma_timer_after_advance_is_stale(
    before: RoomManager,
    after: RoomManager,
    i: int,
    r: TurnChange,
    token: u64,
)
    requires
        before.wf(),
        0 <= i < before.rooms@.len(),
        before.rooms@[i].next_turn_timeout == Some(token),
        turn_passed(before, after, i, r),
    ensures
        !timer_pending(after.rooms@, token),
{
    assert(before.rooms@[i].wf());
    assert(token < before.next_timer);
    assert forall|j: int|
        0 <= j < after.rooms@.len() implies (#[trigger] after.rooms@[j]).next_turn_timeout != Some(
        token,
    ) by {
        if j != i {
            assert(before.rooms@[i].next_turn_timeout is Some);
            assert(before.rooms@[j].next_turn_timeout != before.rooms@[i].next_turn_timeout);
        }
    }
}

} // verus!
