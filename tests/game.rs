use spell_fight::letters::{get_available_letters, get_word_value, Letter, MAX_LETTERS};
use spell_fight::messages::{
    CheckWordExisting, CreateWord, DamagePlayer, Delivery, Join, NextTurn, PlayerDead,
    RoomDamagePlayer, RoomNextTurn, RoomNextTurnTimeoutInit, RoomPlayerDead, SessionMessage,
    StartPreparationTime, TakeDamage, WordCreated, WordExists, WsRequest, WsResponse,
};
use spell_fight::room::{Room, MAX_PLAYERS_PER_ROOM, PREPARATION_TIME_SECONDS, TURN_SECONDS};
use spell_fight::room_manager::RoomManager;
use spell_fight::services::{DictionaryService, FacebookService, FakeUserRepository};
use spell_fight::session::{
    pick_damage_target, word_check_outcome, PlayerSession, ResponseKind, SessionAction, WordCheck,
    ROLL_DICE_SECONDS, START_HEALTH,
};
use spell_fight::user::{FacebookProfile, User};

fn user(id: &str) -> User {
    User {
        id: id.to_string(),
        name: format!("player {}", id),
        email: String::new(),
        photo: String::new(),
        provider: String::new(),
    }
}

fn rack(s: &str) -> Vec<Letter> {
    let table = get_available_letters();
    s.chars()
        .map(|c| *table.iter().find(|l| l.letter == c).unwrap())
        .collect()
}

fn join(m: &mut RoomManager, id: &str, session: u64) -> Vec<Delivery> {
    m.join(Join { user: user(id), session_addr: session })
}

fn started_pair() -> RoomManager {
    let mut m = RoomManager::new();
    join(&mut m, "a", 1);
    join(&mut m, "b", 2);
    m
}

fn next_turn_seats(d: &[Delivery]) -> Vec<(u64, usize, u64)> {
    d.iter()
        .map(|x| match &x.message {
            SessionMessage::NextTurn(n) => (x.to, n.player_index, n.seconds),
            other => panic!("unexpected {:?}", other),
        })
        .collect()
}

#[test]
fn two_players_start_the_game() {
    let mut m = RoomManager::new();
    assert!(join(&mut m, "a", 1).is_empty());
    let d = join(&mut m, "b", 2);
    assert_eq!(d.len(), 2);
    assert_eq!(d[0].to, 1);
    assert_eq!(d[1].to, 2);
    for x in &d {
        match &x.message {
            SessionMessage::StartPreparationTime(s) => {
                assert_eq!(s.seconds, PREPARATION_TIME_SECONDS);
                assert_eq!(s.users.len(), 2);
                assert_eq!(s.users[0].id, "a");
                assert_eq!(s.users[1].id, "b");
                assert_eq!(s.letters.len(), MAX_LETTERS);
            }
            other => panic!("unexpected {:?}", other),
        }
    }
    assert!(m.rooms[0].game_started);

    let mut session = PlayerSession::new(user("a"));
    let msg = match d.into_iter().next().unwrap().message {
        SessionMessage::StartPreparationTime(s) => s,
        _ => unreachable!(),
    };
    let letters = msg.letters.clone();
    assert!(matches!(
        session.on_start_preparation_time(msg),
        WsResponse::StartPreparationTime(_)
    ));
    assert_eq!(session.letters, letters);
    match session.on_preparation_elapsed() {
        WsResponse::NextTurn(n) => {
            assert_eq!(n, NextTurn { player_index: 0, seconds: TURN_SECONDS });
        }
        other => panic!("unexpected {:?}", other),
    }
    assert_eq!(session.last_ws_response, Some(ResponseKind::NextTurn));
}

#[test]
fn join_on_full_room_opens_a_new_room() {
    let mut m = started_pair();
    assert!(join(&mut m, "c", 3).is_empty());
    assert_eq!(m.rooms.len(), 2);
    assert_eq!(m.rooms[1].sessions, vec![3]);
    assert!(!m.rooms[1].game_started);
    assert_eq!(m.rooms[0].sessions, vec![1, 2]);
    let d = join(&mut m, "d", 4);
    assert_eq!(d.len(), 2);
    assert_eq!(m.rooms.len(), 2);
    assert!(m.rooms[1].game_started);
    for r in &m.rooms {
        assert!(r.sessions.len() <= MAX_PLAYERS_PER_ROOM);
    }
}

#[test]
fn duplicate_join_is_ignored() {
    let mut m = RoomManager::new();
    join(&mut m, "a", 1);
    assert!(join(&mut m, "a", 1).is_empty());
    assert_eq!(m.rooms[0].sessions, vec![1]);
    assert_eq!(m.rooms.len(), 1);
}

#[test]
fn room_add_player_respects_capacity() {
    let mut r = Room::new(2);
    r.add_player(user("a"), 1);
    r.add_player(user("a"), 1);
    r.add_player(user("b"), 2);
    r.add_player(user("c"), 3);
    assert_eq!(r.sessions, vec![1, 2]);
    assert_eq!(r.users.len(), 2);
    assert!(r.is_full());
    let mut open = Room::new(3);
    open.add_player(user("a"), 1);
    assert!(!open.is_full());
    open.start_game();
    assert!(open.is_full());
    open.add_player(user("b"), 2);
    assert_eq!(open.sessions, vec![1]);
    assert_eq!(open.users.len(), 1);
}

#[test]
fn turn_index_cycles_modulo_members() {
    let mut r = Room::new(3);
    r.add_player(user("a"), 1);
    r.add_player(user("b"), 2);
    r.add_player(user("c"), 3);
    for k in 1..=7usize {
        let d = r.increase_turn_index(Some(k as u64));
        assert_eq!(r.turn_of_player_index, k % 3);
        assert_eq!(r.next_turn_timeout, Some(k as u64));
        assert_eq!(d.len(), 3);
        assert_eq!(next_turn_seats(&d)[0], (1, k % 3, TURN_SECONDS));
    }
    r.increase_turn_index(None);
    assert!(r.next_turn_timeout.is_none());
}

#[test]
fn is_player_turn_follows_turn_index() {
    let mut r = Room::new(2);
    r.add_player(user("a"), 10);
    r.add_player(user("b"), 20);
    assert!(r.is_player_turn(10));
    assert!(!r.is_player_turn(20));
    assert!(!r.is_player_turn(30));
    r.increase_turn_index(None);
    assert!(r.is_player_turn(20));
}

#[test]
fn valid_word_confirms_and_deals_damage() {
    let mut m = started_pair();
    let mut s0 = PlayerSession::new(user("a"));
    s0.letters = rack("CATSDOG");
    s0.on_next_turn(NextTurn { player_index: 0, seconds: TURN_SECONDS });

    let word = match s0.handle_request(WsRequest::CreateWord("cat".to_string())) {
        SessionAction::CreateWord(w) => w,
        other => panic!("unexpected {:?}", other),
    };
    let d = m.create_word(CreateWord { user: user("a"), word, session_addr: 1 });
    assert_eq!(d.len(), 3);
    for (x, to) in d.iter().take(2).zip([1u64, 2]) {
        assert_eq!(x.to, to);
        match &x.message {
            SessionMessage::WordCreated(w) => {
                assert_eq!(w.player_index, 0);
                assert_eq!(w.word, "cat");
            }
            other => panic!("unexpected {:?}", other),
        }
    }
    assert_eq!(d[2].to, 1);
    let check = match d.into_iter().nth(2).unwrap().message {
        SessionMessage::CheckWordExisting(c) => c,
        other => panic!("unexpected {:?}", other),
    };
    s0.on_word_created(WordCreated { player_index: 0, word: "cat".to_string() });

    let has_letters = s0.has_letters_for(&check.word);
    assert!(has_letters);
    let confirmed = match s0.check_word_existing(check, true, has_letters) {
        WordCheck::Confirmed(e) => e,
        WordCheck::Rejected => panic!("rejected"),
    };
    assert_eq!(confirmed.player_index, 1);
    assert_eq!(confirmed.damage, 5);
    assert_eq!(confirmed.damage, get_word_value("cat".to_string()));

    let window = s0.on_word_exists(confirmed);
    assert_eq!(window.can_roll_dice.seconds, ROLL_DICE_SECONDS);
    assert!(window.timer.is_some());
    assert_eq!(s0.last_ws_response, Some(ResponseKind::CanRollDice));

    let rolled = match s0.handle_request(WsRequest::RollDice) {
        SessionAction::RollDice(r) => r,
        other => panic!("unexpected {:?}", other),
    };
    assert!(s0.roll_dice_timeout.is_none());
    let outcome = s0.on_dice_rolled(rolled);
    assert_eq!(s0.letters.len(), 7);
    match &outcome.response {
        WsResponse::DiceRolledResponse(r) => {
            assert_eq!(r.amount, 1);
            assert_eq!(r.new_letters, s0.letters);
        }
        other => panic!("unexpected {:?}", other),
    }
    let kept: String = s0.letters[..4].iter().map(|l| l.letter).collect();
    assert_eq!(kept, "SDOG");

    let d = m.damage_player(RoomDamagePlayer {
        session_addr: 1,
        player_index: outcome.target,
        damage: outcome.damage,
    });
    assert_eq!(d.len(), 3);
    assert_eq!(d[0].to, 2);
    match &d[0].message {
        SessionMessage::TakeDamage(t) => assert_eq!(*t, TakeDamage { damage: 5 }),
        other => panic!("unexpected {:?}", other),
    }
    match &d[1].message {
        SessionMessage::DamagePlayer(p) => {
            assert_eq!(*p, DamagePlayer { player_index: 1, damage: 5 })
        }
        other => panic!("unexpected {:?}", other),
    }
    let mut s1 = PlayerSession::new(user("b"));
    let (_, eliminated) = s1.on_take_damage(TakeDamage { damage: 5 });
    assert!(!eliminated);
    assert_eq!(s1.health, START_HEALTH - 5);

    let t = m.next_turn(RoomNextTurn { session_addr: 1 });
    assert_eq!(next_turn_seats(&t.deliveries), vec![(1, 1, TURN_SECONDS), (2, 1, TURN_SECONDS)]);
}

#[test]
fn unknown_word_is_rejected_and_turn_passes() {
    let mut m = started_pair();
    let mut s0 = PlayerSession::new(user("a"));
    s0.letters = rack("CATSDOG");
    s0.on_next_turn(NextTurn { player_index: 0, seconds: TURN_SECONDS });
    let d = m.create_word(CreateWord { user: user("a"), word: "tac".to_string(), session_addr: 1 });
    let check = match d.into_iter().nth(2).unwrap().message {
        SessionMessage::CheckWordExisting(c) => c,
        other => panic!("unexpected {:?}", other),
    };
    let has_letters = s0.has_letters_for(&check.word);
    assert!(matches!(s0.check_word_existing(check, false, has_letters), WordCheck::Rejected));
    assert_ne!(s0.last_ws_response, Some(ResponseKind::CanRollDice));
    assert!(matches!(s0.handle_request(WsRequest::RollDice), SessionAction::Ignore));
    let t = m.next_turn(RoomNextTurn { session_addr: 1 });
    assert_eq!(next_turn_seats(&t.deliveries), vec![(1, 1, TURN_SECONDS), (2, 1, TURN_SECONDS)]);
}

#[test]
fn word_outside_rack_is_rejected() {
    let s0 = {
        let mut s = PlayerSession::new(user("a"));
        s.letters = rack("CAT");
        s
    };
    let check = CheckWordExisting { player_index: 0, word: "cattle".to_string() };
    let has_letters = s0.has_letters_for(&check.word);
    assert!(!has_letters);
    assert!(matches!(s0.check_word_existing(check, true, has_letters), WordCheck::Rejected));
}

#[test]
fn turn_timer_expiry_passes_the_turn() {
    let mut timed = started_pair();
    let token = timed
        .next_turn_timeout_init(RoomNextTurnTimeoutInit { session_addr: 1 })
        .unwrap();
    assert!(timed
        .next_turn_timeout_init(RoomNextTurnTimeoutInit { session_addr: 2 })
        .is_none());
    let by_timer = timed.turn_timeout(token);
    let mut passed = started_pair();
    let by_pass = passed.next_turn(RoomNextTurn { session_addr: 1 });
    assert_eq!(next_turn_seats(&by_timer.deliveries), vec![(1, 1, TURN_SECONDS), (2, 1, TURN_SECONDS)]);
    assert_eq!(next_turn_seats(&by_timer.deliveries), next_turn_seats(&by_pass.deliveries));
    assert_eq!(timed.rooms[0].turn_of_player_index, passed.rooms[0].turn_of_player_index);
    let fresh = by_timer.timer.unwrap();
    assert_ne!(fresh, token);
    assert_eq!(timed.rooms[0].next_turn_timeout, Some(fresh));
}

#[test]
fn timer_after_valid_word_is_stale() {
    let mut m = started_pair();
    let token = m
        .next_turn_timeout_init(RoomNextTurnTimeoutInit { session_addr: 1 })
        .unwrap();
    let d = m.create_word(CreateWord { user: user("a"), word: "cat".to_string(), session_addr: 1 });
    assert_eq!(d.len(), 3);
    assert!(m.rooms[0].next_turn_timeout.is_none());
    let late = m.turn_timeout(token);
    assert!(late.deliveries.is_empty());
    assert!(late.timer.is_none());
    assert_eq!(m.rooms[0].turn_of_player_index, 0);
    let t = m.next_turn(RoomNextTurn { session_addr: 1 });
    assert_eq!(m.rooms[0].turn_of_player_index, 1);
    assert!(m.turn_timeout(token).deliveries.is_empty());
    assert_eq!(m.rooms[0].turn_of_player_index, 1);
    assert_eq!(t.deliveries.len(), 2);
}

#[test]
fn word_out_of_turn_is_ignored() {
    let mut m = started_pair();
    let d = m.create_word(CreateWord { user: user("b"), word: "cat".to_string(), session_addr: 2 });
    assert!(d.is_empty());
    let d = m.create_word(CreateWord { user: user("z"), word: "cat".to_string(), session_addr: 9 });
    assert!(d.is_empty());
}

#[test]
fn events_from_unknown_sessions_are_dropped() {
    let mut m = started_pair();
    let t = m.next_turn(RoomNextTurn { session_addr: 9 });
    assert!(t.deliveries.is_empty() && t.timer.is_none());
    assert!(m.damage_player(RoomDamagePlayer { session_addr: 9, player_index: 0, damage: 3 }).is_empty());
    assert!(m.player_dead(RoomPlayerDead { session_addr: 9 }).is_empty());
    assert!(m.next_turn_timeout_init(RoomNextTurnTimeoutInit { session_addr: 9 }).is_none());
    assert_eq!(m.rooms[0].turn_of_player_index, 0);
}

#[test]
fn elimination_renumbers_seats() {
    let mut r = Room::new(3);
    r.add_player(user("a"), 1);
    r.add_player(user("b"), 2);
    r.add_player(user("c"), 3);
    r.increase_turn_index(None);
    r.increase_turn_index(None);
    assert_eq!(r.turn_of_player_index, 2);
    let d = r.on_player_dead(1);
    assert_eq!(r.sessions, vec![2, 3]);
    assert_eq!(r.users[0].id, "b");
    assert_eq!(r.turn_of_player_index, 1);
    assert_eq!(d.len(), 3);
    assert_eq!(d.iter().map(|x| x.to).collect::<Vec<_>>(), vec![1, 2, 3]);
    match &d[0].message {
        SessionMessage::PlayerDead(p) => assert_eq!(*p, PlayerDead { player_index: 0 }),
        other => panic!("unexpected {:?}", other),
    }
    assert!(r.on_damage_player(4, 2).is_empty());
    assert_eq!(r.on_damage_player(4, 1)[0].to, 3);
    assert!(r.on_player_dead(1).is_empty());
}

#[test]
fn elimination_of_last_acting_seat_wraps_turn() {
    let mut r = Room::new(2);
    r.add_player(user("a"), 1);
    r.add_player(user("b"), 2);
    r.increase_turn_index(None);
    r.on_player_dead(2);
    assert_eq!(r.turn_of_player_index, 0);
    r.on_player_dead(1);
    assert!(r.sessions.is_empty());
    assert_eq!(r.turn_of_player_index, 0);
}

#[test]
fn manager_removes_dead_player() {
    let mut m = started_pair();
    let d = m.player_dead(RoomPlayerDead { session_addr: 1 });
    assert_eq!(d.len(), 2);
    assert_eq!(d[0].to, 1);
    assert_eq!(d[1].to, 2);
    assert_eq!(m.rooms[0].sessions, vec![2]);
}

#[test]
fn damage_to_zero_eliminates() {
    let mut s = PlayerSession::new(user("a"));
    let (r, eliminated) = s.on_take_damage(TakeDamage { damage: 60 });
    assert!(!eliminated);
    assert!(matches!(r, WsResponse::TakeDamage(TakeDamage { damage: 60 })));
    let (_, eliminated) = s.on_take_damage(TakeDamage { damage: 60 });
    assert!(eliminated);
    assert_eq!(s.health, 0);
}

#[test]
fn requests_out_of_phase_are_dropped() {
    let mut s = PlayerSession::new(user("a"));
    assert!(matches!(s.handle_request(WsRequest::CreateWord("cat".to_string())), SessionAction::Ignore));
    assert!(matches!(s.handle_request(WsRequest::RollDice), SessionAction::Ignore));
    assert!(matches!(s.handle_request(WsRequest::Join), SessionAction::Join));
    s.on_start_preparation_time(StartPreparationTime { seconds: 1, users: Vec::new(), letters: rack("AB") });
    assert!(matches!(s.handle_request(WsRequest::Join), SessionAction::Ignore));
    assert!(matches!(s.handle_request(WsRequest::CreateWord("ab".to_string())), SessionAction::Ignore));
    s.on_damage_player(DamagePlayer { player_index: 1, damage: 2 });
    assert_eq!(s.last_ws_response, Some(ResponseKind::DamagePlayer));
}

#[test]
fn dice_timer_and_explicit_roll_resolve_once() {
    let mut s = PlayerSession::new(user("a"));
    s.letters = rack("CATSDOG");
    let window = s.on_word_exists(WordExists { word: "cat".to_string(), player_index: 1, damage: 5 });
    let token = window.timer.unwrap();
    let by_timer = s.on_roll_dice_timeout(token).unwrap();
    assert_eq!(by_timer.word_exists_event.word, "cat");
    assert!(s.on_roll_dice_timeout(token).is_none());
    assert!(matches!(s.handle_request(WsRequest::RollDice), SessionAction::Ignore));

    let window = s.on_word_exists(WordExists { word: "dog".to_string(), player_index: 1, damage: 5 });
    let token2 = window.timer.unwrap();
    assert_ne!(token, token2);
    assert!(matches!(s.handle_request(WsRequest::RollDice), SessionAction::RollDice(_)));
    assert!(s.on_roll_dice_timeout(token2).is_none());

    let pending = s.on_word_exists(WordExists { word: "tag".to_string(), player_index: 1, damage: 4 });
    let window = s.on_word_exists(WordExists { word: "sat".to_string(), player_index: 1, damage: 3 });
    assert_ne!(pending.timer, window.timer);
    assert!(s.on_roll_dice_timeout(pending.timer.unwrap()).is_none());
    s.on_next_turn(NextTurn { player_index: 1, seconds: TURN_SECONDS });
    assert!(s.on_roll_dice_timeout(window.timer.unwrap()).is_none());
}

#[test]
fn damage_target_is_another_seat() {
    for p in 0..4usize {
        for _ in 0..20 {
            let t = pick_damage_target(p, 4).unwrap();
            assert!(t < 4 && t != p);
        }
    }
    assert_eq!(pick_damage_target(0, 2), Some(1));
    assert_eq!(pick_damage_target(1, 2), Some(0));
    assert_eq!(pick_damage_target(0, 1), None);
    assert_eq!(pick_damage_target(0, 0), None);
    assert_eq!(pick_damage_target(5, 1), Some(0));
}

#[test]
fn word_check_outcome_is_exact() {
    let msg = || CheckWordExisting { player_index: 0, word: "Quiz".to_string() };
    match word_check_outcome(msg(), true, true, Some(1)) {
        WordCheck::Confirmed(e) => {
            assert_eq!(e.word, "Quiz");
            assert_eq!(e.player_index, 1);
            assert_eq!(e.damage, 22);
        }
        WordCheck::Rejected => panic!("rejected"),
    }
    assert!(matches!(word_check_outcome(msg(), false, true, Some(1)), WordCheck::Rejected));
    assert!(matches!(word_check_outcome(msg(), true, false, Some(1)), WordCheck::Rejected));
    assert!(matches!(word_check_outcome(msg(), true, true, None), WordCheck::Rejected));
}

#[test]
fn dictionary_answers() {
    let d = DictionaryService::new();
    assert!(d.word_found(Some(200)));
    assert!(d.word_found(Some(301)));
    assert!(!d.word_found(Some(404)));
    assert!(!d.word_found(Some(500)));
    assert!(!d.word_found(Some(199)));
    assert!(!d.word_found(None));
    assert_eq!(d.lookup_key("HeLLo-W"), "hello-w");
}

#[test]
fn bearer_credential_strips_scheme() {
    let f = FacebookService::new();
    assert_eq!(f.bearer_credential("Bearer abc.def"), "abc.def");
    assert_eq!(f.bearer_credential("abc"), "abc");
    assert_eq!(f.bearer_credential("Bearer "), "");
    assert_eq!(f.bearer_credential("bearer x"), "bearer x");
}

#[test]
fn user_from_profile() {
    let u = User::from_facebook_profile(FacebookProfile {
        id: "7".to_string(),
        name: "Ann".to_string(),
        email: Some("ann@example.com".to_string()),
    });
    assert_eq!(u.id, "7");
    assert_eq!(u.name, "Ann");
    assert_eq!(u.email, "ann@example.com");
    assert_eq!(u.photo, "");
    let u = User::from_facebook_profile(FacebookProfile {
        id: "8".to_string(),
        name: "Bo".to_string(),
        email: None,
    });
    assert_eq!(u.email, "");
    assert_eq!(u.provider, "");
}

#[test]
fn fake_repository_finds_and_saves() {
    let mut repo = FakeUserRepository::_new();
    assert!(repo.find_by_id("a").is_none());
    repo.save(user("a"));
    repo.save(user("b"));
    let mut again = user("a");
    again.name = "other".to_string();
    repo.save(again);
    assert_eq!(repo.users.len(), 2);
    assert_eq!(repo.find_by_id("a").unwrap().name, "player a");
    assert_eq!(repo.find_by_id("b").unwrap().id, "b");
    assert!(repo.find_by_id("c").is_none());
}
