use game_server::{Color, Command, EndedCause, Event, Game, InvalidInvite, Invite, InviteRegistry,
    Room, RoomConf, Server, Stone, Unauthorized};
use game_server::GameServer;
use game_server::session::{authorize, ended_by_stones, handle_connect, side_has_stones};
use game_server::encode_event;
use game_server::snapshot::{decode_gameserver, encode_gameserver};
use game_server::ParseError;

fn room_r1() -> Room {
    Room {
        id: "r1".to_string(),
        name: "lobby one".to_string(),
        owner: "owner".to_string(),
        users: vec!["owner".to_string()],
        conf: RoomConf { name: "friendly".to_string(), max_users: 6, observable: true },
    }
}

#[test]
fn issued_invites_have_distinct_keys() {
    let mut reg = InviteRegistry::new();
    let mut keys: Vec<String> = Vec::new();
    for i in 0..50 {
        let user = format!("u{}", i);
        let invite = reg.issue(&user, "r1");
        assert_eq!(invite.user_id, user);
        assert_eq!(invite.room_id, "r1");
        assert!(!keys.contains(&invite.key));
        keys.push(invite.key);
    }
    assert_eq!(keys.len(), 50);
}

#[test]
fn invite_new_binds_user_and_room() {
    let a = Invite::new("u1".to_string(), "r1");
    let b = Invite::new("u1".to_string(), "r1");
    assert_eq!(a.user_id, "u1");
    assert_eq!(a.room_id, "r1");
    assert_ne!(a.key, b.key);
}

#[test]
fn consume_is_single_use() {
    let mut reg = InviteRegistry::new();
    let invite = Invite {
        key: "abc".to_string(),
        user_id: "u1".to_string(),
        room_id: "r1".to_string(),
    };
    reg.register(invite).unwrap();
    assert_eq!(reg.consume("abc").unwrap(), ("u1".to_string(), "r1".to_string()));
    assert_eq!(reg.consume("abc"), Err(InvalidInvite));
    assert_eq!(reg.consume("abc"), Err(InvalidInvite));
}

#[test]
fn consume_of_unknown_key_fails() {
    let mut reg = InviteRegistry::new();
    assert_eq!(reg.consume("never-issued"), Err(InvalidInvite));
}

#[test]
fn register_rejects_a_seen_key() {
    let mut reg = InviteRegistry::new();
    let invite = Invite {
        key: "abc".to_string(),
        user_id: "u1".to_string(),
        room_id: "r1".to_string(),
    };
    reg.register(invite.clone()).unwrap();
    assert_eq!(reg.register(invite.clone()), Err(InvalidInvite));
    reg.consume("abc").unwrap();
    // consumed keys stay burned: the same key never registers again
    assert_eq!(reg.register(invite), Err(InvalidInvite));
}

#[test]
fn connect_scenario_admits_once() {
    let mut reg = InviteRegistry::new();
    reg.register(Invite {
        key: "abc".to_string(),
        user_id: "u1".to_string(),
        room_id: "r1".to_string(),
    })
    .unwrap();
    let room = room_r1();
    let (to_joiner, to_room) = handle_connect(&mut reg, "abc", &room).unwrap();
    assert_eq!(to_joiner, Event::Connected { room: room_r1() });
    assert_eq!(to_room, Event::Entered { user: "u1".to_string() });
    assert_eq!(handle_connect(&mut reg, "abc", &room), Err(InvalidInvite));
}

#[test]
fn connect_to_the_wrong_room_fails() {
    let mut reg = InviteRegistry::new();
    reg.register(Invite {
        key: "abc".to_string(),
        user_id: "u1".to_string(),
        room_id: "r2".to_string(),
    })
    .unwrap();
    assert_eq!(handle_connect(&mut reg, "abc", &room_r1()), Err(InvalidInvite));
}

#[test]
fn owner_commands_need_the_owner() {
    let start = Command::Start {};
    let chat = Command::Chat { content: "hi".to_string() };
    assert!(authorize(&start, "owner", "owner").is_ok());
    assert_eq!(authorize(&start, "guest", "owner"), Err(Unauthorized));
    assert_eq!(authorize(&Command::Ban { user: "u2".to_string() }, "guest", "owner"),
        Err(Unauthorized));
    assert!(authorize(&chat, "guest", "owner").is_ok());
}

#[test]
fn losing_all_stones_ends_the_game() {
    let game = Game {
        board: vec![vec![Stone::White, Stone::Blank], vec![Stone::White]],
        black: "u1".to_string(),
        white: "u2".to_string(),
        turn: Color::White,
    };
    assert!(!side_has_stones(&game.board, Color::Black));
    assert!(side_has_stones(&game.board, Color::White));
    let ended = ended_by_stones(&game).unwrap();
    assert_eq!(
        ended,
        Event::Ended {
            loser: "u1".to_string(),
            color: "black".to_string(),
            cause: EndedCause::LostStones,
        },
    );
    let wire = encode_event(&ended);
    assert!(wire.contains("\"cause\":\"lost all stones\""));
}

#[test]
fn running_game_has_no_ended_event() {
    let game = Game {
        board: vec![vec![Stone::Black, Stone::White]],
        black: "u1".to_string(),
        white: "u2".to_string(),
        turn: Color::Black,
    };
    assert_eq!(ended_by_stones(&game), None);
}

#[test]
fn snapshot_reads_the_server_without_changing_it() {
    let server = Server {
        name: "alpha".to_string(),
        real_addr: "203.0.113.9:4000".to_string(),
        rooms: vec![room_r1()],
    };
    let snap = GameServer::from_server(&server);
    assert_eq!(snap.name, "alpha");
    assert_eq!(snap.addr, "203.0.113.9:4000");
    assert_eq!(snap.rooms, vec![room_r1()]);
    // the stamp is RFC 3339 UTC text: date and time joined by 'T', zero offset
    assert!(!snap.last_ping.is_empty());
    assert!(snap.last_ping.contains('T'));
    assert!(snap.last_ping.ends_with("+00:00"));
    // a second snapshot is independent and reads the same live state
    let again = GameServer::from_server(&server);
    assert_eq!(again.rooms, snap.rooms);
    assert_eq!(server.name, "alpha");
    assert_eq!(server.rooms.len(), 1);
}

#[test]
fn snapshot_encodes_as_a_discovery_record() {
    let server = Server {
        name: "alpha".to_string(),
        real_addr: "203.0.113.9:4000".to_string(),
        rooms: vec![],
    };
    let snap = GameServer::from_server(&server);
    let wire = encode_gameserver(&snap);
    assert!(wire.starts_with(
        "{\"name\":\"alpha\",\"addr\":\"203.0.113.9:4000\",\"rooms\":[],\"last_ping\":\"",
    ));
    assert!(wire.ends_with("\"}"));

    let full = GameServer::from_server(&Server {
        name: "beta".to_string(),
        real_addr: "a:1".to_string(),
        rooms: vec![room_r1()],
    });
    let wire = encode_gameserver(&full);
    assert!(wire.contains("\"rooms\":[{\"id\":\"r1\""));
}

#[test]
fn snapshot_round_trips_through_the_wire() {
    let snap = GameServer::from_server(&Server {
        name: "alpha".to_string(),
        real_addr: "203.0.113.9:4000".to_string(),
        rooms: vec![room_r1()],
    });
    let wire = encode_gameserver(&snap);
    assert_eq!(decode_gameserver(&wire).unwrap(), snap);
}

#[test]
fn malformed_snapshot_text_fails_decoding() {
    assert_eq!(decode_gameserver("not json"), Err(ParseError));
    assert_eq!(decode_gameserver("{\"name\":\"alpha\"}"), Err(ParseError));
    assert_eq!(
        decode_gameserver(
            "{\"name\":\"a\",\"addr\":\"b\",\"rooms\":7,\"last_ping\":\"t\"}",
        ),
        Err(ParseError),
    );
}
