use game_server::{AxialCord, Color, Command, EndedCause, Event, Game, InvalidCause, ParseError,
    Room, RoomConf, Stone};
use game_server::{decode_event, encode_command, encode_event, parse_command};

fn sample_conf() -> RoomConf {
    RoomConf { name: "friendly".to_string(), max_users: 6, observable: true }
}

fn sample_room() -> Room {
    Room {
        id: "r1".to_string(),
        name: "lobby one".to_string(),
        owner: "u1".to_string(),
        users: vec!["u1".to_string(), "u2".to_string()],
        conf: sample_conf(),
    }
}

fn sample_board() -> Vec<Vec<Stone>> {
    vec![
        vec![Stone::Blank, Stone::Black, Stone::White],
        vec![Stone::White, Stone::Blank],
        vec![],
    ]
}

#[test]
fn cause_encodes_to_fixed_strings() {
    assert_eq!(EndedCause::Timeout.encode(), "timeout");
    assert_eq!(EndedCause::Gg.encode(), "gg");
    assert_eq!(EndedCause::LostStones.encode(), "lost all stones");
}

#[test]
fn cause_decodes_only_fixed_strings() {
    assert_eq!(EndedCause::decode("timeout").unwrap(), EndedCause::Timeout);
    assert_eq!(EndedCause::decode("gg").unwrap(), EndedCause::Gg);
    assert_eq!(EndedCause::decode("lost all stones").unwrap(), EndedCause::LostStones);
    assert_eq!(EndedCause::decode("Timeout"), Err(InvalidCause));
    assert_eq!(EndedCause::decode(""), Err(InvalidCause));
    assert_eq!(EndedCause::decode("lost all stones "), Err(InvalidCause));
}

#[test]
fn command_round_trip_every_variant() {
    let commands = vec![
        Command::Connect { invite: "abc".to_string() },
        Command::Move {
            start: AxialCord { x: 0, y: 4 },
            end: AxialCord { x: -1, y: 2 },
            dir: AxialCord { x: 1, y: -1 },
        },
        Command::Chat { content: "hello \"there\"\n".to_string() },
        Command::Conf { conf: sample_conf() },
        Command::Start {},
        Command::Ban { user: "u2".to_string() },
        Command::Gg {},
    ];
    for c in commands {
        let wire = encode_command(&c);
        assert_eq!(parse_command(&wire).unwrap(), c);
    }
}

#[test]
fn event_round_trip_every_variant() {
    let events = vec![
        Event::Connected { room: sample_room() },
        Event::Started {
            board: sample_board(),
            black: "u1".to_string(),
            white: "u2".to_string(),
            turn: "black".to_string(),
        },
        Event::Entered { user: "u3".to_string() },
        Event::Error { message: "bad move".to_string() },
        Event::Moved {
            player: "black".to_string(),
            start: AxialCord { x: 2, y: 2 },
            end: AxialCord { x: 3, y: 2 },
            dir: AxialCord { x: 1, y: 0 },
        },
        Event::Chated { user: "u2".to_string(), content: "gg wp".to_string() },
        Event::Confed { conf: sample_conf() },
        Event::Left { user: "u2".to_string() },
        Event::Ended {
            loser: "u2".to_string(),
            color: "white".to_string(),
            cause: EndedCause::Timeout,
        },
        Event::Banned { user: "u4".to_string() },
    ];
    for e in events {
        let wire = encode_event(&e);
        assert_eq!(decode_event(&wire).unwrap(), e);
    }
}

#[test]
fn encode_connect_exact_wire_text() {
    let wire = encode_command(&Command::Connect { invite: "abc".to_string() });
    assert_eq!(wire, "{\"type\":\"connect\",\"invite\":\"abc\"}");
}

#[test]
fn encode_ended_carries_literal_cause() {
    let wire = encode_event(&Event::Ended {
        loser: "u1".to_string(),
        color: "black".to_string(),
        cause: EndedCause::LostStones,
    });
    assert_eq!(
        wire,
        "{\"type\":\"ended\",\"loser\":\"u1\",\"color\":\"black\",\"cause\":\"lost all stones\"}",
    );
}

#[test]
fn unknown_discriminant_fails_parsing() {
    assert_eq!(parse_command("{\"type\":\"teleport\"}"), Err(ParseError));
}

#[test]
fn malformed_text_fails_parsing() {
    assert_eq!(parse_command("not json at all"), Err(ParseError));
    assert_eq!(parse_command(""), Err(ParseError));
    assert_eq!(parse_command("[1,2,3]"), Err(ParseError));
    assert_eq!(parse_command("{\"kind\":\"connect\"}"), Err(ParseError));
}

#[test]
fn missing_or_mismatched_fields_fail_parsing() {
    assert_eq!(parse_command("{\"type\":\"connect\"}"), Err(ParseError));
    assert_eq!(parse_command("{\"type\":\"connect\",\"invite\":7}"), Err(ParseError));
    assert_eq!(
        parse_command("{\"type\":\"move\",\"start\":{\"x\":0,\"y\":0},\"end\":{\"x\":1}}"),
        Err(ParseError),
    );
    assert_eq!(decode_event("{\"type\":\"warped\"}"), Err(ParseError));
    assert_eq!(
        decode_event(
            "{\"type\":\"ended\",\"loser\":\"u1\",\"color\":\"black\",\"cause\":\"resigned\"}",
        ),
        Err(ParseError),
    );
}

#[test]
fn parsing_accepts_reordered_fields_and_whitespace() {
    let c = parse_command(" { \"invite\" : \"abc\" , \"type\" : \"connect\" } ").unwrap();
    assert_eq!(c, Command::Connect { invite: "abc".to_string() });
    let m = parse_command(
        "{\"dir\":{\"y\":0,\"x\":1},\"type\":\"move\",\"end\":{\"x\":3,\"y\":2},\"start\":{\"x\":2,\"y\":2}}",
    )
    .unwrap();
    assert_eq!(
        m,
        Command::Move {
            start: AxialCord { x: 2, y: 2 },
            end: AxialCord { x: 3, y: 2 },
            dir: AxialCord { x: 1, y: 0 },
        },
    );
}

#[test]
fn parsing_ignores_extra_fields() {
    let c = parse_command("{\"type\":\"chat\",\"content\":\"hi\",\"padding\":true}").unwrap();
    assert_eq!(c, Command::Chat { content: "hi".to_string() });
}

#[test]
fn started_event_decodes_board_cells() {
    let e = decode_event(
        "{\"type\":\"started\",\"board\":[[\"blank\",\"black\"],[\"white\"]],\"black\":\"u1\",\"white\":\"u2\",\"turn\":\"black\"}",
    )
    .unwrap();
    assert_eq!(
        e,
        Event::Started {
            board: vec![vec![Stone::Blank, Stone::Black], vec![Stone::White]],
            black: "u1".to_string(),
            white: "u2".to_string(),
            turn: "black".to_string(),
        },
    );
}

#[test]
fn game_to_started_reports_first_mover() {
    let game = Game {
        board: sample_board(),
        black: "u1".to_string(),
        white: "u2".to_string(),
        turn: Color::Black,
    };
    let started = Event::game_to_started(&game);
    assert_eq!(
        started,
        Event::Started {
            board: sample_board(),
            black: "u1".to_string(),
            white: "u2".to_string(),
            turn: "black".to_string(),
        },
    );
    let wire = encode_event(&started);
    assert_eq!(decode_event(&wire).unwrap(), started);
}
