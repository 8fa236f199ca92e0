use gpn_tron::errors::{Error, ServerError};
use gpn_tron::packets::{ClientPacket, MoveDirection, ServerPacket};

fn parse_ok(s: &str) -> ServerPacket {
    match ServerPacket::parse(s) {
        Ok(p) => p,
        Err(e) => panic!("{s:?} did not parse: {e:?}"),
    }
}

#[test]
fn parses_game() {
    match parse_ok("game|64|48|7") {
        ServerPacket::Game { width, height, curr_player_id } => {
            assert_eq!((width, height, curr_player_id), (64, 48, 7));
        }
        p => panic!("unexpected {p:?}"),
    }
}

#[test]
fn parses_position_with_plus_sign_and_extra_fields() {
    match parse_ok("pos|+3|0012|5|ignored") {
        ServerPacket::Position { player_id, x, y } => assert_eq!((player_id, x, y), (3, 12, 5)),
        p => panic!("unexpected {p:?}"),
    }
}

#[test]
fn parses_motd_keeping_separators() {
    match parse_ok("motd|hello|world") {
        ServerPacket::MessageOfTheDay(c) => assert_eq!(c, "hello|world"),
        p => panic!("unexpected {p:?}"),
    }
    match parse_ok("motd||") {
        ServerPacket::MessageOfTheDay(c) => assert_eq!(c, "|"),
        p => panic!("unexpected {p:?}"),
    }
}

#[test]
fn empty_motd_is_malformed() {
    assert!(matches!(ServerPacket::parse("motd"), Err(Error::MalformedPacket)));
    assert!(matches!(ServerPacket::parse("motd|"), Err(Error::MalformedPacket)));
}

#[test]
fn parses_player_with_unicode_name() {
    match parse_ok("player|42|Zoë ☃|x") {
        ServerPacket::Player { id, name } => {
            assert_eq!(id, 42);
            assert_eq!(name, "Zoë ☃");
        }
        p => panic!("unexpected {p:?}"),
    }
}

#[test]
fn player_without_name_is_malformed() {
    assert!(matches!(ServerPacket::parse("player|42"), Err(Error::MalformedPacket)));
    assert!(matches!(ServerPacket::parse("player"), Err(Error::MalformedPacket)));
    assert!(matches!(ServerPacket::parse("player|x"), Err(Error::Parse(_))));
}

#[test]
fn parses_tick_and_ignores_trailing_fields() {
    assert!(matches!(parse_ok("tick"), ServerPacket::Tick));
    assert!(matches!(parse_ok("tick|1"), ServerPacket::Tick));
}

#[test]
fn parses_die() {
    match parse_ok("die|1|22|333") {
        ServerPacket::Die { user_ids } => assert_eq!(user_ids, vec![1, 22, 333]),
        p => panic!("unexpected {p:?}"),
    }
}

#[test]
fn die_errors() {
    assert!(matches!(ServerPacket::parse("die"), Err(Error::MalformedPacket)));
    assert!(matches!(ServerPacket::parse("die|"), Err(Error::Parse(_))));
    assert!(matches!(ServerPacket::parse("die|1|x"), Err(Error::Parse(_))));
}

#[test]
fn parses_message() {
    match parse_ok("message|9|hi|there") {
        ServerPacket::Message { player_id, content } => {
            assert_eq!(player_id, 9);
            assert_eq!(content, "hi|there");
        }
        p => panic!("unexpected {p:?}"),
    }
    assert!(matches!(ServerPacket::parse("message|9"), Err(Error::MalformedPacket)));
    assert!(matches!(ServerPacket::parse("message|9|"), Err(Error::MalformedPacket)));
}

#[test]
fn parses_win_and_lose() {
    match parse_ok("win|3|4") {
        ServerPacket::Win { total_wins, total_losses } => assert_eq!((total_wins, total_losses), (3, 4)),
        p => panic!("unexpected {p:?}"),
    }
    match parse_ok("lose|5|6") {
        ServerPacket::Lose { total_wins, total_losses } => assert_eq!((total_wins, total_losses), (5, 6)),
        p => panic!("unexpected {p:?}"),
    }
}

#[test]
fn parses_error_packets() {
    match parse_ok("error|ERROR_SPAM") {
        ServerPacket::Error(e) => assert_eq!(e, ServerError::Spam),
        p => panic!("unexpected {p:?}"),
    }
    match parse_ok("error|WARNING_UNKNOWN_MOVE") {
        ServerPacket::Error(e) => assert_eq!(e, ServerError::UnknownMove),
        p => panic!("unexpected {p:?}"),
    }
    assert!(matches!(ServerPacket::parse("error|ERROR_NOPE"), Err(Error::MalformedPacket)));
    assert!(matches!(ServerPacket::parse("error"), Err(Error::MalformedPacket)));
}

#[test]
fn number_errors_come_before_missing_fields() {
    assert!(matches!(ServerPacket::parse("game|x"), Err(Error::Parse(_))));
    assert!(matches!(ServerPacket::parse("game|1|2"), Err(Error::MalformedPacket)));
    assert!(matches!(ServerPacket::parse("game|1|-2|3"), Err(Error::Parse(_))));
    assert!(matches!(ServerPacket::parse("pos|1|2|+"), Err(Error::Parse(_))));
    assert!(matches!(ServerPacket::parse("win|1"), Err(Error::MalformedPacket)));
    assert!(matches!(ServerPacket::parse("lose|99999999999999999999999|1"), Err(Error::Parse(_))));
}

#[test]
fn unknown_or_empty_names_are_malformed() {
    assert!(matches!(ServerPacket::parse(""), Err(Error::MalformedPacket)));
    assert!(matches!(ServerPacket::parse("|tick"), Err(Error::MalformedPacket)));
    assert!(matches!(ServerPacket::parse("Tick"), Err(Error::MalformedPacket)));
    assert!(matches!(ServerPacket::parse("tick\n"), Err(Error::MalformedPacket)));
}

#[test]
fn server_packets_are_written_as_lines() {
    assert_eq!(
        ServerPacket::Game { width: 10, height: 20, curr_player_id: 3 }.to_string(),
        "game|10|20|3\n"
    );
    assert_eq!(ServerPacket::Position { player_id: 0, x: 105, y: 9 }.to_string(), "pos|0|105|9\n");
    assert_eq!(ServerPacket::MessageOfTheDay("a|b".to_string()).to_string(), "motd|a|b\n");
    assert_eq!(ServerPacket::Player { id: 1, name: "bob".to_string() }.to_string(), "player|1|bob\n");
    assert_eq!(ServerPacket::Tick.to_string(), "tick\n");
    assert_eq!(ServerPacket::Die { user_ids: vec![4, 50] }.to_string(), "die|4|50\n");
    assert_eq!(ServerPacket::Die { user_ids: vec![] }.to_string(), "die\n");
    assert_eq!(
        ServerPacket::Message { player_id: 7, content: "yo".to_string() }.to_string(),
        "message|7|yo\n"
    );
    assert_eq!(ServerPacket::Win { total_wins: 1, total_losses: 2 }.to_string(), "win|1|2\n");
    assert_eq!(ServerPacket::Lose { total_wins: 3, total_losses: 4 }.to_string(), "lose|3|4\n");
    assert_eq!(ServerPacket::Error(ServerError::NoMove).to_string(), "error|ERROR_NO_MOVE\n");
    assert_eq!(
        ServerPacket::Game { width: usize::MAX, height: 0, curr_player_id: 1000 }.to_string(),
        format!("game|{}|0|1000\n", usize::MAX)
    );
}

fn roundtrip(p: ServerPacket) {
    let line = p.to_string();
    let text = line.strip_suffix('\n').unwrap();
    let back = ServerPacket::parse(text).unwrap();
    assert_eq!(back.to_string(), line);
}

#[test]
fn server_packets_read_back() {
    roundtrip(ServerPacket::Game { width: usize::MAX, height: 1, curr_player_id: 0 });
    roundtrip(ServerPacket::Position { player_id: 2, x: 3, y: 4 });
    roundtrip(ServerPacket::MessageOfTheDay("welcome | to tron".to_string()));
    roundtrip(ServerPacket::Player { id: 5, name: "ünïcode".to_string() });
    roundtrip(ServerPacket::Tick);
    roundtrip(ServerPacket::Die { user_ids: vec![1, 2, 3] });
    roundtrip(ServerPacket::Message { player_id: 8, content: "a|b|c".to_string() });
    roundtrip(ServerPacket::Win { total_wins: 10, total_losses: 0 });
    roundtrip(ServerPacket::Lose { total_wins: 0, total_losses: 10 });
    roundtrip(ServerPacket::Error(ServerError::UnknownPacket));
}

#[test]
fn client_packets_are_written_as_lines() {
    assert_eq!(ClientPacket::join("me", "secret").to_string(), "join|me|secret\n");
    assert_eq!(ClientPacket::Move(MoveDirection::Up).to_string(), "move|up\n");
    assert_eq!(ClientPacket::Move(MoveDirection::Down).to_string(), "move|down\n");
    assert_eq!(ClientPacket::Move(MoveDirection::Left).to_string(), "move|left\n");
    assert_eq!(ClientPacket::Move(MoveDirection::Right).to_string(), "move|right\n");
    assert_eq!(ClientPacket::Chat("gg".to_string()).to_string(), "chat|gg\n");
}

#[test]
fn join_keeps_credentials() {
    match ClientPacket::join("alice", "pw") {
        ClientPacket::Join { username, password } => {
            assert_eq!(username, "alice");
            assert_eq!(password, "pw");
        }
        _ => panic!("not a join packet"),
    }
}

#[test]
fn direction_names() {
    assert_eq!(MoveDirection::Up.name(), "up");
    assert_eq!(MoveDirection::Right.to_string(), "right");
}
