use gpn_tron::errors::{Error, ServerError};

const ALL: [(ServerError, &str); 20] = [
    (ServerError::Spam, "ERROR_SPAM"),
    (ServerError::PacketOverflow, "ERROR_PACKET_OVERFLOW"),
    (ServerError::NoMove, "ERROR_NO_MOVE"),
    (ServerError::MaxConnections, "ERROR_MAX_CONNECTIONS"),
    (ServerError::JoinTimeout, "ERROR_JOIN_TIMEOUT"),
    (ServerError::ExpectedJoin, "ERROR_EXPECTED_JOIN"),
    (ServerError::InvalidUsername, "ERROR_INVALID_USERNAME"),
    (ServerError::UsernameTooShort, "ERROR_USERNAME_TOO_SHORT"),
    (ServerError::UsernameTooLong, "ERROR_USERNAME_TOO_LONG"),
    (ServerError::UsernameInvalidSymbols, "ERROR_USERNAME_INVALID_SYMBOLS"),
    (ServerError::InvalidPassword, "ERROR_INVALID_PASSWORD"),
    (ServerError::PasswordTooShort, "ERROR_PASSWORD_TOO_SHORT"),
    (ServerError::PasswordTooLong, "ERROR_PASSWORD_TOO_LONG"),
    (ServerError::NoPermission, "ERROR_NO_PERMISSION"),
    (ServerError::WrongPassword, "ERROR_WRONG_PASSWORD"),
    (ServerError::AlreadyConnected, "ERROR_ALREADY_CONNECTED"),
    (ServerError::UnknownMove, "WARNING_UNKNOWN_MOVE"),
    (ServerError::DeadCannotChat, "ERROR_DEAD_CANNOT_CHAT"),
    (ServerError::InvalidChatMessage, "ERROR_INVALID_CHAT_MESSAGE"),
    (ServerError::UnknownPacket, "ERROR_UNKNOWN_PACKET"),
];

#[test]
fn every_code_is_as_documented() {
    for (e, code) in ALL {
        assert_eq!(e.code(), code);
    }
}

#[test]
fn every_code_reads_back() {
    for (e, code) in ALL {
        assert_eq!(ServerError::from_code(code).unwrap(), e);
        assert_eq!(code.parse::<ServerError>().unwrap(), e);
        assert_eq!(ServerError::from_code(e.code()).unwrap(), e);
    }
}

#[test]
fn unknown_codes_are_malformed() {
    assert!(matches!(ServerError::from_code("ERROR_spam"), Err(Error::MalformedPacket)));
    assert!(matches!(ServerError::from_code(""), Err(Error::MalformedPacket)));
    assert!(matches!("ERROR_SPAM ".parse::<ServerError>(), Err(Error::MalformedPacket)));
}

#[test]
fn messages_describe_the_errors() {
    assert_eq!(ServerError::Spam.message(), "You are spamming the server.");
    assert_eq!(
        ServerError::NoMove.message(),
        "You didn't send a move packet. Note: This takes either your last move or UP (default)."
    );
    assert_eq!(ServerError::UnknownPacket.message(), "Server does not know what you want :D");
    assert_eq!(Error::MalformedPacket.message(), "Packet was not in the expected shape.");
    assert_eq!(Error::NoName.message(), "Packet did not have name field.");
    let parse_error = "x".parse::<usize>().unwrap_err();
    assert_eq!(Error::Parse(parse_error).message(), "Failed parsing argument of packet.");
}

#[test]
fn errors_can_be_cloned() {
    let e = ServerError::from_code("nope").unwrap_err();
    assert!(matches!(e.clone(), Error::MalformedPacket));
    let parse_error = "".parse::<usize>().unwrap_err();
    match Error::Parse(parse_error.clone()).clone() {
        Error::Parse(p) => assert_eq!(p, parse_error),
        other => panic!("unexpected {other:?}"),
    }
}
