//! Errors of packet parsing, and the errors and warnings that the server
//! reports.
use crate::text::{bar_free, chars_eq_str, chars_of};
use vstd::prelude::*;

verus! {

/// The result of reading a server packet.
pub type Result<T> = core::result::Result<T, Error>;

/// What can go wrong while reading a server packet.
#[derive(Debug, Clone)]
pub enum Error {
    /// A numeric argument of the packet is not a `usize`.
    Parse(std::num::ParseIntError),
    /// The packet did not have a name field.
    NoName,
    /// The packet was not in the expected shape.
    MalformedPacket,
}

/// The variant of an [`Error`], without its payload.
#[derive(Debug, Clone, Copy, PartialEq, Eq, Structural)]
pub enum ErrorKind {
    Parse,
    NoName,
    MalformedPacket,
}

impl Error {
    pub open spec fn kind(&self) -> ErrorKind {
        match self {
            Error::Parse(_) => ErrorKind::Parse,
            Error::NoName => ErrorKind::NoName,
            Error::MalformedPacket => ErrorKind::MalformedPacket,
        }
    }
}

/// Errors and warnings reported by the server.
#[derive(Debug, Clone, Copy, PartialEq, Eq, Structural)]
pub enum ServerError {
    /// This player is connected already.
    AlreadyConnected,
    /// A dead player tried to chat.
    DeadCannotChat,
    /// The first packet was not a join.
    ExpectedJoin,
    /// The chat message was rejected.
    InvalidChatMessage,
    /// The password was rejected.
    InvalidPassword,
    /// The username was rejected.
    InvalidUsername,
    /// The join packet did not arrive in time.
    JoinTimeout,
    /// Another connection from the same address is open.
    MaxConnections,
    /// No move arrived in time; the server repeats the last one (up at first).
    NoMove,
    /// The client asked for something it may not do.
    NoPermission,
    /// A packet longer than the server's limit of 1024 bytes.
    PacketOverflow,
    /// The password is above the maximum length.
    PasswordTooLong,
    /// The password is below the minimum length.
    PasswordTooShort,
    /// Too many packets in too short a time.
    Spam,
    /// A move packet named no known direction (a warning).
    UnknownMove,
    /// The server did not recognise the packet.
    UnknownPacket,
    /// The username holds characters the server forbids.
    UsernameInvalidSymbols,
    /// The username is above the maximum length.
    UsernameTooLong,
    /// The username is below the minimum length.
    UsernameTooShort,
    /// The password does not match the player's.
    WrongPassword,
}

/// The wire-format code of each server error.
pub open spec fn spec_code(e: ServerError) -> Seq<char> {
    match e {
        ServerError::AlreadyConnected => "ERROR_ALREADY_CONNECTED"@,
        ServerError::DeadCannotChat => "ERROR_DEAD_CANNOT_CHAT"@,
        ServerError::ExpectedJoin => "ERROR_EXPECTED_JOIN"@,
        ServerError::InvalidChatMessage => "ERROR_INVALID_CHAT_MESSAGE"@,
        ServerError::InvalidPassword => "ERROR_INVALID_PASSWORD"@,
        ServerError::InvalidUsername => "ERROR_INVALID_USERNAME"@,
        ServerError::JoinTimeout => "ERROR_JOIN_TIMEOUT"@,
        ServerError::MaxConnections => "ERROR_MAX_CONNECTIONS"@,
        ServerError::NoMove => "ERROR_NO_MOVE"@,
        ServerError::NoPermission => "ERROR_NO_PERMISSION"@,
        ServerError::PacketOverflow => "ERROR_PACKET_OVERFLOW"@,
        ServerError::PasswordTooLong => "ERROR_PASSWORD_TOO_LONG"@,
        ServerError::PasswordTooShort => "ERROR_PASSWORD_TOO_SHORT"@,
        ServerError::Spam => "ERROR_SPAM"@,
        ServerError::UnknownPacket => "ERROR_UNKNOWN_PACKET"@,
        ServerError::UsernameInvalidSymbols => "ERROR_USERNAME_INVALID_SYMBOLS"@,
        ServerError::UsernameTooLong => "ERROR_USERNAME_TOO_LONG"@,
        ServerError::UsernameTooShort => "ERROR_USERNAME_TOO_SHORT"@,
        ServerError::WrongPassword => "ERROR_WRONG_PASSWORD"@,
        ServerError::UnknownMove => "WARNING_UNKNOWN_MOVE"@,
    }
}

/// The server error whose code is `s`, if any.
pub open spec fn spec_from_code(s: Seq<char>) -> Option<ServerError> {
    if s == spec_code(ServerError::AlreadyConnected) {
        Some(ServerError::AlreadyConnected)
    } else if s == spec_code(ServerError::DeadCannotChat) {
        Some(ServerError::DeadCannotChat)
    } else if s == spec_code(ServerError::ExpectedJoin) {
        Some(ServerError::ExpectedJoin)
    } else if s == spec_code(ServerError::InvalidChatMessage) {
        Some(ServerError::InvalidChatMessage)
    } else if s == spec_code(ServerError::InvalidPassword) {
        Some(ServerError::InvalidPassword)
    } else if s == spec_code(ServerError::InvalidUsername) {
        Some(ServerError::InvalidUsername)
    } else if s == spec_code(ServerError::JoinTimeout) {
        Some(ServerError::JoinTimeout)
    } else if s == spec_code(ServerError::MaxConnections) {
        Some(ServerError::MaxConnections)
    } else if s == spec_code(ServerError::NoMove) {
        Some(ServerError::NoMove)
    } else if s == spec_code(ServerError::NoPermission) {
        Some(ServerError::NoPermission)
    } else if s == spec_code(ServerError::PacketOverflow) {
        Some(ServerError::PacketOverflow)
    } else if s == spec_code(ServerError::PasswordTooLong) {
        Some(ServerError::PasswordTooLong)
    } else if s == spec_code(ServerError::PasswordTooShort) {
        Some(ServerError::PasswordTooShort)
    } else if s == spec_code(ServerError::Spam) {
        Some(ServerError::Spam)
    } else if s == spec_code(ServerError::UnknownPacket) {
        Some(ServerError::UnknownPacket)
    } else if s == spec_code(ServerError::UsernameInvalidSymbols) {
        Some(ServerError::UsernameInvalidSymbols)
    } else if s == spec_code(ServerError::UsernameTooLong) {
        Some(ServerError::UsernameTooLong)
    } else if s == spec_code(ServerError::UsernameTooShort) {
        Some(ServerError::UsernameTooShort)
    } else if s == spec_code(ServerError::WrongPassword) {
        Some(ServerError::WrongPassword)
    } else if s == spec_code(ServerError::UnknownMove) {
        Some(ServerError::UnknownMove)
    } else {
        None
    }
}

impl ServerError {
    /// Returns the wire-format code string for this error.
    pub fn code(&self) -> (r: &'static str)
        ensures
            r@ == spec_code(*self),
    {
        match self {
            Self::AlreadyConnected => "ERROR_ALREADY_CONNECTED",
            Self::DeadCannotChat => "ERROR_DEAD_CANNOT_CHAT",
            Self::ExpectedJoin => "ERROR_EXPECTED_JOIN",
            Self::InvalidChatMessage => "ERROR_INVALID_CHAT_MESSAGE",
            Self::InvalidPassword => "ERROR_INVALID_PASSWORD",
            Self::InvalidUsername => "ERROR_INVALID_USERNAME",
            Self::JoinTimeout => "ERROR_JOIN_TIMEOUT",
            Self::MaxConnections => "ERROR_MAX_CONNECTIONS",
            Self::NoMove => "ERROR_NO_MOVE",
            Self::NoPermission => "ERROR_NO_PERMISSION",
            Self::PacketOverflow => "ERROR_PACKET_OVERFLOW",
            Self::PasswordTooLong => "ERROR_PASSWORD_TOO_LONG",
            Self::PasswordTooShort => "ERROR_PASSWORD_TOO_SHORT",
            Self::Spam => "ERROR_SPAM",
            Self::UnknownPacket => "ERROR_UNKNOWN_PACKET",
            Self::UsernameInvalidSymbols => "ERROR_USERNAME_INVALID_SYMBOLS",
            Self::UsernameTooLong => "ERROR_USERNAME_TOO_LONG",
            Self::UsernameTooShort => "ERROR_USERNAME_TOO_SHORT",
            Self::WrongPassword => "ERROR_WRONG_PASSWORD",
            Self::UnknownMove => "WARNING_UNKNOWN_MOVE",
        }
    }

    /// The server error whose code are the characters `s`.
    pub(crate) fn from_code_chars(s: &Vec<char>) -> (r: Option<ServerError>)
        ensures
            r == spec_from_code(s@),
    {
        if chars_eq_str(s, Self::AlreadyConnected.code()) {
            Some(Self::AlreadyConnected)
        } else if chars_eq_str(s, Self::DeadCannotChat.code()) {
            Some(Self::DeadCannotChat)
        } else if chars_eq_str(s, Self::ExpectedJoin.code()) {
            Some(Self::ExpectedJoin)
        } else if chars_eq_str(s, Self::InvalidChatMessage.code()) {
            Some(Self::InvalidChatMessage)
        } else if chars_eq_str(s, Self::InvalidPassword.code()) {
            Some(Self::InvalidPassword)
        } else if chars_eq_str(s, Self::InvalidUsername.code()) {
            Some(Self::InvalidUsername)
        } else if chars_eq_str(s, Self::JoinTimeout.code()) {
            Some(Self::JoinTimeout)
        } else if chars_eq_str(s, Self::MaxConnections.code()) {
            Some(Self::MaxConnections)
        } else if chars_eq_str(s, Self::NoMove.code()) {
            Some(Self::NoMove)
        } else if chars_eq_str(s, Self::NoPermission.code()) {
            Some(Self::NoPermission)
        } else if chars_eq_str(s, Self::PacketOverflow.code()) {
            Some(Self::PacketOverflow)
        } else if chars_eq_str(s, Self::PasswordTooLong.code()) {
            Some(Self::PasswordTooLong)
        } else if chars_eq_str(s, Self::PasswordTooShort.code()) {
            Some(Self::PasswordTooShort)
        } else if chars_eq_str(s, Self::Spam.code()) {
            Some(Self::Spam)
        } else if chars_eq_str(s, Self::UnknownPacket.code()) {
            Some(Self::UnknownPacket)
        } else if chars_eq_str(s, Self::UsernameInvalidSymbols.code()) {
            Some(Self::UsernameInvalidSymbols)
        } else if chars_eq_str(s, Self::UsernameTooLong.code()) {
            Some(Self::UsernameTooLong)
        } else if chars_eq_str(s, Self::UsernameTooShort.code()) {
            Some(Self::UsernameTooShort)
        } else if chars_eq_str(s, Self::WrongPassword.code()) {
            Some(Self::WrongPassword)
        } else if chars_eq_str(s, Self::UnknownMove.code()) {
            Some(Self::UnknownMove)
        } else {
            None
        }
    }

    /// Reads a wire-format code; any other string is a malformed packet.
    pub fn from_code(s: &str) -> (r: Result<ServerError>)
        ensures
            match r {
                Ok(e) => spec_from_code(s@) == Some(e),
                Err(err) => spec_from_code(s@) is None && err is MalformedPacket,
            },
    {
        let chars = chars_of(s);
        match Self::from_code_chars(&chars) {
            Some(e) => Ok(e),
            None => Err(Error::MalformedPacket),
        }
    }
}

/// The human-readable message of each server error.
pub open spec fn spec_message(e: ServerError) -> Seq<char> {
    match e {
        ServerError::AlreadyConnected => "You are already connected with this player."@,
        ServerError::DeadCannotChat => "You are dead so shush :^)"@,
        ServerError::ExpectedJoin => "Instead of join you sent some other packet."@,
        ServerError::InvalidChatMessage => "Something is wrong with your chat message."@,
        ServerError::InvalidPassword => "You used an invalid password."@,
        ServerError::InvalidUsername => "You used an invalid username."@,
        ServerError::JoinTimeout => "You didn't send the join packet."@,
        ServerError::MaxConnections => "Your ip is already connected."@,
        ServerError::NoMove => "You didn't send a move packet. Note: This takes either your last move or UP (default)."@,
        ServerError::NoPermission => "You should not do this :^)"@,
        ServerError::PacketOverflow => "You are sending more than 1024 bytes to the server."@,
        ServerError::PasswordTooLong => "Password is too long."@,
        ServerError::PasswordTooShort => "Password is too short."@,
        ServerError::Spam => "You are spamming the server."@,
        ServerError::UnknownMove => "You did not send a valid move packet."@,
        ServerError::UnknownPacket => "Server does not know what you want :D"@,
        ServerError::UsernameInvalidSymbols => "You used invalid symbols for the username."@,
        ServerError::UsernameTooLong => "Username is too long."@,
        ServerError::UsernameTooShort => "Username is too short."@,
        ServerError::WrongPassword => "Your password was wrong."@,
    }
}

/// The human-readable message of each kind of packet error.
pub open spec fn spec_error_message(k: ErrorKind) -> Seq<char> {
    match k {
        ErrorKind::Parse => "Failed parsing argument of packet."@,
        ErrorKind::NoName => "Packet did not have name field."@,
        ErrorKind::MalformedPacket => "Packet was not in the expected shape."@,
    }
}

impl Error {
    /// A human-readable description of the error.
    pub fn message(&self) -> (r: &'static str)
        ensures
            r@ == spec_error_message(self.kind()),
    {
        match self {
            Error::Parse(_) => "Failed parsing argument of packet.",
            Error::NoName => "Packet did not have name field.",
            Error::MalformedPacket => "Packet was not in the expected shape.",
        }
    }
}

impl ServerError {
    /// A human-readable description of the error or warning.
    pub fn message(&self) -> (r: &'static str)
        ensures
            r@ == spec_message(*self),
    {
        match self {
            Self::AlreadyConnected => "You are already connected with this player.",
            Self::DeadCannotChat => "You are dead so shush :^)",
            Self::ExpectedJoin => "Instead of join you sent some other packet.",
            Self::InvalidChatMessage => "Something is wrong with your chat message.",
            Self::InvalidPassword => "You used an invalid password.",
            Self::InvalidUsername => "You used an invalid username.",
            Self::JoinTimeout => "You didn't send the join packet.",
            Self::MaxConnections => "Your ip is already connected.",
            Self::NoMove => "You didn't send a move packet. Note: This takes either your last move or UP (default).",
            Self::NoPermission => "You should not do this :^)",
            Self::PacketOverflow => "You are sending more than 1024 bytes to the server.",
            Self::PasswordTooLong => "Password is too long.",
            Self::PasswordTooShort => "Password is too short.",
            Self::Spam => "You are spamming the server.",
            Self::UnknownMove => "You did not send a valid move packet.",
            Self::UnknownPacket => "Server does not know what you want :D",
            Self::UsernameInvalidSymbols => "You used invalid symbols for the username.",
            Self::UsernameTooLong => "Username is too long.",
            Self::UsernameTooShort => "Username is too short.",
            Self::WrongPassword => "Your password was wrong.",
        }
    }
}

impl std::str::FromStr for ServerError {
    type Err = Error;

    fn from_str(s: &str) -> (r: Result<ServerError>)
        ensures
            match r {
                Ok(e) => spec_from_code(s@) == Some(e),
                Err(err) => spec_from_code(s@) is None && err is MalformedPacket,
            },
    {
        ServerError::from_code(s)
    }
}

/// Every server error is read back from its own code, and codes contain no
/// field separator.
pub proof fn lemma_code_roundtrip(e: ServerError)
    ensures
        spec_from_code(spec_code(e)) == Some(e),
        bar_free(spec_code(e)),
{
    reveal_strlit("ERROR_ALREADY_CONNECTED");
    reveal_strlit("ERROR_DEAD_CANNOT_CHAT");
    reveal_strlit("ERROR_EXPECTED_JOIN");
    reveal_strlit("ERROR_INVALID_CHAT_MESSAGE");
    reveal_strlit("ERROR_INVALID_PASSWORD");
    reveal_strlit("ERROR_INVALID_USERNAME");
    reveal_strlit("ERROR_JOIN_TIMEOUT");
    reveal_strlit("ERROR_MAX_CONNECTIONS");
    reveal_strlit("ERROR_NO_MOVE");
    reveal_strlit("ERROR_NO_PERMISSION");
    reveal_strlit("ERROR_PACKET_OVERFLOW");
    reveal_strlit("ERROR_PASSWORD_TOO_LONG");
    reveal_strlit("ERROR_PASSWORD_TOO_SHORT");
    reveal_strlit("ERROR_SPAM");
    reveal_strlit("ERROR_UNKNOWN_PACKET");
    reveal_strlit("ERROR_USERNAME_INVALID_SYMBOLS");
    reveal_strlit("ERROR_USERNAME_TOO_LONG");
    reveal_strlit("ERROR_USERNAME_TOO_SHORT");
    reveal_strlit("ERROR_WRONG_PASSWORD");
    reveal_strlit("WARNING_UNKNOWN_MOVE");
    assert(spec_code(ServerError::AlreadyConnected).len() == 23);
    assert(spec_code(ServerError::DeadCannotChat).len() == 22);
    assert(spec_code(ServerError::ExpectedJoin).len() == 19);
    assert(spec_code(ServerError::InvalidChatMessage).len() == 26);
    assert(spec_code(ServerError::InvalidPassword).len() == 22);
    assert(spec_code(ServerError::InvalidUsername).len() == 22);
    assert(spec_code(ServerError::JoinTimeout).len() == 18);
    assert(spec_code(ServerError::MaxConnections).len() == 21);
    assert(spec_code(ServerError::NoMove).len() == 13);
    assert(spec_code(ServerError::NoPermission).len() == 19);
    assert(spec_code(ServerError::PacketOverflow).len() == 21);
    assert(spec_code(ServerError::PasswordTooLong).len() == 23);
    assert(spec_code(ServerError::PasswordTooShort).len() == 24);
    assert(spec_code(ServerError::Spam).len() == 10);
    assert(spec_code(ServerError::UnknownPacket).len() == 20);
    assert(spec_code(ServerError::UsernameInvalidSymbols).len() == 30);
    assert(spec_code(ServerError::UsernameTooLong).len() == 23);
    assert(spec_code(ServerError::UsernameTooShort).len() == 24);
    assert(spec_code(ServerError::WrongPassword).len() == 20);
    assert(spec_code(ServerError::UnknownMove).len() == 20);
    assert(spec_code(ServerError::AlreadyConnected)[6] == 'A');
    assert(spec_code(ServerError::DeadCannotChat)[6] == 'D');
    assert(spec_code(ServerError::ExpectedJoin)[6] == 'E');
    assert(spec_code(ServerError::InvalidPassword)[6] == 'I');
    assert(spec_code(ServerError::InvalidPassword)[14] == 'P');
    assert(spec_code(ServerError::InvalidUsername)[6] == 'I');
    assert(spec_code(ServerError::InvalidUsername)[14] == 'U');
    assert(spec_code(ServerError::MaxConnections)[6] == 'M');
    assert(spec_code(ServerError::NoPermission)[6] == 'N');
    assert(spec_code(ServerError::PacketOverflow)[6] == 'P');
    assert(spec_code(ServerError::PasswordTooLong)[6] == 'P');
    assert(spec_code(ServerError::PasswordTooShort)[6] == 'P');
    assert(spec_code(ServerError::UnknownMove)[0] == 'W');
    assert(spec_code(ServerError::UnknownPacket)[0] == 'E');
    assert(spec_code(ServerError::UnknownPacket)[6] == 'U');
    assert(spec_code(ServerError::UsernameTooLong)[6] == 'U');
    assert(spec_code(ServerError::UsernameTooShort)[6] == 'U');
    assert(spec_code(ServerError::WrongPassword)[0] == 'E');
    assert(spec_code(ServerError::WrongPassword)[6] == 'W');
}

/// Different server errors have different codes.
pub proof fn lemma_code_injective(a: ServerError, b: ServerError)
    ensures
        spec_code(a) == spec_code(b) ==> a == b,
{
    lemma_code_roundtrip(a);
    lemma_code_roundtrip(b);
}

} // verus!
