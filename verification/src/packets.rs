//! The packets of the GPN Tron line protocol: what the server sends, what the
//! client sends, and their text form.
use crate::errors::{lemma_code_roundtrip, spec_code, spec_from_code, Error, ErrorKind, ServerError};
use crate::text::{
    bar_free, chars_eq_str, chars_of, decimal, decimal_chars, fields_view, join_bar, join_fields,
    lemma_join_split, lemma_split_bar_concat, lemma_split_bar_nonempty, lemma_split_bar_free, lemma_split_join,
    lemma_usize_field_decimal, line_of, parse_usize, split_bar, split_fields, string_from_chars,
    usize_field,
};
use vstd::prelude::*;

verus! {

/// Packets sent by the server to the client.
#[derive(Clone, Debug)]
pub enum ServerPacket {
    /// Inform about new round.
    Game { width: usize, height: usize, curr_player_id: usize },
    /// Inform about player's position.
    Position { player_id: usize, x: usize, y: usize },
    /// At connection.
    MessageOfTheDay(String),
    /// Share player information.
    Player { id: usize, name: String },
    /// Every time a turn has been done.
    Tick,
    /// Inform about who died.
    Die { user_ids: Vec<usize> },
    /// Inform of a message by another player.
    Message { player_id: usize, content: String },
    /// Inform the client they won.
    Win { total_wins: usize, total_losses: usize },
    /// Inform the client they lost.
    Lose { total_wins: usize, total_losses: usize },
    /// An error or warning reported by the server.
    Error(ServerError),
}

/// A server packet with its strings as character sequences.
pub enum ServerPacketView {
    Game { width: usize, height: usize, curr_player_id: usize },
    Position { player_id: usize, x: usize, y: usize },
    MessageOfTheDay(Seq<char>),
    Player { id: usize, name: Seq<char> },
    Tick,
    Die { user_ids: Seq<usize> },
    Message { player_id: usize, content: Seq<char> },
    Win { total_wins: usize, total_losses: usize },
    Lose { total_wins: usize, total_losses: usize },
    Error(ServerError),
}

impl View for ServerPacket {
    type V = ServerPacketView;

    open spec fn view(&self) -> ServerPacketView {
        match self {
            ServerPacket::Game { width, height, curr_player_id } => ServerPacketView::Game {
                width: *width,
                height: *height,
                curr_player_id: *curr_player_id,
            },
            ServerPacket::Position { player_id, x, y } => ServerPacketView::Position {
                player_id: *player_id,
                x: *x,
                y: *y,
            },
            ServerPacket::MessageOfTheDay(c) => ServerPacketView::MessageOfTheDay(c@),
            ServerPacket::Player { id, name } => ServerPacketView::Player { id: *id, name: name@ },
            ServerPacket::Tick => ServerPacketView::Tick,
            ServerPacket::Die { user_ids } => ServerPacketView::Die { user_ids: user_ids@ },
            ServerPacket::Message { player_id, content } => ServerPacketView::Message {
                player_id: *player_id,
                content: content@,
            },
            ServerPacket::Win { total_wins, total_losses } => ServerPacketView::Win {
                total_wins: *total_wins,
                total_losses: *total_losses,
            },
            ServerPacket::Lose { total_wins, total_losses } => ServerPacketView::Lose {
                total_wins: *total_wins,
                total_losses: *total_losses,
            },
            ServerPacket::Error(e) => ServerPacketView::Error(*e),
        }
    }
}

/// Field `i` of a packet read as a number: missing is malformed, present but
/// not a `usize` is a parse error.
pub open spec fn spec_num(f: Seq<Seq<char>>, i: int) -> Result<usize, ErrorKind> {
    if i < f.len() {
        match usize_field(f[i]) {
            Some(v) => Ok(v),
            None => Err(ErrorKind::Parse),
        }
    } else {
        Err(ErrorKind::MalformedPacket)
    }
}

/// Fields `i` and `i + 1` read as numbers, the first error winning.
pub open spec fn spec_num2(f: Seq<Seq<char>>, i: int) -> Result<(usize, usize), ErrorKind> {
    match spec_num(f, i) {
        Err(k) => Err(k),
        Ok(a) => match spec_num(f, i + 1) {
            Err(k) => Err(k),
            Ok(b) => Ok((a, b)),
        },
    }
}

/// Fields `i`, `i + 1` and `i + 2` read as numbers, the first error winning.
pub open spec fn spec_num3(f: Seq<Seq<char>>, i: int) -> Result<(usize, usize, usize), ErrorKind> {
    match spec_num2(f, i) {
        Err(k) => Err(k),
        Ok((a, b)) => match spec_num(f, i + 2) {
            Err(k) => Err(k),
            Ok(c) => Ok((a, b, c)),
        },
    }
}

/// Every field is a number.
pub open spec fn all_numbers(f: Seq<Seq<char>>) -> bool {
    forall|i: int| 0 <= i < f.len() ==> (#[trigger] usize_field(f[i])) is Some
}

/// The numbers that the fields denote.
pub open spec fn numbers(f: Seq<Seq<char>>) -> Seq<usize> {
    f.map_values(|x: Seq<char>| usize_field(x).unwrap())
}

/// A `die` packet with the ids `rest`: every id must be a number, and there
/// must be at least one.
pub open spec fn spec_die(rest: Seq<Seq<char>>) -> Result<ServerPacketView, ErrorKind> {
    if !all_numbers(rest) {
        Err(ErrorKind::Parse)
    } else if rest.len() == 0 {
        Err(ErrorKind::MalformedPacket)
    } else {
        Ok(ServerPacketView::Die { user_ids: numbers(rest) })
    }
}

/// What a server line, split into its fields `f`, denotes.
pub open spec fn spec_parse_fields(f: Seq<Seq<char>>) -> Result<ServerPacketView, ErrorKind> {
    let name = f[0];
    if name == "game"@ {
        match spec_num3(f, 1) {
            Err(k) => Err(k),
            Ok((w, h, c)) => Ok(ServerPacketView::Game { width: w, height: h, curr_player_id: c }),
        }
    } else if name == "pos"@ {
        match spec_num3(f, 1) {
            Err(k) => Err(k),
            Ok((p, x, y)) => Ok(ServerPacketView::Position { player_id: p, x: x, y: y }),
        }
    } else if name == "motd"@ {
        let content = join_bar(f.skip(1));
        if content.len() == 0 {
            Err(ErrorKind::MalformedPacket)
        } else {
            Ok(ServerPacketView::MessageOfTheDay(content))
        }
    } else if name == "error"@ {
        if f.len() < 2 {
            Err(ErrorKind::MalformedPacket)
        } else {
            match spec_from_code(f[1]) {
                Some(e) => Ok(ServerPacketView::Error(e)),
                None => Err(ErrorKind::MalformedPacket),
            }
        }
    } else if name == "player"@ {
        match spec_num(f, 1) {
            Err(k) => Err(k),
            Ok(id) => if f.len() < 3 {
                Err(ErrorKind::MalformedPacket)
            } else {
                Ok(ServerPacketView::Player { id: id, name: f[2] })
            },
        }
    } else if name == "tick"@ {
        Ok(ServerPacketView::Tick)
    } else if name == "die"@ {
        spec_die(f.skip(1))
    } else if name == "message"@ {
        match spec_num(f, 1) {
            Err(k) => Err(k),
            Ok(p) => {
                let content = join_bar(f.skip(2));
                if content.len() == 0 {
                    Err(ErrorKind::MalformedPacket)
                } else {
                    Ok(ServerPacketView::Message { player_id: p, content: content })
                }
            },
        }
    } else if name == "win"@ {
        match spec_num2(f, 1) {
            Err(k) => Err(k),
            Ok((w, l)) => Ok(ServerPacketView::Win { total_wins: w, total_losses: l }),
        }
    } else if name == "lose"@ {
        match spec_num2(f, 1) {
            Err(k) => Err(k),
            Ok((w, l)) => Ok(ServerPacketView::Lose { total_wins: w, total_losses: l }),
        }
    } else {
        Err(ErrorKind::MalformedPacket)
    }
}

/// What a server line (without its newline) denotes.
pub open spec fn spec_parse(s: Seq<char>) -> Result<ServerPacketView, ErrorKind> {
    spec_parse_fields(split_bar(s))
}

/// The fields of a server packet in its text form.
pub open spec fn server_fields(p: ServerPacketView) -> Seq<Seq<char>> {
    match p {
        ServerPacketView::Game { width, height, curr_player_id } => seq![
            "game"@,
            decimal(width as nat),
            decimal(height as nat),
            decimal(curr_player_id as nat),
        ],
        ServerPacketView::Position { player_id, x, y } => seq![
            "pos"@,
            decimal(player_id as nat),
            decimal(x as nat),
            decimal(y as nat),
        ],
        ServerPacketView::MessageOfTheDay(content) => seq!["motd"@, content],
        ServerPacketView::Player { id, name } => seq!["player"@, decimal(id as nat), name],
        ServerPacketView::Tick => seq!["tick"@],
        ServerPacketView::Die { user_ids } => seq!["die"@] + user_ids.map_values(
            |v: usize| decimal(v as nat),
        ),
        ServerPacketView::Message { player_id, content } => seq![
            "message"@,
            decimal(player_id as nat),
            content,
        ],
        ServerPacketView::Win { total_wins, total_losses } => seq![
            "win"@,
            decimal(total_wins as nat),
            decimal(total_losses as nat),
        ],
        ServerPacketView::Lose { total_wins, total_losses } => seq![
            "lose"@,
            decimal(total_wins as nat),
            decimal(total_losses as nat),
        ],
        ServerPacketView::Error(e) => seq!["error"@, spec_code(e)],
    }
}

/// The text form of a server packet: its fields joined by `|`, then a newline.
pub open spec fn server_line(p: ServerPacketView) -> Seq<char> {
    join_bar(server_fields(p)) + seq!['\n']
}

/// Field `i` read as a number.
fn num_field(f: &Vec<Vec<char>>, i: usize) -> (r: Result<usize, Error>)
    ensures
        match r {
            Ok(v) => spec_num(fields_view(f@), i as int) == Ok::<usize, ErrorKind>(v),
            Err(e) => spec_num(fields_view(f@), i as int) == Err::<usize, ErrorKind>(e.kind()),
        },
{
    if i < f.len() {
        let text = string_from_chars(&f[i]);
        match parse_usize(text.as_str()) {
            Ok(v) => Ok(v),
            Err(e) => Err(Error::Parse(e)),
        }
    } else {
        Err(Error::MalformedPacket)
    }
}

impl ServerPacket {
    /// Reads one line sent by the server, without its newline.
    pub fn parse(s: &str) -> (r: Result<ServerPacket, Error>)
        ensures
            match r {
                Ok(p) => spec_parse(s@) == Ok::<ServerPacketView, ErrorKind>(p@),
                Err(e) => spec_parse(s@) == Err::<ServerPacketView, ErrorKind>(e.kind()),
            },
    {
        let chars = chars_of(s);
        let f = split_fields(&chars);
        let ghost fv = fields_view(f@);
        assert(fv[0] == f@[0]@);
        let name = &f[0];
        if chars_eq_str(name, "game") {
            let width = match num_field(&f, 1) {
                Ok(v) => v,
                Err(e) => return Err(e),
            };
            let height = match num_field(&f, 2) {
                Ok(v) => v,
                Err(e) => return Err(e),
            };
            let curr_player_id = match num_field(&f, 3) {
                Ok(v) => v,
                Err(e) => return Err(e),
            };
            Ok(ServerPacket::Game { width, height, curr_player_id })
        } else if chars_eq_str(name, "pos") {
            let player_id = match num_field(&f, 1) {
                Ok(v) => v,
                Err(e) => return Err(e),
            };
            let x = match num_field(&f, 2) {
                Ok(v) => v,
                Err(e) => return Err(e),
            };
            let y = match num_field(&f, 3) {
                Ok(v) => v,
                Err(e) => return Err(e),
            };
            Ok(ServerPacket::Position { player_id, x, y })
        } else if chars_eq_str(name, "motd") {
            let content = join_fields(&f, 1);
            if content.len() == 0 {
                return Err(Error::MalformedPacket);
            }
            Ok(ServerPacket::MessageOfTheDay(string_from_chars(&content)))
        } else if chars_eq_str(name, "error") {
            if f.len() < 2 {
                return Err(Error::MalformedPacket);
            }
            assert(fv[1] == f@[1]@);
            match ServerError::from_code_chars(&f[1]) {
                Some(e) => Ok(ServerPacket::Error(e)),
                None => Err(Error::MalformedPacket),
            }
        } else if chars_eq_str(name, "player") {
            let id = match num_field(&f, 1) {
                Ok(v) => v,
                Err(e) => return Err(e),
            };
            if f.len() < 3 {
                return Err(Error::MalformedPacket);
            }
            assert(fv[2] == f@[2]@);
            Ok(ServerPacket::Player { id, name: string_from_chars(&f[2]) })
        } else if chars_eq_str(name, "tick") {
            Ok(ServerPacket::Tick)
        } else if chars_eq_str(name, "die") {
            let mut user_ids: Vec<usize> = Vec::new();
            let mut j: usize = 1;
            assert(fv.subrange(1, 1) =~= Seq::<Seq<char>>::empty());
            assert(spec_parse(s@) == spec_die(fv.skip(1)));
            while j < f.len()
                invariant
                    1 <= j <= f@.len(),
                    spec_parse(s@) == spec_die(fv.skip(1)),
                    fv == fields_view(f@),
                    all_numbers(fv.subrange(1, j as int)),
                    user_ids@ == numbers(fv.subrange(1, j as int)),
                decreases f@.len() - j,
            {
                let text = string_from_chars(&f[j]);
                assert(fv[j as int] == f@[j as int]@);
                match parse_usize(text.as_str()) {
                    Ok(v) => {
                        let ghost prev = fv.subrange(1, j as int);
                        user_ids.push(v);
                        j += 1;
                        assert(fv.subrange(1, j as int) =~= prev.push(fv[j - 1]));
                        assert(user_ids@ =~= numbers(fv.subrange(1, j as int)));
                        assert forall|i: int|
                            0 <= i < fv.subrange(1, j as int).len() implies (
                        #[trigger] usize_field(fv.subrange(1, j as int)[i])) is Some by {
                            if i < prev.len() {
                                assert(fv.subrange(1, j as int)[i] == prev[i]);
                                assert(usize_field(prev[i]) is Some);
                            }
                        }
                    },
                    Err(e) => {
                        assert(fv.skip(1)[j - 1] == fv[j as int]);
                        assert(usize_field(fv.skip(1)[j - 1]) is None);
                        return Err(Error::Parse(e));
                    },
                }
            }
            assert(fv.subrange(1, j as int) =~= fv.skip(1));
            if user_ids.len() == 0 {
                return Err(Error::MalformedPacket);
            }
            Ok(ServerPacket::Die { user_ids })
        } else if chars_eq_str(name, "message") {
            let player_id = match num_field(&f, 1) {
                Ok(v) => v,
                Err(e) => return Err(e),
            };
            let content = join_fields(&f, 2);
            if content.len() == 0 {
                return Err(Error::MalformedPacket);
            }
            Ok(ServerPacket::Message { player_id, content: string_from_chars(&content) })
        } else if chars_eq_str(name, "win") {
            let total_wins = match num_field(&f, 1) {
                Ok(v) => v,
                Err(e) => return Err(e),
            };
            let total_losses = match num_field(&f, 2) {
                Ok(v) => v,
                Err(e) => return Err(e),
            };
            Ok(ServerPacket::Win { total_wins, total_losses })
        } else if chars_eq_str(name, "lose") {
            let total_wins = match num_field(&f, 1) {
                Ok(v) => v,
                Err(e) => return Err(e),
            };
            let total_losses = match num_field(&f, 2) {
                Ok(v) => v,
                Err(e) => return Err(e),
            };
            Ok(ServerPacket::Lose { total_wins, total_losses })
        } else {
            Err(Error::MalformedPacket)
        }
    }
}

impl ServerPacket {
    /// The text form of the packet, as the server writes it: the fields
    /// joined by `|`, then a newline.
    pub fn to_string(&self) -> (r: String)
        ensures
            r@ == server_line(self@),
    {
        let mut f: Vec<Vec<char>> = Vec::new();
        match self {
            ServerPacket::Game { width, height, curr_player_id } => {
                f.push(chars_of("game"));
                f.push(decimal_chars(*width));
                f.push(decimal_chars(*height));
                f.push(decimal_chars(*curr_player_id));
            },
            ServerPacket::Position { player_id, x, y } => {
                f.push(chars_of("pos"));
                f.push(decimal_chars(*player_id));
                f.push(decimal_chars(*x));
                f.push(decimal_chars(*y));
            },
            ServerPacket::MessageOfTheDay(content) => {
                f.push(chars_of("motd"));
                f.push(chars_of(content.as_str()));
            },
            ServerPacket::Player { id, name } => {
                f.push(chars_of("player"));
                f.push(decimal_chars(*id));
                f.push(chars_of(name.as_str()));
            },
            ServerPacket::Tick => {
                f.push(chars_of("tick"));
            },
            ServerPacket::Die { user_ids } => {
                f.push(chars_of("die"));
                let mut j: usize = 0;
                while j < user_ids.len()
                    invariant
                        j <= user_ids@.len(),
                        fields_view(f@) =~= seq!["die"@] + user_ids@.take(j as int).map_values(
                            |v: usize| decimal(v as nat),
                        ),
                    decreases user_ids@.len() - j,
                {
                    let ghost prev = fields_view(f@);
                    f.push(decimal_chars(user_ids[j]));
                    j += 1;
                    assert(fields_view(f@) =~= prev.push(decimal(user_ids@[j - 1] as nat)));
                    assert(user_ids@.take(j as int) =~= user_ids@.take(j - 1).push(
                        user_ids@[j - 1],
                    ));
                    assert(user_ids@.take(j as int).map_values(|v: usize| decimal(v as nat))
                        =~= user_ids@.take(j - 1).map_values(|v: usize| decimal(v as nat)).push(
                        decimal(user_ids@[j - 1] as nat),
                    ));
                }
                assert(user_ids@.take(j as int) =~= user_ids@);
            },
            ServerPacket::Message { player_id, content } => {
                f.push(chars_of("message"));
                f.push(decimal_chars(*player_id));
                f.push(chars_of(content.as_str()));
            },
            ServerPacket::Win { total_wins, total_losses } => {
                f.push(chars_of("win"));
                f.push(decimal_chars(*total_wins));
                f.push(decimal_chars(*total_losses));
            },
            ServerPacket::Lose { total_wins, total_losses } => {
                f.push(chars_of("lose"));
                f.push(decimal_chars(*total_wins));
                f.push(decimal_chars(*total_losses));
            },
            ServerPacket::Error(e) => {
                f.push(chars_of("error"));
                f.push(chars_of(e.code()));
            },
        }
        assert(fields_view(f@) =~= server_fields(self@));
        line_of(&f)
    }
}

/// Packets sent by the client to the server.
pub enum ClientPacket {
    /// First packet sent.
    Join { username: String, password: String },
    /// Decide where to move.
    Move(MoveDirection),
    /// Send a message to chat.
    Chat(String),
}

/// A client packet with its strings as character sequences.
pub enum ClientPacketView {
    Join { username: Seq<char>, password: Seq<char> },
    Move(MoveDirection),
    Chat(Seq<char>),
}

impl View for ClientPacket {
    type V = ClientPacketView;

    open spec fn view(&self) -> ClientPacketView {
        match self {
            ClientPacket::Join { username, password } => ClientPacketView::Join {
                username: username@,
                password: password@,
            },
            ClientPacket::Move(d) => ClientPacketView::Move(*d),
            ClientPacket::Chat(m) => ClientPacketView::Chat(m@),
        }
    }
}

/// The fields of a client packet in its text form.
pub open spec fn client_fields(p: ClientPacketView) -> Seq<Seq<char>> {
    match p {
        ClientPacketView::Join { username, password } => seq!["join"@, username, password],
        ClientPacketView::Move(d) => seq!["move"@, direction_name(d)],
        ClientPacketView::Chat(m) => seq!["chat"@, m],
    }
}

/// The text form of a client packet: its fields joined by `|`, then a newline.
pub open spec fn client_line(p: ClientPacketView) -> Seq<char> {
    join_bar(client_fields(p)) + seq!['\n']
}

impl ClientPacket {
    /// The join packet with these credentials.
    pub fn join(username: &str, password: &str) -> (r: ClientPacket)
        ensures
            r@ == (ClientPacketView::Join { username: username@, password: password@ }),
    {
        ClientPacket::Join { username: username.to_owned(), password: password.to_owned() }
    }

    /// The text form of the packet, as the client sends it.
    pub fn to_string(&self) -> (r: String)
        ensures
            r@ == client_line(self@),
    {
        let mut f: Vec<Vec<char>> = Vec::new();
        match self {
            ClientPacket::Join { username, password } => {
                f.push(chars_of("join"));
                f.push(chars_of(username.as_str()));
                f.push(chars_of(password.as_str()));
            },
            ClientPacket::Move(d) => {
                f.push(chars_of("move"));
                f.push(chars_of(d.name()));
            },
            ClientPacket::Chat(m) => {
                f.push(chars_of("chat"));
                f.push(chars_of(m.as_str()));
            },
        }
        assert(fields_view(f@) =~= client_fields(self@));
        line_of(&f)
    }
}

/// The four directions a player can move in.
#[derive(Debug, Clone, Copy, PartialEq, Eq, Structural)]
pub enum MoveDirection {
    Up,
    Down,
    Left,
    Right,
}

/// The wire name of a direction.
pub open spec fn direction_name(d: MoveDirection) -> Seq<char> {
    match d {
        MoveDirection::Up => "up"@,
        MoveDirection::Down => "down"@,
        MoveDirection::Left => "left"@,
        MoveDirection::Right => "right"@,
    }
}

impl MoveDirection {
    /// The wire name of the direction.
    pub fn name(&self) -> (r: &'static str)
        ensures
            r@ == direction_name(*self),
    {
        match self {
            MoveDirection::Up => "up",
            MoveDirection::Down => "down",
            MoveDirection::Left => "left",
            MoveDirection::Right => "right",
        }
    }

    /// The wire name of the direction, as an owned string.
    pub fn to_string(&self) -> (r: String)
        ensures
            r@ == direction_name(*self),
    {
        self.name().to_owned()
    }
}

/// The packet names are separator-free and pairwise distinct.
proof fn lemma_packet_names()
    ensures
        bar_free("game"@),
        bar_free("pos"@),
        "pos"@ != "game"@,
        bar_free("motd"@),
        "motd"@ != "game"@,
        "motd"@ != "pos"@,
        bar_free("error"@),
        "error"@ != "game"@,
        "error"@ != "pos"@,
        "error"@ != "motd"@,
        bar_free("player"@),
        "player"@ != "game"@,
        "player"@ != "pos"@,
        "player"@ != "motd"@,
        "player"@ != "error"@,
        bar_free("tick"@),
        "tick"@ != "game"@,
        "tick"@ != "pos"@,
        "tick"@ != "motd"@,
        "tick"@ != "error"@,
        "tick"@ != "player"@,
        bar_free("die"@),
        "die"@ != "game"@,
        "die"@ != "pos"@,
        "die"@ != "motd"@,
        "die"@ != "error"@,
        "die"@ != "player"@,
        "die"@ != "tick"@,
        bar_free("message"@),
        "message"@ != "game"@,
        "message"@ != "pos"@,
        "message"@ != "motd"@,
        "message"@ != "error"@,
        "message"@ != "player"@,
        "message"@ != "tick"@,
        "message"@ != "die"@,
        bar_free("win"@),
        "win"@ != "game"@,
        "win"@ != "pos"@,
        "win"@ != "motd"@,
        "win"@ != "error"@,
        "win"@ != "player"@,
        "win"@ != "tick"@,
        "win"@ != "die"@,
        "win"@ != "message"@,
        bar_free("lose"@),
        "lose"@ != "game"@,
        "lose"@ != "pos"@,
        "lose"@ != "motd"@,
        "lose"@ != "error"@,
        "lose"@ != "player"@,
        "lose"@ != "tick"@,
        "lose"@ != "die"@,
        "lose"@ != "message"@,
        "lose"@ != "win"@,
{
    reveal_strlit("game");
    reveal_strlit("pos");
    reveal_strlit("motd");
    reveal_strlit("error");
    reveal_strlit("player");
    reveal_strlit("tick");
    reveal_strlit("die");
    reveal_strlit("message");
    reveal_strlit("win");
    reveal_strlit("lose");
    assert("pos"@.len() != "game"@.len());
    assert("motd"@[0] != "game"@[0]);
    assert("motd"@.len() != "pos"@.len());
    assert("error"@.len() != "game"@.len());
    assert("error"@.len() != "pos"@.len());
    assert("error"@.len() != "motd"@.len());
    assert("player"@.len() != "game"@.len());
    assert("player"@.len() != "pos"@.len());
    assert("player"@.len() != "motd"@.len());
    assert("player"@.len() != "error"@.len());
    assert("tick"@[0] != "game"@[0]);
    assert("tick"@.len() != "pos"@.len());
    assert("tick"@[0] != "motd"@[0]);
    assert("tick"@.len() != "error"@.len());
    assert("tick"@.len() != "player"@.len());
    assert("die"@.len() != "game"@.len());
    assert("die"@[0] != "pos"@[0]);
    assert("die"@.len() != "motd"@.len());
    assert("die"@.len() != "error"@.len());
    assert("die"@.len() != "player"@.len());
    assert("die"@.len() != "tick"@.len());
    assert("message"@.len() != "game"@.len());
    assert("message"@.len() != "pos"@.len());
    assert("message"@.len() != "motd"@.len());
    assert("message"@.len() != "error"@.len());
    assert("message"@.len() != "player"@.len());
    assert("message"@.len() != "tick"@.len());
    assert("message"@.len() != "die"@.len());
    assert("win"@.len() != "game"@.len());
    assert("win"@[0] != "pos"@[0]);
    assert("win"@.len() != "motd"@.len());
    assert("win"@.len() != "error"@.len());
    assert("win"@.len() != "player"@.len());
    assert("win"@.len() != "tick"@.len());
    assert("win"@[0] != "die"@[0]);
    assert("win"@.len() != "message"@.len());
    assert("lose"@[0] != "game"@[0]);
    assert("lose"@.len() != "pos"@.len());
    assert("lose"@[0] != "motd"@[0]);
    assert("lose"@.len() != "error"@.len());
    assert("lose"@.len() != "player"@.len());
    assert("lose"@[0] != "tick"@[0]);
    assert("lose"@.len() != "die"@.len());
    assert("lose"@.len() != "message"@.len());
    assert("lose"@.len() != "win"@.len());
}

/// A server packet whose text form can be read back: the free-text fields
/// that the reader requires non-empty are non-empty, a player's name holds no
/// separator, and a `die` packet names at least one player.
pub open spec fn wire_faithful(p: ServerPacketView) -> bool {
    match p {
        ServerPacketView::MessageOfTheDay(content) => content.len() > 0,
        ServerPacketView::Player { name, .. } => bar_free(name),
        ServerPacketView::Die { user_ids } => user_ids.len() > 0,
        ServerPacketView::Message { content, .. } => content.len() > 0,
        _ => true,
    }
}

proof fn lemma_read_back_fields(f: Seq<Seq<char>>)
    requires
        f.len() >= 1,
        forall|i: int| 0 <= i < f.len() ==> bar_free(#[trigger] f[i]),
    ensures
        spec_parse(join_bar(f)) == spec_parse_fields(f),
{
    lemma_split_join(f);
}

proof fn lemma_roundtrip_motd(content: Seq<char>)
    requires
        content.len() > 0,
    ensures
        spec_parse(join_bar(seq!["motd"@, content])) == Ok::<ServerPacketView, ErrorKind>(
            ServerPacketView::MessageOfTheDay(content),
        ),
{
    lemma_packet_names();
    let name = "motd"@;
    let f = seq![name, content];
    assert(f.drop_last() =~= seq![name]);
    assert(join_bar(seq![name]) == name);
    assert(join_bar(f) == name + seq!['|'] + content);
    lemma_split_bar_concat(name, content);
    lemma_split_bar_free(name);
    let g = split_bar(join_bar(f));
    assert(g == seq![name] + split_bar(content));
    assert(g[0] == name);
    assert(g.skip(1) =~= split_bar(content));
    lemma_join_split(content);
}

proof fn lemma_roundtrip_message(player_id: usize, content: Seq<char>)
    requires
        content.len() > 0,
    ensures
        spec_parse(join_bar(seq!["message"@, decimal(player_id as nat), content])) == Ok::<
            ServerPacketView,
            ErrorKind,
        >(ServerPacketView::Message { player_id, content }),
{
    lemma_packet_names();
    let name = "message"@;
    let d = decimal(player_id as nat);
    lemma_usize_field_decimal(player_id);
    let f = seq![name, d, content];
    let head = seq![name, d];
    assert(f.drop_last() =~= head);
    assert(join_bar(f) == join_bar(head) + seq!['|'] + content);
    lemma_split_join(head);
    lemma_split_bar_concat(join_bar(head), content);
    let g = split_bar(join_bar(f));
    assert(g =~= head + split_bar(content));
    assert(g[0] == name);
    assert(g[1] == d);
    assert(g.skip(2) =~= split_bar(content));
    lemma_join_split(content);
}

proof fn lemma_roundtrip_die(user_ids: Seq<usize>)
    requires
        user_ids.len() > 0,
    ensures
        spec_parse(join_bar(server_fields(ServerPacketView::Die { user_ids }))) == Ok::<
            ServerPacketView,
            ErrorKind,
        >(ServerPacketView::Die { user_ids }),
{
    lemma_packet_names();
    let f = server_fields(ServerPacketView::Die { user_ids });
    let ds = user_ids.map_values(|v: usize| decimal(v as nat));
    assert forall|i: int| 0 <= i < f.len() implies bar_free(#[trigger] f[i]) by {
        if i > 0 {
            assert(f[i] == ds[i - 1]);
            lemma_usize_field_decimal(user_ids[i - 1]);
        }
    }
    lemma_read_back_fields(f);
    assert(f.skip(1) =~= ds);
    assert forall|i: int| 0 <= i < ds.len() implies (#[trigger] usize_field(ds[i])) is Some by {
        lemma_usize_field_decimal(user_ids[i]);
    }
    assert forall|i: int| 0 <= i < ds.len() implies numbers(ds)[i] == user_ids[i] by {
        lemma_usize_field_decimal(user_ids[i]);
    }
    assert(numbers(ds) =~= user_ids);
}

proof fn lemma_roundtrip_fixed(p: ServerPacketView)
    requires
        wire_faithful(p),
        !(p is MessageOfTheDay),
        !(p is Message),
        !(p is Die),
    ensures
        spec_parse(join_bar(server_fields(p))) == Ok::<ServerPacketView, ErrorKind>(p),
{
    lemma_packet_names();
    let f = server_fields(p);
    match p {
        ServerPacketView::Game { width, height, curr_player_id } => {
            lemma_usize_field_decimal(width);
            lemma_usize_field_decimal(height);
            lemma_usize_field_decimal(curr_player_id);
        },
        ServerPacketView::Position { player_id, x, y } => {
            lemma_usize_field_decimal(player_id);
            lemma_usize_field_decimal(x);
            lemma_usize_field_decimal(y);
        },
        ServerPacketView::Player { id, name } => {
            lemma_usize_field_decimal(id);
        },
        ServerPacketView::Win { total_wins, total_losses } => {
            lemma_usize_field_decimal(total_wins);
            lemma_usize_field_decimal(total_losses);
        },
        ServerPacketView::Lose { total_wins, total_losses } => {
            lemma_usize_field_decimal(total_wins);
            lemma_usize_field_decimal(total_losses);
        },
        ServerPacketView::Error(e) => {
            lemma_code_roundtrip(e);
        },
        _ => {},
    }
    lemma_read_back_fields(f);
}

/// A server packet written as a line and read back, without the newline,
/// is the same packet.
pub proof fn lemma_server_line_roundtrip(p: ServerPacketView)
    requires
        wire_faithful(p),
    ensures
        spec_parse(server_line(p).drop_last()) == Ok::<ServerPacketView, ErrorKind>(p),
{
    assert(server_line(p).drop_last() =~= join_bar(server_fields(p)));
    match p {
        ServerPacketView::MessageOfTheDay(content) => lemma_roundtrip_motd(content),
        ServerPacketView::Message { player_id, content } => lemma_roundtrip_message(
            player_id,
            content,
        ),
        ServerPacketView::Die { user_ids } => lemma_roundtrip_die(user_ids),
        _ => lemma_roundtrip_fixed(p),
    }
}

/// Every line has a name field, so reading a line never reports a missing
/// name: it gives a packet, a malformed packet, or a number that does not
/// parse.
pub proof fn lemma_parse_never_lacks_name(s: Seq<char>)
    ensures
        spec_parse(s) != Err::<ServerPacketView, ErrorKind>(ErrorKind::NoName),
{
    lemma_split_bar_nonempty(s);
}

proof fn lemma_join_small(a: Seq<char>, b: Seq<char>, c: Seq<char>, d: Seq<char>)
    ensures
        join_bar(seq![a]) == a,
        join_bar(seq![a, b]) == a + seq!['|'] + b,
        join_bar(seq![a, b, c]) == a + seq!['|'] + b + seq!['|'] + c,
        join_bar(seq![a, b, c, d]) == a + seq!['|'] + b + seq!['|'] + c + seq!['|'] + d,
{
    assert(seq![a, b].drop_last() =~= seq![a]);
    assert(seq![a, b, c].drop_last() =~= seq![a, b]);
    assert(seq![a, b, c, d].drop_last() =~= seq![a, b, c]);
    assert(join_bar(seq![a]) == a);
    assert(seq![a, b].last() == b);
    assert(seq![a, b, c].last() == c);
    assert(seq![a, b, c, d].last() == d);
    assert(join_bar(seq![a, b]) == a + seq!['|'] + b);
    assert(join_bar(seq![a, b, c]) == join_bar(seq![a, b]) + seq!['|'] + c);
    assert(join_bar(seq![a, b, c, d]) == join_bar(seq![a, b, c]) + seq!['|'] + d);
}

/// A client line is the packet's name, then each argument after a `|`, then
/// a newline; free text goes out whole.
pub proof fn lemma_client_lines(username: Seq<char>, password: Seq<char>, message: Seq<char>)
    ensures
        client_line(ClientPacketView::Join { username, password }) == "join"@ + seq!['|']
            + username + seq!['|'] + password + seq!['\n'],
        client_line(ClientPacketView::Chat(message)) == "chat"@ + seq!['|'] + message + seq![
            '\n',
        ],
        client_line(ClientPacketView::Move(MoveDirection::Up)) =~= seq![
            'm', 'o', 'v', 'e', '|', 'u', 'p', '\n',
        ],
        client_line(ClientPacketView::Move(MoveDirection::Down)) =~= seq![
            'm', 'o', 'v', 'e', '|', 'd', 'o', 'w', 'n', '\n',
        ],
        client_line(ClientPacketView::Move(MoveDirection::Left)) =~= seq![
            'm', 'o', 'v', 'e', '|', 'l', 'e', 'f', 't', '\n',
        ],
        client_line(ClientPacketView::Move(MoveDirection::Right)) =~= seq![
            'm', 'o', 'v', 'e', '|', 'r', 'i', 'g', 'h', 't', '\n',
        ],
        client_line(ClientPacketView::Chat(message)).len() == message.len() + 6,
{
    reveal_strlit("join");
    reveal_strlit("chat");
    reveal_strlit("move");
    reveal_strlit("up");
    reveal_strlit("down");
    reveal_strlit("left");
    reveal_strlit("right");
    let e = Seq::<char>::empty();
    lemma_join_small("join"@, username, password, e);
    lemma_join_small("chat"@, message, e, e);
    lemma_join_small("move"@, "up"@, e, e);
    lemma_join_small("move"@, "down"@, e, e);
    lemma_join_small("move"@, "left"@, e, e);
    lemma_join_small("move"@, "right"@, e, e);
}

/// A server line is the packet's name, then each argument in decimal or as
/// text after a `|`, then a newline.
pub proof fn lemma_server_lines(a: usize, b: usize, c: usize, text: Seq<char>, e: ServerError)
    ensures
        server_line(ServerPacketView::Game { width: a, height: b, curr_player_id: c })
            == "game"@ + seq!['|'] + decimal(a as nat) + seq!['|'] + decimal(b as nat) + seq!['|']
            + decimal(c as nat) + seq!['\n'],
        server_line(ServerPacketView::Position { player_id: a, x: b, y: c }) == "pos"@ + seq!['|']
            + decimal(a as nat) + seq!['|'] + decimal(b as nat) + seq!['|'] + decimal(c as nat)
            + seq!['\n'],
        server_line(ServerPacketView::MessageOfTheDay(text)) == "motd"@ + seq!['|'] + text
            + seq!['\n'],
        server_line(ServerPacketView::Player { id: a, name: text }) == "player"@ + seq!['|']
            + decimal(a as nat) + seq!['|'] + text + seq!['\n'],
        server_line(ServerPacketView::Tick) == "tick"@ + seq!['\n'],
        server_line(ServerPacketView::Message { player_id: a, content: text }) == "message"@
            + seq!['|'] + decimal(a as nat) + seq!['|'] + text + seq!['\n'],
        server_line(ServerPacketView::Win { total_wins: a, total_losses: b }) == "win"@ + seq!['|']
            + decimal(a as nat) + seq!['|'] + decimal(b as nat) + seq!['\n'],
        server_line(ServerPacketView::Lose { total_wins: a, total_losses: b }) == "lose"@
            + seq!['|'] + decimal(a as nat) + seq!['|'] + decimal(b as nat) + seq!['\n'],
        server_line(ServerPacketView::Error(e)) == "error"@ + seq!['|'] + spec_code(e) + seq![
            '\n',
        ],
        server_line(ServerPacketView::Die { user_ids: seq![a, b] }) == "die"@ + seq!['|']
            + decimal(a as nat) + seq!['|'] + decimal(b as nat) + seq!['\n'],
{
    let (da, db, dc) = (decimal(a as nat), decimal(b as nat), decimal(c as nat));
    let z = Seq::<char>::empty();
    lemma_join_small("game"@, da, db, dc);
    lemma_join_small("pos"@, da, db, dc);
    lemma_join_small("motd"@, text, z, z);
    lemma_join_small("player"@, da, text, z);
    lemma_join_small("tick"@, z, z, z);
    lemma_join_small("message"@, da, text, z);
    lemma_join_small("win"@, da, db, z);
    lemma_join_small("lose"@, da, db, z);
    lemma_join_small("error"@, spec_code(e), z, z);
    lemma_join_small("die"@, da, db, z);
    assert(seq!["die"@] + seq![a, b].map_values(|v: usize| decimal(v as nat)) =~= seq![
        "die"@,
        da,
        db,
    ]);
}

} // verus!
