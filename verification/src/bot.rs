//! The client's picture of the game, kept up to date from the server's
//! packets, and the queue of packets that a bot wants to send.
use crate::packets::{ClientPacket, ClientPacketView, MoveDirection, ServerPacket, ServerPacketView};
use crate::world::{lemma_lookup_after_place, WorldMap, WorldView};
use vstd::prelude::*;

verus! {

pub struct Bot {
    instruction_queue: Vec<ClientPacket>,
    world: WorldMap,
    username: String,
    user_id: Option<usize>,
    current_position: Option<(usize, usize)>,
}

/// The state of a [`Bot`] as the contracts see it.
pub struct BotView {
    /// The packets written and not yet taken for sending, oldest first.
    pub queue: Seq<ClientPacketView>,
    pub world: WorldView,
    pub username: Seq<char>,
    pub user_id: Option<usize>,
    pub position: Option<(usize, usize)>,
}

impl View for Bot {
    type V = BotView;

    closed spec fn view(&self) -> BotView {
        BotView {
            queue: self.instruction_queue@.map_values(|p: ClientPacket| p@),
            world: self.world@,
            username: self.username@,
            user_id: self.user_id,
            position: self.current_position,
        }
    }
}

/// A cell after the trails of all the players in `ids` are removed.
pub open spec fn clear_cell_of_any(c: Option<usize>, ids: Seq<usize>) -> Option<usize> {
    match c {
        Some(v) => if ids.contains(v) {
            None
        } else {
            c
        },
        None => None,
    }
}

/// `d` appended to `acc` when it is not blocked from `(x, y)`.
pub open spec fn keep_if_free(
    acc: Seq<MoveDirection>,
    world: WorldView,
    x: usize,
    y: usize,
    d: MoveDirection,
) -> Seq<MoveDirection> {
    if world.blocked(x, y, d) {
        acc
    } else {
        acc.push(d)
    }
}

impl WorldView {
    /// The grid with every cell of every player in `ids` emptied.
    pub open spec fn without_players(self, ids: Seq<usize>) -> WorldView {
        WorldView {
            width: self.width,
            height: self.height,
            cells: self.cells.map_values(
                |row: Seq<Option<usize>>| row.map_values(|c: Option<usize>| clear_cell_of_any(c, ids)),
            ),
        }
    }
}

impl BotView {
    /// The bot's own position is known, and a step from it in any direction
    /// is computed without a division by zero or an overflow.
    pub open spec fn can_look_around(self) -> bool {
        match self.position {
            None => true,
            Some((x, y)) => {
                &&& self.world.step_defined(x, y, MoveDirection::Up)
                &&& self.world.step_defined(x, y, MoveDirection::Down)
                &&& self.world.step_defined(x, y, MoveDirection::Left)
                &&& self.world.step_defined(x, y, MoveDirection::Right)
            },
        }
    }

    /// The neighbouring cell in direction `d` is occupied; every direction
    /// counts as blocked while the position is unknown.
    pub open spec fn blocked_toward(self, d: MoveDirection) -> bool {
        match self.position {
            Some((x, y)) => self.world.blocked(x, y, d),
            None => true,
        }
    }

    /// The directions whose neighbouring cell is empty, in the order up,
    /// down, left, right; none while the position is unknown.
    pub open spec fn safe_directions(self) -> Seq<MoveDirection> {
        match self.position {
            None => Seq::empty(),
            Some((x, y)) => {
                let w = self.world;
                let a = keep_if_free(Seq::empty(), w, x, y, MoveDirection::Up);
                let b = keep_if_free(a, w, x, y, MoveDirection::Down);
                let c = keep_if_free(b, w, x, y, MoveDirection::Left);
                keep_if_free(c, w, x, y, MoveDirection::Right)
            },
        }
    }

    /// The same state with `p` at the end of the queue.
    pub open spec fn queued(self, p: ClientPacketView) -> BotView {
        BotView { queue: self.queue.push(p), ..self }
    }

    /// The state after the server's packet `p` was seen: a new round resets
    /// the grid and forgets the position; a position fills a cell, and is the
    /// bot's own when it carries the bot's id; a player with the bot's name
    /// gives the bot its id; the trails of dead players are removed, and the
    /// bot's own death forgets its position.
    pub open spec fn observe(self, p: ServerPacketView) -> BotView {
        match p {
            ServerPacketView::Game { width, height, .. } => BotView {
                world: WorldView::empty(width, height),
                position: None,
                ..self
            },
            ServerPacketView::Position { player_id, x, y } => BotView {
                world: self.world.place(x, y, player_id),
                position: if self.user_id == Some(player_id) {
                    Some((x, y))
                } else {
                    self.position
                },
                ..self
            },
            ServerPacketView::Player { id, name } => if name == self.username {
                BotView { user_id: Some(id), ..self }
            } else {
                self
            },
            ServerPacketView::Die { user_ids } => BotView {
                world: self.world.without_players(user_ids),
                position: match self.user_id {
                    Some(u) => if user_ids.contains(u) {
                        None
                    } else {
                        self.position
                    },
                    None => self.position,
                },
                ..self
            },
            _ => self,
        }
    }
}

proof fn lemma_clear_one_more(w: WorldView, ids: Seq<usize>, i: int)
    requires
        w.shaped(),
        0 <= i < ids.len(),
    ensures
        w.without_players(ids.take(i)).without_player(ids[i]) == w.without_players(
            ids.take(i + 1),
        ),
{
    let a = w.without_players(ids.take(i)).without_player(ids[i]);
    let b = w.without_players(ids.take(i + 1));
    assert(ids.take(i + 1) =~= ids.take(i).push(ids[i]));
    assert forall|y: int| 0 <= y < w.height implies #[trigger] a.cells[y] =~= b.cells[y] by {
        assert forall|x: int| 0 <= x < w.width implies a.cells[y][x] == b.cells[y][x] by {
            let c = w.cells[y][x];
            match c {
                Some(v) => {
                    if ids.take(i + 1).contains(v) {
                        if !ids.take(i).contains(v) {
                            let k = choose|k: int| 0 <= k < i + 1 && #[trigger] ids.take(i + 1)[k] == v;
                            assert(k == i);
                        }
                    } else {
                        assert(!ids.take(i).contains(v)) by {
                            if ids.take(i).contains(v) {
                                let k = choose|k: int| 0 <= k < i && #[trigger] ids.take(i)[k] == v;
                                assert(ids.take(i + 1)[k] == v);
                            }
                        }
                        assert(ids.take(i + 1)[i] == ids[i]);
                    }
                },
                None => {},
            }
        }
    }
    assert(a.cells =~= b.cells);
}

impl Bot {
    /// A bot named `username` that knows nothing of the game yet.
    pub fn new(username: &str) -> (r: Bot)
        ensures
            r@ == (BotView {
                queue: Seq::empty(),
                world: WorldView::empty(0, 0),
                username: username@,
                user_id: None,
                position: None,
            }),
    {
        let r = Bot {
            instruction_queue: Vec::new(),
            world: WorldMap::new(0, 0),
            username: username.to_owned(),
            user_id: None,
            current_position: None,
        };
        assert(r@.queue =~= Seq::<ClientPacketView>::empty());
        r
    }

    /// Read-only access to the world map.
    pub fn world(&self) -> (r: &WorldMap)
        ensures
            r@ == self@.world,
    {
        &self.world
    }

    /// The bot's player id, once received from the server.
    pub fn user_id(&self) -> (r: Option<usize>)
        ensures
            r == self@.user_id,
    {
        self.user_id
    }

    /// The bot's current position, once received from the server.
    pub fn position(&self) -> (r: Option<(usize, usize)>)
        ensures
            r == self@.position,
    {
        self.current_position
    }

    /// Whether a step from the bot's position can be computed in every
    /// direction; what [`Bot::safe_directions`] needs.
    pub fn can_look_around(&self) -> (r: bool)
        ensures
            r == self@.can_look_around(),
    {
        match self.current_position {
            None => true,
            Some((x, y)) => {
                let w = self.world.width();
                let h = self.world.height();
                h > 0 && w > 0 && y <= usize::MAX - h && x <= usize::MAX - w
            },
        }
    }

    /// Returns every direction whose neighbouring cell is currently empty.
    pub fn safe_directions(&self) -> (r: Vec<MoveDirection>)
        requires
            self@.can_look_around(),
        ensures
            r@ == self@.safe_directions(),
    {
        let mut out: Vec<MoveDirection> = Vec::new();
        match self.current_position {
            None => {},
            Some((x, y)) => {
                if !self.world.is_blocked(x, y, MoveDirection::Up) {
                    out.push(MoveDirection::Up);
                }
                if !self.world.is_blocked(x, y, MoveDirection::Down) {
                    out.push(MoveDirection::Down);
                }
                if !self.world.is_blocked(x, y, MoveDirection::Left) {
                    out.push(MoveDirection::Left);
                }
                if !self.world.is_blocked(x, y, MoveDirection::Right) {
                    out.push(MoveDirection::Right);
                }
            },
        }
        assert(out@ =~= self@.safe_directions());
        out
    }

    /// True if moving in `direction` from the current position would hit a
    /// trail. Returns `true` when the position is unknown.
    pub fn is_blocked(&self, direction: MoveDirection) -> (r: bool)
        requires
            self@.position matches Some((x, y)) ==> self@.world.step_defined(x, y, direction),
        ensures
            r == self@.blocked_toward(direction),
    {
        match self.current_position {
            Some((x, y)) => self.world.is_blocked(x, y, direction),
            None => true,
        }
    }

    /// Write a raw packet to the server.
    pub fn write_packet(&mut self, packet: ClientPacket)
        ensures
            final(self)@ == old(self)@.queued(packet@),
    {
        let ghost before = self@;
        self.instruction_queue.push(packet);
        assert(self@.queue =~= before.queue.push(packet@));
    }

    /// Send a message in chat, make sure to not get rate limited.
    pub fn chat(&mut self, message: &str)
        ensures
            final(self)@ == old(self)@.queued(ClientPacketView::Chat(message@)),
    {
        self.write_packet(ClientPacket::Chat(message.to_owned()));
    }

    /// Set a move direction.
    pub fn do_move(&mut self, direction: MoveDirection)
        ensures
            final(self)@ == old(self)@.queued(ClientPacketView::Move(direction)),
    {
        self.write_packet(ClientPacket::Move(direction));
    }

    /// Takes the queued packets, oldest first, for sending; the queue is left
    /// empty.
    pub fn take_instructions(&mut self) -> (r: Vec<ClientPacket>)
        ensures
            r@.map_values(|p: ClientPacket| p@) == old(self)@.queue,
            final(self)@ == (BotView { queue: Seq::empty(), ..old(self)@ }),
    {
        let mut r: Vec<ClientPacket> = Vec::new();
        std::mem::swap(&mut r, &mut self.instruction_queue);
        assert(self@.queue =~= Seq::<ClientPacketView>::empty());
        r
    }

    /// Updates the bot's picture of the game with a packet from the server,
    /// before the packet is handed to the bot's logic.
    pub fn apply_packet(&mut self, packet: &ServerPacket)
        ensures
            final(self)@ == old(self)@.observe(packet@),
    {
        match packet {
            ServerPacket::Game { width, height, .. } => {
                self.world = WorldMap::new(*width, *height);
                self.current_position = None;
            },
            ServerPacket::Position { player_id, x, y } => {
                self.world.set(*x, *y, *player_id);
                match self.user_id {
                    Some(u) => {
                        if u == *player_id {
                            self.current_position = Some((*x, *y));
                        }
                    },
                    None => {},
                }
            },
            ServerPacket::Player { id, name } => {
                if *name == self.username {
                    self.user_id = Some(*id);
                }
            },
            ServerPacket::Die { user_ids } => {
                proof {
                    use_type_invariant(&self.world);
                }
                let ghost before = self@;
                let mut i: usize = 0;
                assert(before.world.without_players(user_ids@.take(0)) == before.world) by {
                    assert(before.world.without_players(user_ids@.take(0)).cells
                        =~= before.world.cells) by {
                        assert forall|y: int| 0 <= y < before.world.height implies #[trigger] (
                        before.world.without_players(user_ids@.take(0)).cells[y])
                            =~= before.world.cells[y] by {}
                    }
                }
                while i < user_ids.len()
                    invariant
                        i <= user_ids@.len(),
                        before.world.shaped(),
                        self@.world == before.world.without_players(user_ids@.take(i as int)),
                        self@.queue == before.queue,
                        self@.username == before.username,
                        self@.user_id == before.user_id,
                        self@.position == (match before.user_id {
                            Some(u) => if user_ids@.take(i as int).contains(u) {
                                None
                            } else {
                                before.position
                            },
                            None => before.position,
                        }),
                    decreases user_ids@.len() - i,
                {
                    let id = user_ids[i];
                    proof {
                        lemma_clear_one_more(before.world, user_ids@, i as int);
                    }
                    self.world.clear_player(id);
                    match self.user_id {
                        Some(u) => {
                            if u == id {
                                self.current_position = None;
                            }
                        },
                        None => {},
                    }
                    proof {
                        assert(user_ids@.take(i + 1) =~= user_ids@.take(i as int).push(id));
                        match before.user_id {
                            Some(u) => {
                                if user_ids@.take(i as int).contains(u) {
                                    let k = choose|k: int|
                                        0 <= k < i && #[trigger] user_ids@.take(i as int)[k] == u;
                                    assert(user_ids@.take(i + 1)[k] == u);
                                }
                                if user_ids@.take(i + 1).contains(u) && u != id {
                                    let k = choose|k: int|
                                        0 <= k < i + 1 && #[trigger] user_ids@.take(i + 1)[k] == u;
                                    assert(user_ids@.take(i as int)[k] == u);
                                }
                                if u == id {
                                    assert(user_ids@.take(i + 1)[i as int] == u);
                                }
                            },
                            None => {},
                        }
                    }
                    i += 1;
                }
                assert(user_ids@.take(user_ids@.len() as int) =~= user_ids@);
            },
            _ => {},
        }
    }
}

/// The safe directions are exactly the unblocked neighbours of the bot's
/// position, each listed once; none while the position is unknown.
pub proof fn lemma_safe_directions_exact(b: BotView, d: MoveDirection)
    ensures
        b.safe_directions().no_duplicates(),
        b.position is None ==> b.safe_directions().len() == 0,
        b.safe_directions().contains(d) <==> !b.blocked_toward(d),
{
    match b.position {
        None => {},
        Some((x, y)) => {
            let w = b.world;
            let s0 = Seq::<MoveDirection>::empty();
            let s1 = keep_if_free(s0, w, x, y, MoveDirection::Up);
            let s2 = keep_if_free(s1, w, x, y, MoveDirection::Down);
            let s3 = keep_if_free(s2, w, x, y, MoveDirection::Left);
            let s4 = keep_if_free(s3, w, x, y, MoveDirection::Right);
            assert(forall|e: MoveDirection| s1.contains(e) ==> e == MoveDirection::Up);
            assert(forall|e: MoveDirection|
                s2.contains(e) ==> e == MoveDirection::Up || e == MoveDirection::Down);
            assert(forall|e: MoveDirection|
                s3.contains(e) ==> e == MoveDirection::Up || e == MoveDirection::Down || e
                    == MoveDirection::Left);
            if !w.blocked(x, y, d) {
                match d {
                    MoveDirection::Up => assert(s1.contains(d) && s4.contains(s1[s1.len() - 1])),
                    MoveDirection::Down => assert(s2[s2.len() - 1] == d),
                    MoveDirection::Left => assert(s3[s3.len() - 1] == d),
                    MoveDirection::Right => assert(s4[s4.len() - 1] == d),
                }
                if d == MoveDirection::Up {
                    assert(s1[0] == d);
                    assert(s4[0] == d);
                } else if d == MoveDirection::Down {
                    assert(s4[s2.len() - 1] == d);
                } else if d == MoveDirection::Left {
                    assert(s4[s3.len() - 1] == d);
                }
            }
        },
    }
}

/// On a grid whose doubled width and height fit a `usize`, a bot standing
/// inside the grid can look around (so `safe_directions` and `is_blocked` can
/// be called), and a direction is safe exactly when it is not blocked.
pub proof fn lemma_safe_directions_in_grid(b: BotView, d: MoveDirection)
    requires
        b.position matches Some((x, y)) ==> {
            &&& 0 < b.world.width
            &&& 0 < b.world.height
            &&& x < b.world.width
            &&& y < b.world.height
            &&& b.world.width + b.world.width <= usize::MAX
            &&& b.world.height + b.world.height <= usize::MAX
        },
    ensures
        b.can_look_around(),
        b.safe_directions().contains(d) <==> !b.blocked_toward(d),
{
    lemma_safe_directions_exact(b, d);
}

/// A player packet with the bot's own name gives the bot that id, whatever
/// id it had before; one with another name leaves the id alone. Neither
/// touches the grid or the position.
pub proof fn lemma_player_sets_id(b: BotView, id: usize, name: Seq<char>)
    ensures
        b.observe(ServerPacketView::Player { id, name: b.username }).user_id == Some(id),
        name != b.username ==> b.observe(ServerPacketView::Player { id, name }).user_id
            == b.user_id,
        b.observe(ServerPacketView::Player { id, name }).world == b.world,
        b.observe(ServerPacketView::Player { id, name }).position == b.position,
{
}

/// A position packet marks its cell with the player's id; it becomes the
/// bot's own position exactly when it carries the bot's id, and otherwise
/// the bot's position stays.
pub proof fn lemma_position_marks_cell(b: BotView, player_id: usize, x: usize, y: usize)
    requires
        b.world.shaped(),
        0 < b.world.width,
        0 < b.world.height,
    ensures
        ({
            let after = b.observe(ServerPacketView::Position { player_id, x, y });
            &&& after.world.lookup(x, y) == Some(player_id)
            &&& b.user_id == Some(player_id) ==> after.position == Some((x, y))
            &&& b.user_id != Some(player_id) ==> after.position == b.position
            &&& after.user_id == b.user_id
        }),
{
    lemma_lookup_after_place(b.world, x, y, player_id, x, y);
}

/// With no neighbour occupied, every direction is safe, in the order up,
/// down, left, right; a direction whose neighbour is occupied is never
/// listed.
pub proof fn lemma_safe_directions_order(b: BotView)
    requires
        b.position is Some,
    ensures
        (forall|d: MoveDirection| !b.blocked_toward(d)) ==> b.safe_directions() == seq![
            MoveDirection::Up,
            MoveDirection::Down,
            MoveDirection::Left,
            MoveDirection::Right,
        ],
        forall|d: MoveDirection|
            b.blocked_toward(d) ==> !(#[trigger] b.safe_directions().contains(d)),
{
    assert forall|d: MoveDirection| b.blocked_toward(d) implies !(
    #[trigger] b.safe_directions().contains(d)) by {
        lemma_safe_directions_exact(b, d);
    }
    if forall|d: MoveDirection| !b.blocked_toward(d) {
        assert(!b.blocked_toward(MoveDirection::Up));
        assert(!b.blocked_toward(MoveDirection::Down));
        assert(!b.blocked_toward(MoveDirection::Left));
        assert(!b.blocked_toward(MoveDirection::Right));
        assert(b.safe_directions() =~= seq![
            MoveDirection::Up,
            MoveDirection::Down,
            MoveDirection::Left,
            MoveDirection::Right,
        ]);
    }
}

/// Packets from the server never touch the outgoing queue or the bot's name.
pub proof fn lemma_observe_keeps_queue(b: BotView, p: ServerPacketView)
    ensures
        b.observe(p).queue == b.queue,
        b.observe(p).username == b.username,
{
}

/// A new round starts with an empty grid of the announced size and an
/// unknown position.
pub proof fn lemma_new_round(b: BotView, width: usize, height: usize, curr: usize, x: usize, y: usize)
    ensures
        ({
            let after = b.observe(
                ServerPacketView::Game { width, height, curr_player_id: curr },
            );
            &&& after.world.shaped()
            &&& after.world.width == width
            &&& after.world.height == height
            &&& after.world.lookup(x, y) is None
            &&& after.position is None
        }),
{
}

/// After players die no cell holds any of them, the other cells are as
/// before, and the bot's own death forgets its position.
pub proof fn lemma_death_clears(b: BotView, user_ids: Seq<usize>, x: usize, y: usize)
    requires
        b.world.shaped(),
    ensures
        ({
            let after = b.observe(ServerPacketView::Die { user_ids });
            &&& after.world.shaped()
            &&& forall|i: int|
                0 <= i < user_ids.len() ==> after.world.lookup(x, y) != Some(
                    #[trigger] user_ids[i],
                )
            &&& (b.world.lookup(x, y) matches Some(v) && !user_ids.contains(v))
                ==> after.world.lookup(x, y) == b.world.lookup(x, y)
            &&& (b.user_id matches Some(u) && user_ids.contains(u)) ==> after.position is None
        }),
{
    let after = b.observe(ServerPacketView::Die { user_ids });
    assert forall|i: int|
        0 <= i < user_ids.len() implies after.world.lookup(x, y) != Some(
        #[trigger] user_ids[i],
    ) by {
        if b.world.width > 0 && b.world.height > 0 {
            let c = b.world.lookup(x, y);
            if c == Some(user_ids[i]) {
                assert(user_ids.contains(user_ids[i]));
            }
        }
    }
}

/// Packets leave in the order they were written: writing `p` and then `q`
/// appends both, `p` first, and the packets written before stay in front.
pub proof fn lemma_queue_order(b: BotView, p: ClientPacketView, q: ClientPacketView)
    ensures
        b.queued(p).queued(q).queue == b.queue + seq![p, q],
        b.queued(p).queued(q).world == b.world,
        b.queued(p).queued(q).position == b.position,
{
    assert(b.queued(p).queued(q).queue =~= b.queue + seq![p, q]);
}

/// A bot's logic: what it does with each packet from the server. The client
/// keeps the [`Bot`]'s picture of the game up to date before each call, and
/// sends whatever the bot queued after it.
pub trait GpnTronBot: Sized {
    fn handle_packet(&mut self, bot: &mut Bot, packet: ServerPacket);
}

} // verus!
