//! A bot that walks straight and turns when it would crash.
use crate::bot::{lemma_safe_directions_exact, Bot, BotView, GpnTronBot};
use crate::packets::{ClientPacketView, MoveDirection, ServerPacket};
use vstd::prelude::*;

verus! {

/// # Demo bot for `GPN tron`.
///
/// Picks a safe direction every tick. Prefers continuing straight, otherwise
/// turns to any non-blocked neighbour. If fully boxed in it just charges
/// forward and accepts its fate.
pub struct DemoBot {
    direction: MoveDirection,
    ticks: usize,
}

/// The state of a [`DemoBot`]: the direction it is heading in, and the ticks
/// seen in the current round.
pub struct DemoBotView {
    pub direction: MoveDirection,
    pub ticks: usize,
}

impl View for DemoBot {
    type V = DemoBotView;

    closed spec fn view(&self) -> DemoBotView {
        DemoBotView { direction: self.direction, ticks: self.ticks }
    }
}

/// The direction to take when heading `current` with the free directions
/// `safe`: keep going if that is free, else the first free one of up, right,
/// down, left; straight on when nothing is free.
pub open spec fn choose_direction(current: MoveDirection, safe: Seq<MoveDirection>) -> MoveDirection {
    if safe.len() == 0 {
        current
    } else if safe.contains(current) {
        current
    } else if safe.contains(MoveDirection::Up) {
        MoveDirection::Up
    } else if safe.contains(MoveDirection::Right) {
        MoveDirection::Right
    } else if safe.contains(MoveDirection::Down) {
        MoveDirection::Down
    } else if safe.contains(MoveDirection::Left) {
        MoveDirection::Left
    } else {
        current
    }
}

/// The heading after a tick: chosen among the free directions when a step
/// from the bot's position can be computed; otherwise (a position known on a
/// grid with no cells, or one so large that a step overflows) the heading is
/// kept.
pub open spec fn tick_direction(current: MoveDirection, bot: BotView) -> MoveDirection {
    if bot.can_look_around() {
        choose_direction(current, bot.safe_directions())
    } else {
        current
    }
}

/// The chat line the demo bot sends on the first tick of a round.
pub open spec fn greeting() -> Seq<char> {
    "Demo bot. gpn-tron on crates.io"@
}

/// The tick count after one more tick; the count wraps around at the end of
/// its range.
pub open spec fn next_tick(ticks: usize) -> usize {
    if ticks == usize::MAX {
        0
    } else {
        (ticks + 1) as usize
    }
}

/// The bot's outgoing queue after a tick on which the bot heads `d`: the
/// greeting first when this is the round's first tick, then the move.
pub open spec fn tick_queue(bot: BotView, ticks: usize, d: MoveDirection) -> Seq<ClientPacketView> {
    let greeted = if ticks == 1 {
        bot.queue.push(ClientPacketView::Chat(greeting()))
    } else {
        bot.queue
    };
    greeted.push(ClientPacketView::Move(d))
}

fn contains_direction(v: &Vec<MoveDirection>, d: MoveDirection) -> (r: bool)
    ensures
        r == v@.contains(d),
{
    let mut i: usize = 0;
    while i < v.len()
        invariant
            i <= v@.len(),
            forall|j: int| 0 <= j < i ==> v@[j] != d,
        decreases v@.len() - i,
    {
        if v[i] == d {
            assert(v@[i as int] == d);
            return true;
        }
        i += 1;
    }
    false
}

impl DemoBot {
    pub fn new() -> (r: DemoBot)
        ensures
            r@ == (DemoBotView { direction: MoveDirection::Up, ticks: 0 }),
    {
        DemoBot { direction: MoveDirection::Up, ticks: 0 }
    }

    /// Choose the next move based on the current world state in `bot`.
    fn choose_direction(&self, bot: &Bot) -> (r: MoveDirection)
        requires
            bot@.can_look_around(),
        ensures
            r == choose_direction(self.direction, bot@.safe_directions()),
    {
        let safe = bot.safe_directions();
        if safe.len() == 0 {
            return self.direction;
        }
        if contains_direction(&safe, self.direction) {
            return self.direction;
        }
        let order = [MoveDirection::Up, MoveDirection::Right, MoveDirection::Down, MoveDirection::Left];
        let mut i: usize = 0;
        while i < 4
            invariant
                i <= 4,
                order@ == seq![
                    MoveDirection::Up,
                    MoveDirection::Right,
                    MoveDirection::Down,
                    MoveDirection::Left,
                ],
                safe@ == bot@.safe_directions(),
                safe@.len() > 0,
                !safe@.contains(self.direction),
                forall|j: int| 0 <= j < i ==> !safe@.contains(#[trigger] order@[j]),
            decreases 4 - i,
        {
            let d = order[i];
            if contains_direction(&safe, d) {
                return d;
            }
            i += 1;
        }
        self.direction
    }
}

impl GpnTronBot for DemoBot {
    fn handle_packet(&mut self, bot: &mut Bot, packet: ServerPacket)
        ensures
            match packet {
                ServerPacket::Tick => {
                    let d = tick_direction(old(self)@.direction, old(bot)@);
                    let t = next_tick(old(self)@.ticks);
                    &&& final(self)@ == (DemoBotView { direction: d, ticks: t })
                    &&& final(bot)@ == (BotView { queue: tick_queue(old(bot)@, t, d), ..old(bot)@ })
                },
                ServerPacket::Game { .. } => {
                    &&& final(self)@ == (DemoBotView { direction: MoveDirection::Up, ticks: 0 })
                    &&& final(bot)@ == old(bot)@
                },
                _ => {
                    &&& final(self)@ == old(self)@
                    &&& final(bot)@ == old(bot)@
                },
            },
    {
        match packet {
            ServerPacket::Tick => {
                self.ticks = self.ticks.wrapping_add(1);
                if bot.can_look_around() {
                    self.direction = self.choose_direction(bot);
                }
                if self.ticks == 1 {
                    bot.chat("Demo bot. gpn-tron on crates.io");
                }
                bot.do_move(self.direction);
            },
            ServerPacket::Game { .. } => {
                self.direction = MoveDirection::Up;
                self.ticks = 0;
            },
            _ => {},
        }
    }
}

/// The demo bot heads into a free cell whenever there is one, keeps its
/// heading when that is free, and keeps it too when boxed in.
pub proof fn lemma_choice_is_safe(current: MoveDirection, b: BotView)
    ensures
        b.safe_directions().len() > 0 ==> b.safe_directions().contains(
            choose_direction(current, b.safe_directions()),
        ),
        b.safe_directions().contains(current) ==> choose_direction(current, b.safe_directions())
            == current,
        b.safe_directions().len() == 0 ==> choose_direction(current, b.safe_directions())
            == current,
        b.position matches Some((x, y)) ==> (exists|d: MoveDirection| !b.world.blocked(x, y, d))
            ==> !b.world.blocked(x, y, choose_direction(current, b.safe_directions())),
{
    let safe = b.safe_directions();
    lemma_safe_directions_exact(b, current);
    if safe.len() > 0 {
        let d0 = safe[0];
        assert(safe.contains(d0));
        match d0 {
            MoveDirection::Up => {},
            MoveDirection::Down => {},
            MoveDirection::Left => {},
            MoveDirection::Right => {},
        }
    }
    match b.position {
        Some((x, y)) => {
            if exists|d: MoveDirection| !b.world.blocked(x, y, d) {
                let d = choose|d: MoveDirection| !b.world.blocked(x, y, d);
                lemma_safe_directions_exact(b, d);
                assert(safe.contains(d));
                let c = choose_direction(current, safe);
                lemma_safe_directions_exact(b, c);
            }
        },
        None => {},
    }
}

/// On a tick, when the bot's position is known, a step from it can be
/// computed and some neighbour is free, the bot heads into a free neighbour;
/// when its current heading is free it keeps it.
pub proof fn lemma_tick_heads_into_free_cell(current: MoveDirection, b: BotView)
    requires
        b.can_look_around(),
        b.position is Some,
    ensures
        (exists|d: MoveDirection| !b.blocked_toward(d)) ==> !b.blocked_toward(
            tick_direction(current, b),
        ),
        !b.blocked_toward(current) ==> tick_direction(current, b) == current,
{
    let (x, y) = b.position.unwrap();
    lemma_choice_is_safe(current, b);
    lemma_safe_directions_exact(b, current);
    if exists|d: MoveDirection| !b.blocked_toward(d) {
        let d = choose|d: MoveDirection| !b.blocked_toward(d);
        assert(!b.world.blocked(x, y, d));
    }
}

/// On a tick the queue keeps what was there, then gets the greeting if and
/// only if this is the round's first tick, then the move in the new heading,
/// and nothing else.
pub proof fn lemma_tick_queue(b: BotView, ticks: usize, d: MoveDirection)
    ensures
        tick_queue(b, ticks, d).len() == b.queue.len() + if ticks == 1 {
            2int
        } else {
            1int
        },
        tick_queue(b, ticks, d).subrange(0, b.queue.len() as int) == b.queue,
        tick_queue(b, ticks, d).last() == ClientPacketView::Move(d),
        ticks == 1 ==> tick_queue(b, ticks, d)[b.queue.len() as int] == ClientPacketView::Chat(
            "Demo bot. gpn-tron on crates.io"@,
        ),
{
    assert(tick_queue(b, ticks, d).subrange(0, b.queue.len() as int) =~= b.queue);
}

/// The tick count goes up by one, and wraps to zero at the end of its range.
pub proof fn lemma_next_tick(ticks: usize)
    ensures
        next_tick(ticks) as int == (ticks as int + 1) % (usize::MAX as int + 1),
{
    if ticks < usize::MAX {
        vstd::arithmetic::div_mod::lemma_small_mod((ticks + 1) as nat, (usize::MAX + 1) as nat);
    } else {
        vstd::arithmetic::div_mod::lemma_mod_self_0(usize::MAX as int + 1);
    }
}

} // verus!
