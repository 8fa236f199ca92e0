use gpn_tron::demobot::DemoBot;
use gpn_tron::packets::{ClientPacket, MoveDirection, ServerPacket};
use gpn_tron::{Bot, GpnTronBot};

fn feed(bot: &mut Bot, line: &str) {
    let p = ServerPacket::parse(line).unwrap();
    bot.apply_packet(&p);
}

fn lines(bot: &mut Bot) -> Vec<String> {
    bot.take_instructions().iter().map(|p| p.to_string()).collect()
}

#[test]
fn new_bot_knows_nothing() {
    let bot = Bot::new("me");
    assert_eq!(bot.user_id(), None);
    assert_eq!(bot.position(), None);
    assert_eq!(bot.world().size(), (0, 0));
    assert_eq!(bot.world().get(3, 4), None);
    assert!(bot.is_blocked(MoveDirection::Up));
    assert!(bot.safe_directions().is_empty());
}

#[test]
fn game_creates_an_empty_world() {
    let mut bot = Bot::new("me");
    feed(&mut bot, "game|5|4|1");
    assert_eq!(bot.world().size(), (5, 4));
    assert_eq!(bot.world().width(), 5);
    assert_eq!(bot.world().height(), 4);
    for y in 0..4 {
        for x in 0..5 {
            assert_eq!(bot.world().get(x, y), None);
        }
    }
}

#[test]
fn positions_fill_cells_modulo_the_size() {
    let mut bot = Bot::new("me");
    feed(&mut bot, "game|5|4|1");
    feed(&mut bot, "pos|2|7|9");
    assert_eq!(bot.world().get(2, 1), Some(2));
    assert_eq!(bot.world().get(7, 5), Some(2));
    assert_eq!(bot.world().get(2 + 5, 1 + 4), Some(2));
    assert_eq!(bot.world().get(1, 1), None);
    assert_eq!(bot.position(), None);
}

#[test]
fn positions_before_a_game_are_ignored_by_the_grid() {
    let mut bot = Bot::new("me");
    feed(&mut bot, "pos|2|1|1");
    assert_eq!(bot.world().get(1, 1), None);
}

#[test]
fn own_player_is_recognised_by_name() {
    let mut bot = Bot::new("me");
    feed(&mut bot, "player|3|other");
    assert_eq!(bot.user_id(), None);
    feed(&mut bot, "player|4|me");
    assert_eq!(bot.user_id(), Some(4));
    feed(&mut bot, "game|10|10|4");
    feed(&mut bot, "pos|4|2|3");
    assert_eq!(bot.position(), Some((2, 3)));
    feed(&mut bot, "game|10|10|4");
    assert_eq!(bot.position(), None);
    assert_eq!(bot.world().get(2, 3), None);
}

#[test]
fn deaths_clear_trails_and_the_own_position() {
    let mut bot = Bot::new("me");
    feed(&mut bot, "player|1|me");
    feed(&mut bot, "game|4|4|1");
    feed(&mut bot, "pos|1|0|0");
    feed(&mut bot, "pos|2|1|0");
    feed(&mut bot, "pos|3|2|0");
    feed(&mut bot, "pos|2|1|1");
    feed(&mut bot, "die|2");
    assert_eq!(bot.world().get(0, 0), Some(1));
    assert_eq!(bot.world().get(1, 0), None);
    assert_eq!(bot.world().get(1, 1), None);
    assert_eq!(bot.world().get(2, 0), Some(3));
    assert_eq!(bot.position(), Some((0, 0)));
    feed(&mut bot, "die|3|1");
    assert_eq!(bot.world().get(0, 0), None);
    assert_eq!(bot.world().get(2, 0), None);
    assert_eq!(bot.position(), None);
}

#[test]
fn steps_wrap_around() {
    let mut bot = Bot::new("me");
    feed(&mut bot, "game|4|3|1");
    let w = bot.world();
    assert_eq!(w.step(0, 0, MoveDirection::Up), (0, 2));
    assert_eq!(w.step(0, 2, MoveDirection::Down), (0, 0));
    assert_eq!(w.step(0, 0, MoveDirection::Left), (3, 0));
    assert_eq!(w.step(3, 0, MoveDirection::Right), (0, 0));
    assert_eq!(w.step(1, 1, MoveDirection::Right), (2, 1));
    let (x, y) = w.step(2, 1, MoveDirection::Up);
    assert_eq!(w.step(x, y, MoveDirection::Down), (2, 1));
}

#[test]
fn blocked_and_safe_directions() {
    let mut bot = Bot::new("me");
    feed(&mut bot, "player|1|me");
    feed(&mut bot, "game|3|3|1");
    feed(&mut bot, "pos|1|1|1");
    feed(&mut bot, "pos|2|1|0");
    feed(&mut bot, "pos|3|0|1");
    assert!(bot.world().is_blocked(1, 1, MoveDirection::Up));
    assert!(bot.is_blocked(MoveDirection::Up));
    assert!(bot.is_blocked(MoveDirection::Left));
    assert!(!bot.is_blocked(MoveDirection::Down));
    assert!(!bot.is_blocked(MoveDirection::Right));
    assert_eq!(bot.safe_directions(), vec![MoveDirection::Down, MoveDirection::Right]);
    assert!(bot.can_look_around());
}

#[test]
fn position_outside_an_empty_world_cannot_look_around() {
    let mut bot = Bot::new("me");
    feed(&mut bot, "player|1|me");
    feed(&mut bot, "pos|1|1|1");
    assert_eq!(bot.position(), Some((1, 1)));
    assert!(!bot.can_look_around());
}

#[test]
fn queued_packets_are_taken_in_order() {
    let mut bot = Bot::new("me");
    bot.chat("hello");
    bot.do_move(MoveDirection::Left);
    bot.write_packet(ClientPacket::join("a", "b"));
    assert_eq!(lines(&mut bot), vec!["chat|hello\n", "move|left\n", "join|a|b\n"]);
    assert!(bot.take_instructions().is_empty());
}

#[test]
fn server_packets_leave_the_queue_alone() {
    let mut bot = Bot::new("me");
    bot.do_move(MoveDirection::Up);
    feed(&mut bot, "game|2|2|0");
    feed(&mut bot, "tick");
    assert_eq!(lines(&mut bot), vec!["move|up\n"]);
}

fn demo_tick(demo: &mut DemoBot, bot: &mut Bot) -> Vec<String> {
    feed(bot, "tick");
    demo.handle_packet(bot, ServerPacket::Tick);
    lines(bot)
}

#[test]
fn demo_bot_greets_once_and_keeps_straight() {
    let mut bot = Bot::new("me");
    let mut demo = DemoBot::new();
    feed(&mut bot, "player|1|me");
    feed(&mut bot, "game|5|5|1");
    feed(&mut bot, "pos|1|2|2");
    assert_eq!(
        demo_tick(&mut demo, &mut bot),
        vec!["chat|Demo bot. gpn-tron on crates.io\n", "move|up\n"]
    );
    assert_eq!(demo_tick(&mut demo, &mut bot), vec!["move|up\n"]);
}

#[test]
fn demo_bot_turns_to_the_first_free_direction() {
    let mut bot = Bot::new("me");
    let mut demo = DemoBot::new();
    feed(&mut bot, "player|1|me");
    feed(&mut bot, "game|5|5|1");
    feed(&mut bot, "pos|1|2|2");
    feed(&mut bot, "pos|9|2|1");
    let out = demo_tick(&mut demo, &mut bot);
    assert_eq!(out.last().unwrap(), "move|right\n");
    feed(&mut bot, "pos|9|3|2");
    assert_eq!(demo_tick(&mut demo, &mut bot), vec!["move|down\n"]);
}

#[test]
fn demo_bot_charges_on_when_boxed_in() {
    let mut bot = Bot::new("me");
    let mut demo = DemoBot::new();
    feed(&mut bot, "player|1|me");
    feed(&mut bot, "game|3|3|1");
    for line in ["pos|1|1|1", "pos|9|1|0", "pos|9|1|2", "pos|9|0|1", "pos|9|2|1"] {
        feed(&mut bot, line);
    }
    assert!(bot.safe_directions().is_empty());
    let out = demo_tick(&mut demo, &mut bot);
    assert_eq!(out.last().unwrap(), "move|up\n");
}

#[test]
fn demo_bot_resets_on_a_new_game() {
    let mut bot = Bot::new("me");
    let mut demo = DemoBot::new();
    feed(&mut bot, "player|1|me");
    feed(&mut bot, "game|5|5|1");
    feed(&mut bot, "pos|1|2|2");
    feed(&mut bot, "pos|9|2|1");
    demo_tick(&mut demo, &mut bot);
    assert_eq!(demo_tick(&mut demo, &mut bot), vec!["move|right\n"]);
    feed(&mut bot, "game|5|5|1");
    demo.handle_packet(&mut bot, ServerPacket::Game { width: 5, height: 5, curr_player_id: 1 });
    assert!(bot.take_instructions().is_empty());
    feed(&mut bot, "pos|1|0|0");
    assert_eq!(
        demo_tick(&mut demo, &mut bot),
        vec!["chat|Demo bot. gpn-tron on crates.io\n", "move|up\n"]
    );
}

#[test]
fn demo_bot_ignores_other_packets() {
    let mut bot = Bot::new("me");
    let mut demo = DemoBot::new();
    demo.handle_packet(&mut bot, ServerPacket::MessageOfTheDay("hi".to_string()));
    assert!(bot.take_instructions().is_empty());
}

#[test]
fn demo_bot_keeps_heading_when_no_step_can_be_computed() {
    let mut bot = Bot::new("me");
    let mut demo = DemoBot::new();
    feed(&mut bot, "player|1|me");
    feed(&mut bot, "pos|1|2|2");
    assert!(!bot.can_look_around());
    demo.handle_packet(&mut bot, ServerPacket::MessageOfTheDay("hi".to_string()));
    assert!(bot.take_instructions().is_empty());
    assert_eq!(
        demo_tick(&mut demo, &mut bot),
        vec!["chat|Demo bot. gpn-tron on crates.io\n", "move|up\n"]
    );
}
