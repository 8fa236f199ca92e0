# gpn_tron

A client library for the GPN Tron game, verified with Verus.

- `src/text.rs` – splitting a protocol line at `|`, joining fields, decimal
  numbers.
- `src/packets.rs` – server and client packets, reading a server line and
  writing packets as lines. A packet written and read back (without the
  newline) is the same packet, provided message texts are non-empty, player
  names hold no `|`, and a death packet names at least one player.
- `src/errors.rs` – packet errors and the server's error codes.
- `src/world.rs` – the wrapping grid of the playing field.
- `src/bot.rs` – the client's picture of the game and the outgoing queue; the
  `GpnTronBot` trait for a bot's logic.
- `src/demobot.rs` – a bot that keeps straight and turns away from trails.
- `app/` – the network loop (tokio): connect, join, read lines, update the
  `Bot`, call the bot's logic, send the queued packets.
