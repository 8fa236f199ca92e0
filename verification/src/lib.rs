//! A client library for the GPN Tron game: the line protocol's packets, the
//! client's picture of the playing field, and a demo bot.
//!
//! The network loop lives outside this crate; it reads a line, parses it
//! with [`packets::ServerPacket::parse`], updates the [`Bot`] with
//! [`Bot::apply_packet`], hands the packet to a [`GpnTronBot`], and sends what
//! [`Bot::take_instructions`] returns.

pub mod bot;
pub mod demobot;
pub mod errors;
pub mod packets;
pub mod text;
pub mod world;

pub use bot::{Bot, BotView, GpnTronBot};
pub use world::{WorldMap, WorldView};
