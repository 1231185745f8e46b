//! Authoritative core of a turn-based, tile-matching combat game.
//!
//! The battle engine — tile pairing, buffs and triggers, skill resolution,
//! damage and health, turn scheduling, ranking and settlement — is verified.
//! Outbound notices and turn timers are modeled as queues that the session
//! accumulates; the surrounding process drains them and performs the I/O.

pub mod battle;
pub mod battle_flow;
pub mod character;
pub mod cmd_code;
pub mod tile_map;
pub mod message;
pub mod report;
pub mod robot;
pub mod room_mgr;
pub mod templates;

use vstd::prelude::*;

verus! {

/// Number of seats in a battle session.
pub const MEMBER_MAX: usize = 4;

} // verus!
