//! Verified core of an offline Lightning ATM: coin pulse decoding, the ATM's
//! state machine, configuration strings and the idle-screen ("OrangeClock")
//! data logic.

pub mod coins;
pub mod state;
pub mod text;
pub mod util;
pub mod mempool;
pub mod display;
pub mod config;
pub mod portal;
pub mod board;
pub mod control;
