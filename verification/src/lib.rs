//! The decisions of a daemon that gives one key of a Logitech keyboard back.
//!
//! The keyboard resolves Fn in firmware, so on the ordinary keyboard channel
//! two different keys send the same usage. They still differ on the HID++
//! vendor channel: one control can be *diverted*, after which the keyboard
//! names it in a notification instead of typing. This library builds the
//! HID++ requests, reads the reports that come back, and decides step by step
//! what to do about them. It touches no device, no clock and no run loop:
//! every step takes what happened and hands back a list of actions.

pub mod config;
pub mod hidpp;
pub mod laws;
pub mod message;
pub mod numeral;
pub mod state;
