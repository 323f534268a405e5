//! Bridge between classic-API Daikin air conditioners and Apple HomeKit.
//!
//! The crate holds what the bridge decides and computes: how a unit's replies
//! are read and its commands written, how unit state maps onto HomeKit
//! characteristics and back, which devices are registered, and what the
//! activity log keeps. Sockets, the HomeKit server and the web server are
//! driven by the program around it.

pub mod activity;
pub mod bridge;
pub mod clock;
pub mod config;
pub mod daikin;
pub mod encoding;
pub mod hk;
pub mod number;
pub mod single;
pub mod startup;
pub mod text;
pub mod web;
