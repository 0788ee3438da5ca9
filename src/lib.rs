//! Polls a game server through its binary status protocol and turns two
//! consecutive polls into at most one notification-worthy difference.

pub mod application;
pub mod config;
pub mod config_loader;
pub mod minecraft;
pub mod models;
pub mod notifier;
pub mod status_checker;
