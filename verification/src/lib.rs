//! Verified core of butter-scroll: configuration rules, per-application
//! threshold cache, keyboard interception decisions, hotkey parsing and the
//! integer decisions of the smooth-scroll engine.

pub mod config;
pub mod text;
pub mod hotkey;
pub mod threshold;
pub mod detector;
pub mod keyboard_hook;
pub mod engine;
pub mod foreground;
pub mod util;
pub mod app_filter;
pub mod easing;
pub mod app;
pub mod autostart;
pub mod resolve;
pub mod traits;
pub mod location;
pub mod paths;
pub mod combo;
