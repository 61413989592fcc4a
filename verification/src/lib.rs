//! Per-game Gamescope launch settings for Steam games: the wrapper's
//! command line, the Gamescope argument list, display presets and the
//! per-game profile store.

pub mod text;
pub mod settings;
pub mod display;
pub mod args;
pub mod gamescope;
pub mod profiles;
pub mod form;
