//! Gleem Crossfade: the logic of a dual-mix virtual audio mixer.

pub mod audio;
pub mod config;
pub mod control;
pub mod dbus;
pub mod devices;
pub mod fx;
pub mod json;
pub mod level;
pub mod list;
pub mod lv2;
pub mod midi;
pub mod midi_control;
pub mod picker;
pub mod profiles;
pub mod routing;
pub mod setup;
pub mod text;
pub mod tray;
pub mod vst;
