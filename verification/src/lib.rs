//! The logic of a microphone-driven avatar ("PNG tuber") program: keys and
//! hotkeys, the settings file, the audio level ring, the bitmap-font text
//! layout and the avatar configuration strings.

pub mod binding;
pub mod keys;
pub mod number;
pub mod chars;
pub mod settings;
pub mod ring;
pub mod font;
pub mod layout;
pub mod multiline;
pub mod avatar;
pub mod controls;
pub mod names;
pub mod meta;
pub mod cache;
