//! Glyphlow labels the UI elements of the focused window with hint keys, so
//! they can be picked from the keyboard.
//!
//! This crate holds what the app decides and computes: the hint alphabet and
//! its labels, the key listener, the configuration, how elements found by a
//! search are classified and kept, the engine's decisions, the word picker,
//! and the text, pattern and colour helpers they rest on.

pub mod std_text;
pub mod utf8;

pub mod hint_keys;
pub mod text;
pub mod keys;
pub mod config;
pub mod ax_element;
pub mod key_listener;
pub mod ipc;
pub mod util;
pub mod pattern;
pub mod element;
pub mod word_split;
pub mod word_picker;
pub mod css;
pub mod engine;
pub mod element_cache;

pub use engine::MultiSeletionState;
pub use key_listener::{AppSignal, FilterMode, KeyListener, KeyState, MenuItem, Mode, ScrollAction, TextAction};
