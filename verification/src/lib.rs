//! A modal, chorded key-sequence dispatch engine.
//!
//! The crate turns a stream of normalized key-combination events into
//! semantic editing actions, scoped by an exclusive editing mode.  It tracks
//! partial multi-key chords across discrete input events, resolves prefix
//! ambiguity deterministically, honors per-mode passthrough rules where raw
//! characters bypass dispatch entirely, and ships two data-driven preset
//! keymaps (vim-style and emacs-style).
//!
//! The modules: [`key`] holds key combinations and chords, [`mode`] the
//! editing modes, [`action`] the closed action union and its effect
//! sequence, [`state`] the editor-state model the dispatcher mutates,
//! [`register`] the (mode, chord) binding keys, [`handler`] the registry and
//! the dispatcher itself, and [`laws`] the engine's proved properties.

pub mod action;
pub mod handler;
pub mod key;
pub mod laws;
pub mod mode;
pub mod presets;
pub mod register;
pub mod state;

pub use action::{Action, Effect};
pub use handler::KeyCombinationHandler;
pub use key::{KeyCode, KeyCombination, KeyModifiers};
pub use mode::EditorMode;
pub use register::KeyCombinationRegister;
pub use state::EditorState;
