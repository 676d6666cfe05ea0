//! Decision logic of a system-wide keyboard remapper.
//!
//! While an internal "remap" modifier is held, trigger keys are rewritten into
//! other keys or chords. The interceptor watches a stream into which it also
//! injects events, so the keys it injects are recorded in a suppression set and
//! let through once when they come back.
pub mod action;
pub mod keys;
pub mod table;
pub mod suppression;
pub mod compensate;
pub mod dispatch;
pub mod laws;

pub use action::{KeyOutput, KeyState, KeyStroke, resolve_batch};
pub use keys::{HeldKeys, key_state_is_held};
pub use table::ExtensionMap;
pub use suppression::SuppressionSet;
pub use compensate::compensate;
pub use dispatch::{Reaction, handle_key_event};
