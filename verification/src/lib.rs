//! A focus-scoped command routing layer for a keyboard-driven task client.
//!
//! The library models key chords, a closed command vocabulary, logical input
//! contexts, layered keymaps with override and global-fallback resolution,
//! the focus-target state machine, and the root router that turns a key event
//! into a command for exactly one owning component.

pub mod active_context;
pub mod bindings;
pub mod chord;
pub mod command;
pub mod context;
pub mod defaults;
pub mod dispatcher;
pub mod filters;
pub mod keymap;
pub mod project_tree;
pub mod router;
pub mod text;
