//! Core of a modal terminal text editor: actions and key bindings, the
//! editor's state machine, registers, buffers backed by a rope, the plugin
//! registry and the layout tree of the user interface.

pub mod action;
pub mod args;
pub mod buffer;
pub mod config;
pub mod editor;
pub mod key;
pub mod laws;
pub mod registry;
pub mod render;
pub mod rope;
pub mod text;

pub use action::{
    duplicate_actions, keys_distinct, last_binding, same_binding, views, well_keyed, Action,
    ActionView, KeyAction,
};
