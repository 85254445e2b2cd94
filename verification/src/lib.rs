//! Core logic of a keyboard-driven tiling file manager: directory
//! navigation state, split-view layout trees, tabbed buffers, and the
//! text helpers they rely on.

pub mod text;
pub mod textmap;
pub mod paths;
pub mod crypto;
pub mod tree;
pub mod bus;
pub mod keys;
pub mod app;
pub mod workspaces;
pub mod actions;
pub mod editor;
pub mod highlight;
pub mod ui;
