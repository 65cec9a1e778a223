//! A minimal terminal text editor: the editing model, the key bindings,
//! the command-line grammar and the layout of a frame.

pub mod text;
pub mod editor;
pub mod model;
pub mod input;
pub mod render;
pub mod args;
pub mod session;
pub mod laws;
