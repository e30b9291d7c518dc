//! A line-mode paragraph editor: a store of paragraphs, the commands that
//! edit and render it, and the dispatch that maps a command line to them.

pub mod commands;
pub mod editor;
pub mod index;
pub mod input;
pub mod laws;
pub mod numeral;
pub mod render;
pub mod replace;
pub mod session;
pub mod text;
pub mod wrap;

pub use commands::Command;
pub use editor::{Editor, FormatMode};
pub use input::UserInput;
pub use session::get_command_handler;
