//! A checkbox-style selection menu, without the terminal.
//!
//! The crate holds the part of a multi-selection prompt that decides: which
//! rows a typed filter leaves visible, how they fall onto pages, where the
//! cursor goes on each key, which items end up checked, and in what order a
//! frame is drawn. Reading keys and writing to the screen are left to the
//! caller, who feeds keys in and carries the returned draw calls out.

pub mod config;
pub mod filter;
pub mod item;
pub mod laws;
pub mod lines;
pub mod model;
pub mod paging;
pub mod render;
pub mod selection;
pub mod session;
pub mod text;

pub use config::{MultiSelect, SimpleTheme};
pub use item::Item;
pub use model::Key;
pub use render::DrawCall;
pub use session::{EmptyInputError, Interaction, Outcome, Reaction};
