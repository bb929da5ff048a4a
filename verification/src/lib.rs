//! The core of a small terminal text editor.
//!
//! A [`Row`] is one line of text. It is addressed by grapheme cluster, the unit a
//! reader takes for one character, and it can be edited, searched and rendered with
//! colours for a terminal.

pub mod editor;
pub mod filetype;
pub mod highlighting;
pub mod laws;
pub mod row;
pub mod search;
pub mod segmentation;
pub mod style;
pub mod text;

pub use editor::{Command, Editor, Key, Position};
pub use filetype::{FileType, HighlightingOptions};
pub use highlighting::{Color, Type};
pub use row::Row;
pub use search::SearchDirection;
