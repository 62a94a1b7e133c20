//! Editing core of a multi-line text area whose content lives in a replicated
//! text object: cursor motion, word boundaries, reversible edits with
//! undo/redo, scrolling, pattern search, and a session type that ties them
//! together.

pub mod text;
pub mod util;
pub mod word;
pub mod cursor;
pub mod history;
pub mod area;
pub mod search;
pub mod scroll;
