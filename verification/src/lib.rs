//! A text-editing engine: an undo-aware character buffer with a cursor, a
//! selection and grid addressing, driven by discrete edit operations.
//!
//! The text itself is held in a `ropey::Rope`; everything the engine decides
//! (where the cursor lands, what an edit removes, when an undo entry is
//! started) is stated over the sequence of characters the rope holds.

pub mod buffer;
pub mod char_bytes;
pub mod char_class;
pub mod crlf;
pub mod cursor;
pub mod editor_action;
pub mod lines;
pub mod model;
pub mod process_keyboard;
pub mod text;
pub mod utf8;
pub mod word;
