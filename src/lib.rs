//! Decoder for the macOS bookmark binary format: a self-describing,
//! offset-indexed container that records a saved reference to a file
//! (its path, volume, identifiers, flags and security metadata).
//!
//! `decode` takes the raw bookmark bytes and returns a `BookmarkData`, or one
//! of the two `BookmarkError`s. Every function is proved to return what the
//! spec functions of `format` say the bytes decode to; `laws` states
//! properties of the decoder as a whole.

pub mod bookmark;
pub mod error;
pub mod format;
pub mod laws;
pub mod reader;
pub mod toc;
pub mod values;

pub use bookmark::{decode, BookmarkData};
pub use error::BookmarkError;
