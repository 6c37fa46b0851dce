//! Word-level completion for a single open text buffer: character
//! classification, run tokenization, cursor translation, the in-progress word
//! before the cursor, and the deduplicated candidate set.

pub mod classify;
pub mod tokenize;
pub mod position;
pub mod complete;
pub mod buffer;
