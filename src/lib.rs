//! Line search with ranking over a directory of plain-text documents.
pub mod cache;
pub mod clock;
pub mod engine;
pub mod format;
pub mod scorer;
pub mod search;
pub mod text;
