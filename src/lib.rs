//! A writer that prefixes each line it forwards with indentation.
//!
//! `Indent` wraps a byte sink and inserts a run of `depth` copies of a symbol
//! before the content of each line. `more` and `less` move the depth up and
//! down by a fixed step, saturating at `0` and `255`.
pub mod model;
pub mod symbol;
pub mod indent;
pub mod laws;

pub use indent::Indent;
