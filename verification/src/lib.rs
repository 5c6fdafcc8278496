//! A character scanner for hand-written tokenizers.
//!
//! A [`Scanny`] walks over a text that is held in memory. A chain of small
//! steps asks whether the text ahead has a given shape, while the scanner
//! counts bytes and lines. Whether the shape was found and whether the
//! scanner moves past what it read are two separate decisions: the steps of
//! a chain work on a session that is committed or dropped when the chain is
//! finalized.
//!
//! - [`scanner`] holds the scanner and its steps,
//! - [`outcome`] what a finished session reports,
//! - [`pos`] a value with the place where it was found,
//! - [`model`] the mathematical state that the contracts speak of,
//! - [`text`] byte offsets and line numbers as functions of a text,
//! - [`laws`] what holds of every scanner.

pub mod laws;
pub mod model;
pub mod outcome;
pub mod pos;
pub mod scanner;
pub mod text;

pub use outcome::MatchType;
pub use pos::WithPos;
pub use scanner::Scanny;
