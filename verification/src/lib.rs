//! Renders a stream of text inside a fixed-width ASCII-art speech bubble.
//!
//! Text is fed in arbitrary chunks, word-wrapped to a target column width,
//! and completed bordered rows are buffered until the caller drains them,
//! so output can be streamed while input is still arriving.

pub mod bubble;
pub mod clippit_art;
pub mod clippy_output;
pub mod rewrite;
pub mod textconv;
pub mod wrapping;

pub use rewrite::replace_words;

