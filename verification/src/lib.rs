//! Width-aware status-line core: segment extraction from session input and
//! an escape-sequence-safe width measurement and truncation engine.

pub mod chars;
pub mod segment;
pub mod terminal;
pub mod width;
