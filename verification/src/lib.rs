//! A gap buffer: an editable sequence of characters that keeps its unused
//! slots together, in a gap that is moved to the cursor before each insertion.
//!
//! `model` describes a buffer as plain mathematical data, `buffer` holds the
//! executable structure, and `laws` proves what holds of every run of edits.

pub mod buffer;
pub mod laws;
pub mod model;

pub use crate::buffer::GapBuffer;
pub use crate::model::SENTINEL;
