//! Core of a transcript-search plugin: pattern compilation, a line-oriented
//! scan of a transcript for matching records, and the rendering of the
//! status/result/summary sequence into a results surface.

pub mod buffer;
pub mod coordinator;
pub mod executor;
pub mod outcome;
pub mod pattern;
pub mod text;
