//! Semantic outlines of source files.
//!
//! A syntax tree, as an incremental parser reports it, is turned into a nested
//! outline of containers and terminals. Every outline node carries a display
//! name, a line and column span for readers and a byte span for exact slicing.
//! The outline of a whole file can be rendered as a pretty-printed document.

pub mod error;
pub mod file;
pub mod json;
pub mod name;
pub mod normalize;
pub mod outline;
pub mod raw;
pub mod reading;
pub mod source;
pub mod span;
pub mod syntax;
pub mod text;
pub mod wellformed;
