//! Line-oriented text search: which lines of a source hold a pattern, under
//! which number, and how a matching line is cut in three so that the match can
//! be marked.
//!
//! The library works on plain values. Reading the source and writing the
//! results is left to the caller: lines go into a [`Scanner`] one by one, and
//! each matching line comes back as a [`Match`], which [`Config::render`] turns
//! into the line to write.
pub mod boundary;
pub mod color;
pub mod config;
pub mod errors;
pub mod highlight;
pub mod matching;
pub mod number;
pub mod paint;
pub mod render;
pub mod scan;
pub mod search;
pub mod text;

pub use crate::color::{color_or_default, resolve_color, HighlightColor};
pub use crate::config::Config;
pub use crate::errors::GrepError;
pub use crate::highlight::{highlight, highlight_at, highlight_folded, Highlighted};
pub use crate::matching::{contains_text, is_match};
pub use crate::scan::{Match, Scanner};
