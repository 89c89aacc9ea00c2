//! Line-oriented find-and-replace: deciding whether a line holds a search
//! term, rewriting it, and counting a pass over many lines.
pub mod pass;
pub mod text;
