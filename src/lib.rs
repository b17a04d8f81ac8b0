//! Preview computation for a terminal fuzzy finder: text sanitizing, file
//! classification, syntax highlighting, a preview cache and the decisions
//! of the file previewer.
use vstd::prelude::*;

pub mod action;
pub mod cache;
pub mod config;
pub mod files;
pub mod highlight;
pub mod preview;
pub mod results;
pub mod strings;

verus! {

} // verus!
