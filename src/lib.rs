//! Finds development artifacts (dependency caches, build outputs, editor
//! metadata) in a directory listing, sizes them, and tracks a clean-up session.
use vstd::prelude::*;

pub mod assistant;
pub mod text;
pub mod catalog;
pub mod cleaner;
pub mod context;
pub mod matcher;
pub mod models;
pub mod scanner;
pub mod session;
pub mod setup;

verus! {

} // verus!
