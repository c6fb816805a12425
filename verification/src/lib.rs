//! Core state of a terminal dashboard for GitHub pull requests: a per-panel
//! store of pull requests grouped by repository, a case-insensitive filter
//! projection, a flat row-index translator over the visible groups, and the
//! refresh bookkeeping that merges freshly fetched data without corrupting
//! the cursor or the detail view.

pub mod app_state;
pub mod cli;
pub mod config;
pub mod details_state;
pub mod list_state;
pub mod pull_request;
pub mod text;
pub mod types;

use vstd::prelude::*;

verus! {

/// How many rows page-style navigation moves the cursor at a time.
pub const JUMP_STEP: usize = 5;

} // verus!
