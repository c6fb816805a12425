//! The command-line surface: which subcommand, if any, was asked for.
//! Argument parsing itself is an I/O concern outside this crate.

use vstd::prelude::*;

verus! {

/// A configuration-editing subcommand.
pub enum Command {
    AddRepo,
    DeleteRepo,
}

/// The parsed invocation: a subcommand, or none to open the dashboard.
pub struct GitMe {
    pub command: Option<Command>,
}

} // verus!
