//! The plain data behind the command line: which subcommand runs, on which
//! paths.  Argument parsing itself happens outside the library.

use vstd::prelude::*;

verus! {

/// The extraction subcommand's inputs: the path to scan and the base the
/// output paths are made relative to.
pub struct ExtractSubcommand {
    pub input_path: Option<String>,
    pub base_path: Option<String>,
}

/// Which operation was asked for.
pub enum Subcommand {
    Extract(ExtractSubcommand),
}

/// Everything the command line carries.
pub struct Args {
    pub subcommand: Subcommand,
}

} // verus!
