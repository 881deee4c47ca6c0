//! Command-line options, as plain data.
//!
//! The binary front end parses the actual command line and converts into
//! this type; the library itself never touches the process environment.

use vstd::prelude::*;

verus! {

/// Options selecting what to analyze: a directory to walk and an optional
/// file extension to exclude from the walk.
#[derive(Clone, Debug)]
pub struct Args {
    /// Path to the file or directory to analyze.
    pub circom_dir: String,
    /// Exclude files with the specified extension.
    pub exclude_ext: Option<String>,
}

} // verus!
