//! The command line, as plain values.

use vstd::prelude::*;

verus! {

/// The command line of the scanner.
#[derive(Debug, Clone, PartialEq, Eq)]
pub struct Cli {
    pub command: Command,
}

/// The commands of the scanner.
#[derive(Debug, Clone, PartialEq, Eq)]
pub enum Command {
    /// Scan manifests against an advisory feed.
    Scan(ScanArgs),
}

/// The arguments of `scan`.
#[derive(Debug, Clone, PartialEq, Eq)]
pub struct ScanArgs {
    /// The manifest file or directory.
    pub path: String,
    /// The advisory feed directory.
    pub cve_feed: String,
    /// How to render the report.
    pub output: OutputFormat,
}

/// How a report is rendered.
#[derive(Debug, Clone, Copy, PartialEq, Eq, Structural)]
pub enum OutputFormat {
    Json,
    Text,
}

} // verus!
