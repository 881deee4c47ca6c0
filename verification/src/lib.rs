//! Line-counting analysis for circom source files.
//!
//! The heart of the crate is a small state machine that classifies every
//! line of a file as blank, line comment, block comment or code, threading
//! a single "inside a block comment" flag from line to line.  Per-file
//! tallies are folded into a [`file_analyzer::Count`] and summed across
//! files.  Reading files from disk and printing reports is left to callers.

pub mod args;
pub mod file_analyzer;
pub mod render;
