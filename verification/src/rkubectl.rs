//! What the command-line client computes: paths to ask for, and tables to show.

pub mod get;
