//! Finds files by extension in a directory tree, locally or in a GitHub
//! repository fetched as a zip archive.
//!
//! The library holds the decisions: how a GitHub URL is read, where its
//! archive is downloaded from, how archive entries map to paths under a target
//! folder, and which walked entries are pruned or reported. Network, disk and
//! process plumbing live around it.
pub mod error;
pub mod github;
pub mod scan;
pub mod archive;
pub mod logging;
pub mod run;
