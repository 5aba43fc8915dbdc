//! Finds stale branches in a local repository and deletes them safely,
//! writing a restore manifest before anything is removed.

pub mod backup;
pub mod branch;
pub mod clean;
pub mod cli;
pub mod config;
pub mod error;
pub mod git;
pub mod glob;
pub mod manifest;
pub mod restore;
pub mod text;
pub mod ui;
