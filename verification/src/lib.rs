//! Runs one command across many directories and reduces the outcomes to a
//! single report.
//!
//! The library is the deciding half of the tool. It never touches the disk,
//! a terminal or a process: the caller looks, asks and spawns, and hands in
//! what it saw as plain values. Everything the library returns is stated in
//! its contracts and proved.
//!
//! - [`config`]: the configuration of a run and the selection of directories.
//! - [`expand`]: the expansion of directories by their subdirectories.
//! - [`alias`], [`source`], [`shell`], [`resolve`]: the alias table, where
//!   it comes from, and the resolution of a command line against it.
//! - [`exec`]: what is done for one command in one directory.
//! - [`coordinator`], [`slots`]: work items, outcomes in positional order,
//!   and the summary of a run.
//! - [`progress`]: one indicator per work item.
//! - [`report`], [`document`]: the textual report and the structured one.
//! - [`wizard`]: the state machine that writes the shell's aliases to the
//!   global alias file.
//! - [`json`], [`decimal`], [`text`]: JSON documents, numbers in decimal and
//!   character-level helpers.

pub mod alias;
pub mod config;
pub mod coordinator;
pub mod decimal;
pub mod document;
pub mod exec;
pub mod expand;
pub mod json;
pub mod progress;
pub mod report;
pub mod resolve;
pub mod shell;
pub mod slots;
pub mod source;
pub mod text;
pub mod wizard;
