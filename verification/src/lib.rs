//! Incremental directory mirroring: planning, change decisions, exclusion
//! rules, per-file execution steps and the rendering of progress output.
//!
//! The library works on plain values. Walking directories, reading file
//! metadata, copying bytes and writing to the terminal or a log file are the
//! caller's part; every decision in between is taken here.

pub mod change;
pub mod cli;
pub mod commands;
pub mod config;
pub mod copy;
pub mod exclude;
pub mod executor;
pub mod messages;
pub mod order;
pub mod output;
pub mod paths;
pub mod plan;
pub mod state;
pub mod text;
pub mod translations;
pub mod ui;

pub use change::{is_newer, ChangeError, Timestamp};
pub use cli::{Cli, Commands};
pub use config::Config;
pub use messages::Messages;
pub use output::{log_output, LogContext};
pub use exclude::{build_exclude_matcher, ExcludeMatcher, PatternError};
pub use executor::copy_incremental;
