//! The command line as plain data: what the argument parser hands over.

use vstd::prelude::*;

verus! {

/// Parsed command-line arguments.
///
/// Without a subcommand `command` is `None`, and the caller decides what to
/// do (print the help, for one).
#[derive(Debug)]
pub struct Cli {
    pub command: Option<Commands>,
}

/// The subcommands, each with its options.
#[derive(Debug)]
pub enum Commands {
    /// Perform an incremental backup.
    Copy {
        /// Source directory to back up.
        source: String,
        /// Destination directory.
        destination: String,
        /// Suppress all output to the terminal.
        quiet: bool,
        /// Print timestamps in logs.
        timestamp: bool,
        /// File to write the log to.
        log: Option<String>,
        /// Glob patterns of the files to leave out.
        exclude: Vec<String>,
        /// Match exclude patterns against absolute paths instead of relative ones.
        absolute_exclude: bool,
        /// Match exclude patterns without regard to case.
        ignore_case: bool,
        /// Go through the run without copying any file.
        dry_run: bool,
        /// Number of worker threads; overrides the configured number.
        jobs: Option<usize>,
    },
    /// Manage the configuration file.
    Config {
        /// Write a default configuration file.
        init_config: bool,
        /// Print the current configuration file.
        print_config: bool,
        /// Open the configuration file in an editor.
        edit_config: bool,
        /// Add the settings that an older configuration file lacks.
        upgrade_config: bool,
        /// The editor to use, in place of the one the environment names.
        editor: Option<String>,
    },
}

} // verus!
