//! What a run prints and where: the options of a run, and for each line the
//! text and the sinks it goes to.

use crate::exclude::ExcludeMatcher;
use crate::text::{is_blank, is_blank_spec, push_char};
use vstd::prelude::*;
use vstd::string::StringExecFns;

verus! {

/// Which skipped files a run tells about.
#[derive(Clone, Copy, Debug, PartialEq, Eq, Structural)]
pub enum ShowSkipped {
    /// Unchanged files are not mentioned, and the summary leaves the
    /// skipped files out.
    Never,
    /// Unchanged files are counted in the summary only.
    Summary,
    /// Every skipped file gets a line.
    All,
}

/// The options of one run.
#[derive(Clone, Debug)]
pub struct LogContext {
    /// Nothing is written to the terminal.
    pub quiet: bool,
    /// Lines start with the time.
    pub with_timestamp: bool,
    /// The format of that time, in strftime syntax.
    pub timestamp_format: Option<String>,
    /// The terminal row reserved for the line, if one is.
    pub row: Option<u16>,
    /// Lines go to the log file too, where there is one.
    pub on_log: bool,
    /// Exclude rules are tested on the full source path; when false, on the
    /// path relative to the source directory.
    pub exclude_match_absolute: bool,
    /// Files are not copied, but the same output and counts are produced.
    pub dry_run: bool,
    /// Which skipped files are told about.
    pub show_skipped: ShowSkipped,
    /// The exclude patterns, in the order used to build the matcher.
    pub exclude_patterns: Option<Vec<String>>,
    /// The matcher built from the exclude patterns.
    pub exclude_matcher: Option<ExcludeMatcher>,
}

/// The timestamp format used where none is configured.
pub open spec fn default_timestamp_format() -> Seq<char> {
    "%Y-%m-%d %H:%M:%S"@
}

impl LogContext {
    /// The options of a run that nothing was asked of: output to the
    /// terminal only, no timestamps, no exclusions, files are copied, every
    /// skipped file is told about.
    pub open spec fn is_default(self) -> bool {
        &&& !self.quiet
        &&& !self.with_timestamp
        &&& self.timestamp_format is None
        &&& self.row is None
        &&& !self.on_log
        &&& !self.exclude_match_absolute
        &&& !self.dry_run
        &&& self.show_skipped == ShowSkipped::All
        &&& self.exclude_patterns is None
        &&& self.exclude_matcher is None
    }

    /// The format to write the time in.
    pub open spec fn timestamp_format_spec(self) -> Seq<char> {
        match self.timestamp_format {
            Some(f) => f@,
            None => default_timestamp_format(),
        }
    }

    /// The format to write the time in: the configured one, or
    /// `%Y-%m-%d %H:%M:%S`.
    pub fn effective_timestamp_format(&self) -> (f: &str)
        ensures
            f@ == self.timestamp_format_spec(),
    {
        match &self.timestamp_format {
            Some(f) => f.as_str(),
            None => "%Y-%m-%d %H:%M:%S",
        }
    }
}

impl Default for LogContext {
    fn default() -> (c: LogContext)
        ensures
            c.is_default(),
    {
        LogContext {
            quiet: false,
            with_timestamp: false,
            timestamp_format: None,
            row: None,
            on_log: false,
            exclude_match_absolute: false,
            dry_run: false,
            show_skipped: ShowSkipped::All,
            exclude_patterns: None,
            exclude_matcher: None,
        }
    }
}

/// Where on the terminal a line goes.
#[derive(Clone, Copy, Debug, PartialEq, Eq, Structural)]
pub enum TerminalTarget {
    /// Nowhere.
    Silent,
    /// To the given row, which is cleared first.
    Row(u16),
    /// After what was printed last, as a line of its own.
    NextLine,
}

/// One line of output with its sinks.
#[derive(Debug)]
pub struct LogOutput {
    /// The text, with the time in front where timestamps are on.
    pub line: String,
    pub terminal: TerminalTarget,
    /// The line is written to the log file, if the run has one.
    pub to_log: bool,
}

/// Whether a line gets the time in front: timestamps are on and the message
/// is not blank.
pub open spec fn stamped(msg: Seq<char>, with_timestamp: bool) -> bool {
    with_timestamp && !is_blank_spec(msg)
}

/// The text of a line: `[time] message` where the time goes in front, the
/// message alone otherwise.
pub open spec fn log_line_spec(msg: Seq<char>, with_timestamp: bool, time: Seq<char>) -> Seq<char> {
    if stamped(msg, with_timestamp) {
        seq!['['] + time + seq![']', ' '] + msg
    } else {
        msg
    }
}

/// Where on the terminal a line of this run goes.
pub open spec fn terminal_target_spec(quiet: bool, row: Option<u16>) -> TerminalTarget {
    if quiet {
        TerminalTarget::Silent
    } else {
        match row {
            Some(r) => TerminalTarget::Row(r),
            None => TerminalTarget::NextLine,
        }
    }
}

/// The text of a line with the time `time` in front, where timestamps are on
/// and the message is not blank.
pub fn log_line(msg: &str, with_timestamp: bool, time: &str) -> (line: String)
    ensures
        line@ == log_line_spec(msg@, with_timestamp, time@),
{
    if with_timestamp && !is_blank(msg) {
        let mut line = String::new();
        push_char(&mut line, '[');
        line.append(time);
        push_char(&mut line, ']');
        push_char(&mut line, ' ');
        line.append(msg);
        proof {
            assert(line@ =~= seq!['['] + time@ + seq![']', ' '] + msg@);
        }
        line
    } else {
        String::from_str(msg)
    }
}

/// Prepares one message for output: its text, where on the terminal it
/// goes, and whether it goes to the log file. `time` is the current time,
/// written in the format of `ctx`.
pub fn log_output(msg: &str, ctx: &LogContext, time: &str) -> (out: LogOutput)
    ensures
        out.line@ == log_line_spec(msg@, ctx.with_timestamp, time@),
        out.terminal == terminal_target_spec(ctx.quiet, ctx.row),
        out.to_log == ctx.on_log,
{
    let terminal = if ctx.quiet {
        TerminalTarget::Silent
    } else {
        match ctx.row {
            Some(r) => TerminalTarget::Row(r),
            None => TerminalTarget::NextLine,
        }
    };
    LogOutput { line: log_line(msg, ctx.with_timestamp, time), terminal, to_log: ctx.on_log }
}

} // verus!
