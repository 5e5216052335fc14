//! The frame around a run: the lines that announce it, the row that its
//! progress bar takes, and the line that closes it.

use crate::messages::Messages;
use crate::output::{LogContext, ShowSkipped};
use crate::text::{decimal_spec, fill_spec, fill_template, push_char, to_decimal};
use vstd::prelude::*;
use vstd::string::StringExecFns;

verus! {

/// The two lines that announce a run.
#[derive(Debug)]
pub struct StartMessage {
    /// The line that says a backup begins.
    pub headline: String,
    /// The line that names source and destination; it ends in five line
    /// feeds, which leave room for what the run prints.
    pub route: String,
}

/// The line that names source and destination:
/// `<starting> <source> <to> <destination>` and five line feeds.
pub open spec fn route_spec(msg: Messages, source: Seq<char>, destination: Seq<char>) -> Seq<char> {
    msg.starting_backup@ + seq![' '] + source + seq![' '] + msg.to@ + seq![' '] + destination
        + "\n\n\n\n\n"@
}

/// Writes the lines that announce a run from `source` to `destination`.
pub fn start_copy_message(msg: &Messages, source: &str, destination: &str) -> (start: StartMessage)
    ensures
        start.headline@ == msg.backup_init@,
        start.route@ == route_spec(*msg, source@, destination@),
{
    let mut route = String::from_str(msg.starting_backup.as_str());
    push_char(&mut route, ' ');
    route.append(source);
    push_char(&mut route, ' ');
    route.append(msg.to.as_str());
    push_char(&mut route, ' ');
    route.append(destination);
    route.append("\n\n\n\n\n");
    proof {
        assert(route@ =~= route_spec(*msg, source@, destination@));
    }
    StartMessage { headline: msg.backup_init.clone(), route }
}

/// The row of the progress bar on a terminal with `rows` rows: the bottom one.
pub open spec fn progress_row_spec(rows: u16) -> u16 {
    if rows == 0 {
        0
    } else {
        (rows - 1) as u16
    }
}

/// Reserves the bottom row of a terminal with `rows` rows for the run.
pub fn reserve_row(ctx: &mut LogContext, rows: u16)
    ensures
        *final(ctx) == (LogContext { row: Some(progress_row_spec(rows)), ..*old(ctx) }),
{
    ctx.row = Some(if rows == 0 {
        0
    } else {
        rows - 1
    });
}

/// The line that closes a run that went through:
/// three line feeds, then `<ended> (<copied>, <skipped>)`, the two counts
/// filled into their templates. Where skipped files are never told about,
/// the skipped count is left out.
pub open spec fn summary_spec(msg: Messages, copied: usize, skipped: usize, show_skipped: ShowSkipped) -> Seq<
    char,
> {
    let head = "\n\n\n"@ + msg.backup_ended@ + " ("@ + fill_spec(
        msg.files_copied@,
        decimal_spec(copied as nat),
    );
    if show_skipped == ShowSkipped::Never {
        head + seq![')']
    } else {
        head + ", "@ + fill_spec(msg.files_skipped@, decimal_spec(skipped as nat)) + seq![')']
    }
}

/// The line that closes a run that failed: `<error>: <cause>`.
pub open spec fn failure_spec(msg: Messages, cause: Seq<char>) -> Seq<char> {
    msg.generic_error@ + ": "@ + cause
}

/// How a run closes.
#[derive(Debug)]
pub struct RunEnd {
    /// The closing line.
    pub message: String,
    /// The process is to end with an error.
    pub failed: bool,
}

/// The options for the closing line: no row is reserved any more and the
/// line goes to the log; after a failure it is printed even in a quiet run.
pub open spec fn closing_context(ctx: LogContext, failed: bool) -> LogContext {
    LogContext {
        quiet: if failed {
            false
        } else {
            ctx.quiet
        },
        row: None,
        on_log: true,
        ..ctx
    }
}

/// Closes a run: `result` holds the numbers of copied and skipped files, or
/// the cause of the failure. The options are set for the closing line, which
/// is returned.
pub fn execute_copy(msg: &Messages, ctx: &mut LogContext, result: &Result<(usize, usize), String>) -> (end:
    RunEnd)
    ensures
        *final(ctx) == closing_context(*old(ctx), result is Err),
        end.failed == result is Err,
        end.message@ == match *result {
            Ok((copied, skipped)) => summary_spec(*msg, copied, skipped, old(ctx).show_skipped),
            Err(cause) => failure_spec(*msg, cause@),
        },
{
    ctx.row = None;
    ctx.on_log = true;
    match result {
        Ok((copied, skipped)) => {
            let mut message = String::from_str("\n\n\n");
            message.append(msg.backup_ended.as_str());
            message.append(" (");
            let copied_text = to_decimal(*copied as u128);
            let copied_part = fill_template(msg.files_copied.as_str(), copied_text.as_str());
            message.append(copied_part.as_str());
            match ctx.show_skipped {
                ShowSkipped::Never => {},
                _ => {
                    message.append(", ");
                    let skipped_text = to_decimal(*skipped as u128);
                    let skipped_part = fill_template(msg.files_skipped.as_str(), skipped_text.as_str());
                    message.append(skipped_part.as_str());
                },
            }
            push_char(&mut message, ')');
            proof {
                assert(message@ =~= summary_spec(*msg, *copied, *skipped, old(ctx).show_skipped));
            }
            RunEnd { message, failed: false }
        },
        Err(cause) => {
            ctx.quiet = false;
            let mut message = String::from_str(msg.generic_error.as_str());
            message.append(": ");
            message.append(cause.as_str());
            RunEnd { message, failed: true }
        },
    }
}

} // verus!
