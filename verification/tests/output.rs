use rbackup::output::{log_line, log_output, LogContext, ShowSkipped, TerminalTarget};

#[test]
fn default_context() {
    let ctx = LogContext::default();
    assert!(!ctx.quiet);
    assert!(!ctx.with_timestamp);
    assert_eq!(ctx.timestamp_format, None);
    assert_eq!(ctx.row, None);
    assert!(!ctx.on_log);
    assert!(!ctx.exclude_match_absolute);
    assert!(!ctx.dry_run);
    assert_eq!(ctx.show_skipped, ShowSkipped::All);
    assert!(ctx.exclude_patterns.is_none());
    assert!(ctx.exclude_matcher.is_none());
}

#[test]
fn timestamp_format_falls_back_to_the_default() {
    let ctx = LogContext::default();
    assert_eq!(ctx.effective_timestamp_format(), "%Y-%m-%d %H:%M:%S");
    let ctx = LogContext { timestamp_format: Some("%H:%M".into()), ..Default::default() };
    assert_eq!(ctx.effective_timestamp_format(), "%H:%M");
}

#[test]
fn lines_get_the_time_in_front() {
    assert_eq!(log_line("copied a.txt", true, "2025-01-02 03:04:05"), "[2025-01-02 03:04:05] copied a.txt");
    assert_eq!(log_line("copied a.txt", false, "2025-01-02 03:04:05"), "copied a.txt");
}

#[test]
fn blank_lines_get_no_time() {
    assert_eq!(log_line("", true, "now"), "");
    assert_eq!(log_line("  \n\t", true, "now"), "  \n\t");
    assert_eq!(log_line(" x", true, "now"), "[now]  x");
}

#[test]
fn terminal_target_follows_quiet_and_row() {
    let ctx = LogContext { quiet: true, row: Some(3), on_log: true, ..Default::default() };
    let out = log_output("m", &ctx, "t");
    assert_eq!(out.terminal, TerminalTarget::Silent);
    assert!(out.to_log);
    assert_eq!(out.line, "m");

    let ctx = LogContext { row: Some(3), with_timestamp: true, ..Default::default() };
    let out = log_output("m", &ctx, "t");
    assert_eq!(out.terminal, TerminalTarget::Row(3));
    assert!(!out.to_log);
    assert_eq!(out.line, "[t] m");

    let out = log_output("m", &LogContext::default(), "t");
    assert_eq!(out.terminal, TerminalTarget::NextLine);
}
