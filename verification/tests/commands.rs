use rbackup::commands::{handle_conf, handle_copy, ConfigStep, CopyError};
use rbackup::exclude::PatternError;
use rbackup::output::ShowSkipped;
use rbackup::{Cli, Commands, Config};

fn config() -> Config {
    Config { language: "auto".into(), timestamp_format: "%Y-%m-%d %H:%M:%S".into(), jobs: 4 }
}

fn copy(exclude: Vec<String>, jobs: Option<usize>) -> Commands {
    Commands::Copy {
        source: "src".into(),
        destination: "dst".into(),
        quiet: true,
        timestamp: true,
        log: Some("run.log".into()),
        exclude,
        absolute_exclude: true,
        ignore_case: true,
        dry_run: true,
        jobs,
    }
}

#[test]
fn copy_command_becomes_a_job() {
    let job = handle_copy(&copy(vec![], None), &config()).unwrap().unwrap();
    assert_eq!(job.source, "src");
    assert_eq!(job.destination, "dst");
    assert_eq!(job.jobs, 4);
    assert_eq!(job.log, Some("run.log".to_string()));
    assert!(job.context.quiet);
    assert!(job.context.with_timestamp);
    assert_eq!(job.context.timestamp_format, Some("%Y-%m-%d %H:%M:%S".to_string()));
    assert_eq!(job.context.row, None);
    assert!(job.context.on_log);
    assert!(job.context.exclude_match_absolute);
    assert!(job.context.dry_run);
    assert_eq!(job.context.show_skipped, ShowSkipped::All);
    assert!(job.context.exclude_matcher.is_none());
    assert!(job.context.exclude_patterns.is_none());
}

#[test]
fn jobs_on_the_command_line_win() {
    let job = handle_copy(&copy(vec![], Some(9)), &config()).unwrap().unwrap();
    assert_eq!(job.jobs, 9);
}

#[test]
fn zero_jobs_are_refused() {
    assert!(matches!(handle_copy(&copy(vec![], Some(0)), &config()), Err(CopyError::InvalidJobs)));
    let none = Config { jobs: 0, ..config() };
    assert!(matches!(handle_copy(&copy(vec![], None), &none), Err(CopyError::InvalidJobs)));
    // the command line can mend a configuration without worker threads
    assert!(handle_copy(&copy(vec![], Some(2)), &none).is_ok());
}

#[test]
fn exclude_patterns_are_compiled() {
    let patterns = vec!["*.TMP".to_string(), "cache/**".to_string()];
    let job = handle_copy(&copy(patterns.clone(), None), &config()).unwrap().unwrap();
    assert_eq!(job.context.exclude_patterns, Some(patterns));
    let matcher = job.context.exclude_matcher.unwrap();
    // ignore_case is set on the command
    assert_eq!(matcher.is_match("a/b.tmp"), Some("*.TMP"));
    assert_eq!(matcher.is_match("cache/x"), Some("cache/**"));
    assert_eq!(matcher.is_match("src/main.rs"), None);
}

#[test]
fn bad_exclude_pattern_is_refused() {
    let patterns = vec!["ok".to_string(), "a{b".to_string()];
    match handle_copy(&copy(patterns, None), &config()) {
        Err(CopyError::Pattern(PatternError::InvalidGlob { index, pattern, .. })) => {
            assert_eq!(index, 1);
            assert_eq!(pattern, "a{b");
        }
        _ => panic!("the pattern is refused"),
    }
}

#[test]
fn zero_jobs_are_found_before_a_bad_pattern() {
    let patterns = vec!["[".to_string()];
    assert!(matches!(handle_copy(&copy(patterns, Some(0)), &config()), Err(CopyError::InvalidJobs)));
}

#[test]
fn other_commands_are_no_copy_job() {
    let cmd = Commands::Config {
        init_config: true,
        print_config: false,
        edit_config: false,
        upgrade_config: false,
        editor: None,
    };
    assert!(handle_copy(&cmd, &config()).unwrap().is_none());
}

#[test]
fn config_steps_come_in_order() {
    let cmd = Commands::Config {
        init_config: true,
        print_config: true,
        edit_config: true,
        upgrade_config: true,
        editor: Some("nano".into()),
    };
    let steps = handle_conf(&cmd);
    assert_eq!(steps.len(), 4);
    assert!(matches!(steps[0], ConfigStep::Print));
    assert!(matches!(steps[1], ConfigStep::Init));
    assert!(matches!(steps[2], ConfigStep::Upgrade));
    match &steps[3] {
        ConfigStep::Edit { editor } => assert_eq!(editor.as_deref(), Some("nano")),
        _ => panic!("the last step is the editor"),
    }
}

#[test]
fn config_steps_follow_the_flags() {
    let cmd = Commands::Config {
        init_config: false,
        print_config: false,
        edit_config: false,
        upgrade_config: true,
        editor: Some("nano".into()),
    };
    let steps = handle_conf(&cmd);
    assert_eq!(steps.len(), 1);
    assert!(matches!(steps[0], ConfigStep::Upgrade));
    assert!(handle_conf(&copy(vec![], None)).is_empty());
}

#[test]
fn command_line_without_subcommand() {
    let cli = Cli { command: None };
    assert!(cli.command.is_none());
}
