//! The decisions behind the subcommands: what a `copy` command asks for
//! once the configuration is taken into account, and which steps a `config`
//! command takes.

use crate::cli::Commands;
use crate::config::Config;
use crate::exclude::{build_exclude_matcher, build_outcome, PatternError};
use crate::output::{LogContext, ShowSkipped};
use vstd::prelude::*;

verus! {

/// One step of the `config` subcommand.
#[derive(Debug)]
pub enum ConfigStep {
    /// Print the configuration file.
    Print,
    /// Write a default configuration file.
    Init,
    /// Add the settings that the configuration file lacks.
    Upgrade,
    /// Open the configuration file in an editor.
    Edit { editor: Option<String> },
}

/// A `ConfigStep` as plain values.
pub enum ConfigStepView {
    Print,
    Init,
    Upgrade,
    Edit { editor: Option<Seq<char>> },
}

impl View for ConfigStep {
    type V = ConfigStepView;

    open spec fn view(&self) -> ConfigStepView {
        match self {
            ConfigStep::Print => ConfigStepView::Print,
            ConfigStep::Init => ConfigStepView::Init,
            ConfigStep::Upgrade => ConfigStepView::Upgrade,
            ConfigStep::Edit { editor } => ConfigStepView::Edit {
                editor: match editor {
                    Some(e) => Some(e@),
                    None => None,
                },
            },
        }
    }
}

/// The views of a sequence of steps.
pub open spec fn step_views(steps: Seq<ConfigStep>) -> Seq<ConfigStepView> {
    Seq::new(steps.len(), |i: int| steps[i]@)
}

/// The steps of a command: for `config`, one step for each flag that is
/// set, in the order print, init, upgrade, edit; for any other command none.
pub open spec fn config_steps_spec(cmd: Commands) -> Seq<ConfigStepView> {
    match cmd {
        Commands::Config { init_config, print_config, edit_config, upgrade_config, editor } => {
            let print = if print_config {
                seq![ConfigStepView::Print]
            } else {
                Seq::empty()
            };
            let init = if init_config {
                seq![ConfigStepView::Init]
            } else {
                Seq::empty()
            };
            let upgrade = if upgrade_config {
                seq![ConfigStepView::Upgrade]
            } else {
                Seq::empty()
            };
            let edit = if edit_config {
                seq![
                    ConfigStepView::Edit {
                        editor: match editor {
                            Some(e) => Some(e@),
                            None => None,
                        },
                    },
                ]
            } else {
                Seq::empty()
            };
            print + init + upgrade + edit
        },
        Commands::Copy { .. } => Seq::empty(),
    }
}

/// Handle the `config` subcommand: the steps to take, in order.
pub fn handle_conf(cmd: &Commands) -> (steps: Vec<ConfigStep>)
    ensures
        step_views(steps@) == config_steps_spec(*cmd),
{
    let mut steps: Vec<ConfigStep> = Vec::new();
    match cmd {
        Commands::Config { init_config, print_config, edit_config, upgrade_config, editor } => {
            if *print_config {
                steps.push(ConfigStep::Print);
            }
            if *init_config {
                steps.push(ConfigStep::Init);
            }
            if *upgrade_config {
                steps.push(ConfigStep::Upgrade);
            }
            if *edit_config {
                let chosen = match editor {
                    Some(e) => Some(e.clone()),
                    None => None,
                };
                steps.push(ConfigStep::Edit { editor: chosen });
            }
        },
        Commands::Copy { .. } => {},
    }
    proof {
        assert(step_views(steps@) =~= config_steps_spec(*cmd));
    }
    steps
}

/// Why a `copy` command cannot be run.
#[derive(Debug)]
pub enum CopyError {
    /// The number of worker threads is zero.
    InvalidJobs,
    /// An exclude pattern was refused.
    Pattern(PatternError),
}

/// A `copy` command ready to run.
#[derive(Debug)]
pub struct CopyJob {
    pub source: String,
    pub destination: String,
    /// The number of worker threads; above zero.
    pub jobs: usize,
    /// The file to write the log to.
    pub log: Option<String>,
    /// The options of the run.
    pub context: LogContext,
}

/// The number of worker threads to use: the one given on the command line,
/// else the configured one.
pub open spec fn effective_jobs_spec(jobs: Option<usize>, configured: usize) -> usize {
    match jobs {
        Some(n) => n,
        None => configured,
    }
}

/// A copy of a list of texts.
pub fn clone_strings(v: &Vec<String>) -> (r: Vec<String>)
    ensures
        r@ == v@,
{
    let mut r: Vec<String> = Vec::new();
    let mut i: usize = 0;
    while i < v.len()
        invariant
            i <= v.len(),
            r@ == v@.take(i as int),
        decreases v.len() - i,
    {
        r.push(v[i].clone());
        i = i + 1;
        proof {
            assert(r@ =~= v@.take(i as int));
        }
    }
    proof {
        assert(v@.take(v@.len() as int) =~= v@);
    }
    r
}

/// The options that a `copy` command gives a run, before the exclude rules
/// are looked at: what the command line says, the configured timestamp
/// format, lines to the log.
pub open spec fn copy_context_fits(
    context: LogContext,
    quiet: bool,
    timestamp: bool,
    absolute_exclude: bool,
    dry_run: bool,
    config: Config,
) -> bool {
    &&& context.quiet == quiet
    &&& context.with_timestamp == timestamp
    &&& context.timestamp_format matches Some(f) && f@ == config.timestamp_format@
    &&& context.row is None
    &&& context.on_log
    &&& context.exclude_match_absolute == absolute_exclude
    &&& context.dry_run == dry_run
    &&& context.show_skipped == ShowSkipped::All
}

/// `r` is what a command comes to under a configuration. A `copy` command
/// with no worker thread is refused; one with exclude patterns gets the
/// matcher built from them, or is refused with the pattern that is; one
/// without patterns runs without exclude rules. Another command is no job.
pub open spec fn copy_job_fits(r: Result<Option<CopyJob>, CopyError>, cmd: Commands, config: Config) -> bool {
    match cmd {
        Commands::Copy {
            source,
            destination,
            quiet,
            timestamp,
            log,
            exclude,
            absolute_exclude,
            ignore_case,
            dry_run,
            jobs,
        } => {
            if effective_jobs_spec(jobs, config.jobs) == 0 {
                r matches Err(CopyError::InvalidJobs)
            } else {
                match r {
                    Ok(Some(job)) => {
                        &&& job.source@ == source@
                        &&& job.destination@ == destination@
                        &&& job.jobs == effective_jobs_spec(jobs, config.jobs)
                        &&& job.log == log
                        &&& copy_context_fits(job.context, quiet, timestamp, absolute_exclude, dry_run, config)
                        &&& if exclude@.len() == 0 {
                            job.context.exclude_matcher is None && job.context.exclude_patterns is None
                        } else {
                            &&& job.context.exclude_patterns matches Some(p) && p@ == exclude@
                            &&& job.context.exclude_matcher matches Some(m) && build_outcome(
                                Ok(m),
                                exclude@,
                                ignore_case,
                            )
                        }
                    },
                    Ok(None) => false,
                    Err(CopyError::InvalidJobs) => false,
                    Err(CopyError::Pattern(e)) => exclude@.len() > 0 && build_outcome(
                        Err(e),
                        exclude@,
                        ignore_case,
                    ),
                }
            }
        },
        Commands::Config { .. } => r matches Ok(None),
    }
}

/// Handle the `copy` subcommand: checks the number of worker threads,
/// builds the exclude matcher and puts the options of the run together.
pub fn handle_copy(cmd: &Commands, config: &Config) -> (r: Result<Option<CopyJob>, CopyError>)
    ensures
        copy_job_fits(r, *cmd, *config),
{
    match cmd {
        Commands::Copy {
            source,
            destination,
            quiet,
            timestamp,
            log,
            exclude,
            absolute_exclude,
            ignore_case,
            dry_run,
            jobs,
        } => {
            let effective_jobs: usize = match jobs {
                Some(n) => *n,
                None => config.jobs,
            };
            if effective_jobs == 0 {
                return Err(CopyError::InvalidJobs);
            }
            let mut context = LogContext {
                quiet: *quiet,
                with_timestamp: *timestamp,
                timestamp_format: Some(config.timestamp_format.clone()),
                row: None,
                on_log: true,
                exclude_match_absolute: *absolute_exclude,
                dry_run: *dry_run,
                show_skipped: ShowSkipped::All,
                exclude_patterns: None,
                exclude_matcher: None,
            };
            if exclude.len() > 0 {
                match build_exclude_matcher(exclude.as_slice(), *ignore_case) {
                    Ok(matcher) => {
                        context.exclude_matcher = Some(matcher);
                        context.exclude_patterns = Some(clone_strings(exclude));
                    },
                    Err(e) => {
                        return Err(CopyError::Pattern(e));
                    },
                }
            }
            let log_file = match log {
                Some(l) => Some(l.clone()),
                None => None,
            };
            Ok(
                Some(
                    CopyJob {
                        source: source.clone(),
                        destination: destination.clone(),
                        jobs: effective_jobs,
                        log: log_file,
                        context,
                    },
                ),
            )
        },
        Commands::Config { .. } => Ok(None),
    }
}

} // verus!
