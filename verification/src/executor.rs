//! Execution of a plan, one file at a time: what to do with a file, what
//! came of it, the running counts, and the lines and progress reports that
//! go to the terminal and the log.

use crate::change::{is_newer, is_newer_spec, Timestamp};
use crate::messages::Messages;
use crate::output::{LogContext, ShowSkipped};
use crate::exclude::ExcludeRules;
use crate::paths::file_name_spec;
use crate::plan::{exclusion_target, is_excluded, step_fits, DeltaPlan, PlanItem, Step};
use crate::text::{decimal_spec, push_char, to_decimal};
use vstd::prelude::*;
use vstd::string::StringExecFns;

verus! {

/// How a plan was made.
#[derive(Clone, Copy, Debug, PartialEq, Eq, Structural)]
pub enum PlanMode {
    /// Every file that is not excluded is in the plan; whether it changed is
    /// decided when its turn comes.
    Full,
    /// The plan holds only the files that were found new or newer.
    Delta,
}

/// What came of one file.
#[derive(Clone, Copy, Debug, PartialEq, Eq, Structural)]
pub enum Outcome {
    Copied,
    SkippedUnchanged,
    SkippedExcluded,
    SkippedError,
}

/// What the caller has to do for one file of the plan.
#[derive(Clone, Copy, Debug, PartialEq, Eq, Structural)]
pub enum Action {
    /// Nothing; the outcome is known.
    Record(Outcome),
    /// Make sure the directories above the destination exist, copy nothing,
    /// and count the file as copied: a dry run.
    Prepare,
    /// Make sure the directories above the destination exist, then copy the
    /// bytes of the file.
    Copy,
}

/// The action for a step. An exclusion is recorded as such. A copy planned
/// ahead is due without another look; otherwise it is due if the source is
/// new or newer, the file is unchanged if it is not, and a source that
/// cannot be compared is an error. In a dry run no bytes are copied.
pub open spec fn next_action_spec(
    mode: PlanMode,
    step: Step,
    src_modified: Option<Timestamp>,
    dest_modified: Option<Timestamp>,
    dry_run: bool,
) -> Action {
    let due = if dry_run {
        Action::Prepare
    } else {
        Action::Copy
    };
    match step {
        Step::Exclude { .. } => Action::Record(Outcome::SkippedExcluded),
        Step::Copy(_) => match mode {
            PlanMode::Delta => due,
            PlanMode::Full => match is_newer_spec(src_modified, dest_modified) {
                Ok(newer) => if newer {
                    due
                } else {
                    Action::Record(Outcome::SkippedUnchanged)
                },
                Err(_) => Action::Record(Outcome::SkippedError),
            },
        },
    }
}

/// Decides what to do for one step of the plan.
pub fn next_action(
    mode: PlanMode,
    step: &Step,
    src_modified: Option<Timestamp>,
    dest_modified: Option<Timestamp>,
    dry_run: bool,
) -> (a: Action)
    ensures
        a == next_action_spec(mode, *step, src_modified, dest_modified, dry_run),
        dry_run ==> a != Action::Copy,
{
    let due = if dry_run {
        Action::Prepare
    } else {
        Action::Copy
    };
    match step {
        Step::Exclude { .. } => Action::Record(Outcome::SkippedExcluded),
        Step::Copy(_) => match mode {
            PlanMode::Delta => due,
            PlanMode::Full => match is_newer(src_modified, dest_modified) {
                Ok(newer) => if newer {
                    due
                } else {
                    Action::Record(Outcome::SkippedUnchanged)
                },
                Err(_) => Action::Record(Outcome::SkippedError),
            },
        },
    }
}

/// The outcome of an action, `copy_succeeded` telling how the copy went
/// where one was made.
pub open spec fn outcome_spec(action: Action, copy_succeeded: bool) -> Outcome {
    match action {
        Action::Record(outcome) => outcome,
        Action::Prepare => Outcome::Copied,
        Action::Copy => if copy_succeeded {
            Outcome::Copied
        } else {
            Outcome::SkippedError
        },
    }
}

/// The outcome of an action that the caller has carried out.
pub fn conclude(action: Action, copy_succeeded: bool) -> (o: Outcome)
    ensures
        o == outcome_spec(action, copy_succeeded),
{
    match action {
        Action::Record(outcome) => outcome,
        Action::Prepare => Outcome::Copied,
        Action::Copy => if copy_succeeded {
            Outcome::Copied
        } else {
            Outcome::SkippedError
        },
    }
}

/// The counts of a run.
#[derive(Clone, Copy, Debug, PartialEq, Eq, Structural)]
pub struct Counters {
    /// Files copied, or counted as copied in a dry run.
    pub copied: usize,
    /// Files whose destination was up to date.
    pub skipped_unchanged: usize,
    /// Files that an exclude rule left out.
    pub skipped_excluded: usize,
    /// Files that could not be compared or copied.
    pub skipped_error: usize,
    /// The sizes of the files copied, added up.
    pub bytes_done: u128,
}

impl Counters {
    /// Files skipped, for whatever reason.
    pub open spec fn skipped_spec(self) -> nat {
        (self.skipped_unchanged + self.skipped_excluded + self.skipped_error) as nat
    }

    /// Files dealt with.
    pub open spec fn done_spec(self) -> nat {
        (self.copied + self.skipped_spec()) as nat
    }

    /// The counts fit their types: no more files than a `usize` counts, no
    /// more bytes than that many files can hold.
    pub open spec fn wf(self) -> bool {
        &&& self.done_spec() <= usize::MAX
        &&& self.bytes_done <= self.done_spec() * u64::MAX
    }

    /// The counts before anything was done.
    pub open spec fn zero() -> Counters {
        Counters {
            copied: 0,
            skipped_unchanged: 0,
            skipped_excluded: 0,
            skipped_error: 0,
            bytes_done: 0,
        }
    }

    /// The counts after one more file of `size` bytes came to `outcome`.
    pub open spec fn record_spec(self, outcome: Outcome, size: u64) -> Counters {
        match outcome {
            Outcome::Copied => Counters {
                copied: (self.copied + 1) as usize,
                bytes_done: (self.bytes_done + size) as u128,
                ..self
            },
            Outcome::SkippedUnchanged => Counters {
                skipped_unchanged: (self.skipped_unchanged + 1) as usize,
                ..self
            },
            Outcome::SkippedExcluded => Counters {
                skipped_excluded: (self.skipped_excluded + 1) as usize,
                ..self
            },
            Outcome::SkippedError => Counters {
                skipped_error: (self.skipped_error + 1) as usize,
                ..self
            },
        }
    }

    /// No count is below its value in `earlier`.
    pub open spec fn at_least(self, earlier: Counters) -> bool {
        &&& self.copied >= earlier.copied
        &&& self.skipped_unchanged >= earlier.skipped_unchanged
        &&& self.skipped_excluded >= earlier.skipped_excluded
        &&& self.skipped_error >= earlier.skipped_error
        &&& self.bytes_done >= earlier.bytes_done
    }

    /// Whether the counts fit their types.
    pub fn is_wf(&self) -> (r: bool)
        ensures
            r == self.wf(),
    {
        let done: u128 = self.copied as u128 + self.skipped_unchanged as u128
            + self.skipped_excluded as u128 + self.skipped_error as u128;
        done <= usize::MAX as u128 && self.bytes_done <= done * (u64::MAX as u128)
    }

    /// Counts that start at zero.
    pub fn new() -> (c: Counters)
        ensures
            c == Counters::zero(),
            c.wf(),
    {
        Counters {
            copied: 0,
            skipped_unchanged: 0,
            skipped_excluded: 0,
            skipped_error: 0,
            bytes_done: 0,
        }
    }

    /// Counts one more file of `size` bytes under its outcome. Exactly one
    /// count goes up by one, and no count goes down.
    pub fn record(&mut self, outcome: Outcome, size: u64)
        requires
            old(self).wf(),
            old(self).done_spec() < usize::MAX,
        ensures
            *final(self) == old(self).record_spec(outcome, size),
            final(self).wf(),
            final(self).done_spec() == old(self).done_spec() + 1,
            final(self).at_least(*old(self)),
    {
        match outcome {
            Outcome::Copied => {
                self.copied = self.copied + 1;
                self.bytes_done = self.bytes_done + size as u128;
            },
            Outcome::SkippedUnchanged => {
                self.skipped_unchanged = self.skipped_unchanged + 1;
            },
            Outcome::SkippedExcluded => {
                self.skipped_excluded = self.skipped_excluded + 1;
            },
            Outcome::SkippedError => {
                self.skipped_error = self.skipped_error + 1;
            },
        }
    }

    /// Files skipped, for whatever reason.
    pub fn skipped(&self) -> (n: usize)
        requires
            self.wf(),
        ensures
            n == self.skipped_spec(),
    {
        self.skipped_unchanged + self.skipped_excluded + self.skipped_error
    }

    /// Files dealt with.
    pub fn done(&self) -> (n: usize)
        requires
            self.wf(),
        ensures
            n == self.done_spec(),
    {
        self.copied + self.skipped_unchanged + self.skipped_excluded + self.skipped_error
    }
}

/// What the progress of a run is counted in.
#[derive(Clone, Copy, Debug, PartialEq, Eq, Structural)]
pub enum ProgressUnit {
    Files,
    Bytes,
}

/// What a run sends to its sinks.
#[derive(Clone, Debug, PartialEq, Eq)]
pub enum Event {
    /// A line for the scroll area and the log.
    Message(String),
    /// The state of the progress bar: files in a full run, bytes in a run
    /// planned ahead.
    Progress { unit: ProgressUnit, done: u64, total: u64 },
}

/// An `Event` as plain values.
pub enum EventView {
    Message(Seq<char>),
    Progress { unit: ProgressUnit, done: u64, total: u64 },
}

/// `x`, or the largest `u64` where `x` is beyond it.
pub open spec fn clamp_spec(x: u128) -> u64 {
    if x > u64::MAX {
        u64::MAX
    } else {
        x as u64
    }
}

/// Brings a count into the range of `u64`.
pub fn clamp(x: u128) -> (r: u64)
    ensures
        r == clamp_spec(x),
{
    if x > u64::MAX as u128 {
        u64::MAX
    } else {
        x as u64
    }
}

impl View for Event {
    type V = EventView;

    open spec fn view(&self) -> EventView {
        match self {
            Event::Message(line) => EventView::Message(line@),
            Event::Progress { unit, done, total } => EventView::Progress {
                unit: *unit,
                done: *done,
                total: *total,
            },
        }
    }
}

/// The views of a sequence of events.
pub open spec fn event_views(events: Seq<Event>) -> Seq<EventView> {
    Seq::new(events.len(), |i: int| events[i]@)
}

/// The word for an outcome: the text for a copied file, or the text for a
/// skipped one.
pub open spec fn status_spec(msg: Messages, outcome: Outcome) -> Seq<char> {
    if outcome == Outcome::Copied {
        msg.copied_file@
    } else {
        msg.skipped_file@
    }
}

/// The line for the `n`th file dealt with:
/// `#n <verb> <path> - <status>.`, and for an excluded file
/// `#n <verb> <path> - <status> (pattern: <pattern>).`
pub open spec fn event_line_spec(n: nat, msg: Messages, item: PlanItem, outcome: Outcome) -> Seq<char> {
    let head = seq!['#'] + decimal_spec(n) + seq![' '] + msg.copying_file@ + seq![' ']
        + item.file.path@ + " - "@ + status_spec(msg, outcome);
    match item.step {
        Step::Exclude { pattern } => head + " (pattern: "@ + pattern@ + ")."@,
        Step::Copy(_) => head + seq!['.'],
    }
}

/// Writes the line for the `n`th file dealt with.
pub fn event_line(n: usize, msg: &Messages, item: &PlanItem, outcome: Outcome) -> (line: String)
    ensures
        line@ == event_line_spec(n as nat, *msg, *item, outcome),
{
    let mut line = String::new();
    push_char(&mut line, '#');
    let number = to_decimal(n as u128);
    line.append(number.as_str());
    push_char(&mut line, ' ');
    line.append(msg.copying_file.as_str());
    push_char(&mut line, ' ');
    line.append(item.file.path.as_str());
    line.append(" - ");
    match outcome {
        Outcome::Copied => line.append(msg.copied_file.as_str()),
        _ => line.append(msg.skipped_file.as_str()),
    }
    let ghost head = seq!['#'] + decimal_spec(n as nat) + seq![' '] + msg.copying_file@ + seq![' ']
        + item.file.path@ + " - "@ + status_spec(*msg, outcome);
    proof {
        assert(line@ =~= head);
    }
    match &item.step {
        Step::Exclude { pattern } => {
            line.append(" (pattern: ");
            line.append(pattern.as_str());
            line.append(").");
        },
        Step::Copy(_) => {
            push_char(&mut line, '.');
            proof {
                assert(line@ =~= head + seq!['.']);
            }
        },
    }
    line
}

/// Whether a file with this outcome gets a line. Unchanged files get one
/// only where every skipped file is told about.
pub open spec fn reports_spec(outcome: Outcome, show_skipped: ShowSkipped) -> bool {
    outcome != Outcome::SkippedUnchanged || show_skipped == ShowSkipped::All
}

/// Whether the progress bar is redrawn after the `done`th file: after
/// every sixteenth, and after the last.
pub open spec fn progress_due_spec(done: nat, total: nat) -> bool {
    done % 16 == 0 || done == total
}

/// Whether the progress bar is redrawn after the `done`th file of `total`.
pub fn progress_due(done: usize, total: usize) -> (r: bool)
    ensures
        r == progress_due_spec(done as nat, total as nat),
{
    done % 16 == 0 || done == total
}

/// A run under way.
#[derive(Clone, Copy, Debug, PartialEq, Eq, Structural)]
pub struct Run {
    pub mode: PlanMode,
    pub counters: Counters,
    /// The files that the run accounts for.
    pub total_files: usize,
    /// The bytes to copy, where the plan was made ahead.
    pub total_bytes: u128,
    pub show_skipped: ShowSkipped,
}

impl Run {
    /// The counts fit, and no more files are dealt with than the run has.
    pub open spec fn wf(self) -> bool {
        &&& self.counters.wf()
        &&& self.counters.done_spec() <= self.total_files
    }

    /// The run once one more file came to `outcome`.
    pub open spec fn record_spec(self, item: PlanItem, outcome: Outcome) -> Run {
        Run { counters: self.counters.record_spec(outcome, item.file.size), ..self }
    }

    /// The progress of the run: files done of all files, or in a run
    /// planned ahead bytes done of all bytes.
    pub open spec fn progress_spec(self) -> EventView {
        match self.mode {
            PlanMode::Full => EventView::Progress {
                unit: ProgressUnit::Files,
                done: self.counters.done_spec() as u64,
                total: self.total_files as u64,
            },
            PlanMode::Delta => EventView::Progress {
                unit: ProgressUnit::Bytes,
                done: clamp_spec(self.counters.bytes_done),
                total: clamp_spec(self.total_bytes),
            },
        }
    }

    /// What the run sends out when it has just counted `item` under
    /// `outcome`: the line for the file, where it gets one, and the
    /// progress, where it is due.
    pub open spec fn events_spec(self, msg: Messages, item: PlanItem, outcome: Outcome) -> Seq<
        EventView,
    > {
        let line = if reports_spec(outcome, self.show_skipped) {
            seq![EventView::Message(event_line_spec(self.counters.done_spec(), msg, item, outcome))]
        } else {
            Seq::empty()
        };
        let progress = if progress_due_spec(self.counters.done_spec(), self.total_files as nat) {
            seq![self.progress_spec()]
        } else {
            Seq::empty()
        };
        line + progress
    }

    /// A full run over `total_files` files, before its first file.
    pub open spec fn full_spec(total_files: usize, show_skipped: ShowSkipped) -> Run {
        Run {
            mode: PlanMode::Full,
            counters: Counters::zero(),
            total_files,
            total_bytes: 0,
            show_skipped,
        }
    }

    /// A full run over `total_files` files.
    pub fn full(total_files: usize, show_skipped: ShowSkipped) -> (run: Run)
        ensures
            run.wf(),
            run == Run::full_spec(total_files, show_skipped),
    {
        Run { mode: PlanMode::Full, counters: Counters::new(), total_files, total_bytes: 0, show_skipped }
    }

    /// A run over a plan made ahead. The files that planning found
    /// unchanged or unreadable are counted as skipped from the start.
    pub fn delta(plan: &DeltaPlan, show_skipped: ShowSkipped) -> (run: Run)
        requires
            plan.items@.len() + plan.unchanged + plan.unreadable <= usize::MAX,
        ensures
            run.wf(),
            run == (Run {
                mode: PlanMode::Delta,
                counters: Counters {
                    skipped_unchanged: plan.unchanged,
                    skipped_error: plan.unreadable,
                    ..Counters::zero()
                },
                total_files: (plan.items@.len() + plan.unchanged + plan.unreadable) as usize,
                total_bytes: plan.total_bytes,
                show_skipped,
            }),
    {
        Run {
            mode: PlanMode::Delta,
            counters: Counters {
                copied: 0,
                skipped_unchanged: plan.unchanged,
                skipped_excluded: 0,
                skipped_error: plan.unreadable,
                bytes_done: 0,
            },
            total_files: plan.items.len() + plan.unchanged + plan.unreadable,
            total_bytes: plan.total_bytes,
            show_skipped,
        }
    }

    /// Whether the run can count one more file: its counts fit and it has
    /// not dealt with all its files yet.
    pub open spec fn has_room(self) -> bool {
        self.wf() && self.counters.done_spec() < self.total_files
    }

    /// Counts `item` under `outcome` and returns what goes to the sinks, if
    /// the run can count one more file. If it cannot, nothing changes.
    pub fn try_record(&mut self, msg: &Messages, item: &PlanItem, outcome: Outcome) -> (events: Option<
        Vec<Event>,
    >)
        ensures
            match events {
                Some(sent) => {
                    &&& old(self).has_room()
                    &&& *final(self) == old(self).record_spec(*item, outcome)
                    &&& final(self).wf()
                    &&& event_views(sent@) == final(self).events_spec(*msg, *item, outcome)
                },
                None => !old(self).has_room() && *final(self) == *old(self),
            },
    {
        if self.counters.is_wf() && self.counters.done() < self.total_files {
            Some(self.record(msg, item, outcome))
        } else {
            None
        }
    }

    /// Counts `item` under `outcome` and returns what goes to the sinks.
    pub fn record(&mut self, msg: &Messages, item: &PlanItem, outcome: Outcome) -> (events: Vec<Event>)
        requires
            old(self).wf(),
            old(self).counters.done_spec() < old(self).total_files,
        ensures
            *final(self) == old(self).record_spec(*item, outcome),
            final(self).wf(),
            final(self).counters.done_spec() == old(self).counters.done_spec() + 1,
            final(self).counters.at_least(old(self).counters),
            event_views(events@) == final(self).events_spec(*msg, *item, outcome),
    {
        self.counters.record(outcome, item.file.size);
        let done = self.counters.done();
        let mut events: Vec<Event> = Vec::new();
        let reports = match outcome {
            Outcome::SkippedUnchanged => match self.show_skipped {
                ShowSkipped::All => true,
                _ => false,
            },
            _ => true,
        };
        if reports {
            events.push(Event::Message(event_line(done, msg, item, outcome)));
        }
        if progress_due(done, self.total_files) {
            let progress = match self.mode {
                PlanMode::Full => Event::Progress {
                    unit: ProgressUnit::Files,
                    done: done as u64,
                    total: self.total_files as u64,
                },
                PlanMode::Delta => Event::Progress {
                    unit: ProgressUnit::Bytes,
                    done: clamp(self.counters.bytes_done),
                    total: clamp(self.total_bytes),
                },
            };
            events.push(progress);
        }
        proof {
            assert(event_views(events@) =~= self.events_spec(*msg, *item, outcome));
        }
        events
    }
}

/// What the file system says about one item of a plan when its turn comes.
#[derive(Clone, Copy, Debug, PartialEq, Eq, Structural)]
pub struct Probe {
    /// Modification time of the destination; `None` where there is none.
    pub dest_modified: Option<Timestamp>,
    /// Whether copying the file works.
    pub copy_succeeds: bool,
}

/// The probe for item `i`. An item without a probe has no destination, and
/// its copy works.
pub open spec fn probe_at(probes: Seq<Probe>, i: int) -> Probe {
    if 0 <= i < probes.len() {
        probes[i]
    } else {
        Probe { dest_modified: None, copy_succeeds: true }
    }
}

/// The action for an item under its probe.
pub open spec fn item_action(mode: PlanMode, item: PlanItem, probe: Probe, dry_run: bool) -> Action {
    next_action_spec(mode, item.step, item.file.modified, probe.dest_modified, dry_run)
}

/// The outcome of an item under its probe.
pub open spec fn item_outcome(mode: PlanMode, item: PlanItem, probe: Probe, dry_run: bool) -> Outcome {
    outcome_spec(item_action(mode, item, probe, dry_run), probe.copy_succeeds)
}

/// The run after the first `n` items, taken in order.
pub open spec fn run_after(start: Run, items: Seq<PlanItem>, probes: Seq<Probe>, dry_run: bool, n: int) -> Run
    decreases n,
{
    if n <= 0 {
        start
    } else {
        run_after(start, items, probes, dry_run, n - 1).record_spec(
            items[n - 1],
            item_outcome(start.mode, items[n - 1], probe_at(probes, n - 1), dry_run),
        )
    }
}

/// What the run sends out over the first `n` items, taken in order.
pub open spec fn run_events(
    start: Run,
    msg: Messages,
    items: Seq<PlanItem>,
    probes: Seq<Probe>,
    dry_run: bool,
    n: int,
) -> Seq<EventView>
    decreases n,
{
    if n <= 0 {
        Seq::empty()
    } else {
        run_events(start, msg, items, probes, dry_run, n - 1) + run_after(
            start,
            items,
            probes,
            dry_run,
            n,
        ).events_spec(
            msg,
            items[n - 1],
            item_outcome(start.mode, items[n - 1], probe_at(probes, n - 1), dry_run),
        )
    }
}

/// How many of the first `n` items are exclusions.
pub open spec fn exclusions(items: Seq<PlanItem>, n: int) -> nat
    decreases n,
{
    if n <= 0 {
        0
    } else if items[n - 1].step is Exclude {
        exclusions(items, n - 1) + 1
    } else {
        exclusions(items, n - 1)
    }
}

/// How a run ended.
#[derive(Clone, Debug)]
pub struct RunReport {
    /// The run with its final counts.
    pub run: Run,
    /// What was sent out, in order.
    pub events: Vec<Event>,
}

/// Takes the items of a plan in order, each under its probe, from the state
/// `start`.
pub fn run_items(start: Run, items: &Vec<PlanItem>, probes: &Vec<Probe>, msg: &Messages, dry_run: bool) -> (report:
    RunReport)
    requires
        start.wf(),
        start.counters.done_spec() + items@.len() <= start.total_files,
    ensures
        report.run == run_after(start, items@, probes@, dry_run, items@.len() as int),
        event_views(report.events@) == run_events(
            start,
            *msg,
            items@,
            probes@,
            dry_run,
            items@.len() as int,
        ),
        report.run.wf(),
        report.run.counters.done_spec() == start.counters.done_spec() + items@.len(),
        report.run.counters.at_least(start.counters),
{
    let mut run = start;
    let mut events: Vec<Event> = Vec::new();
    let mut i: usize = 0;
    proof {
        assert(event_views(events@) =~= run_events(start, *msg, items@, probes@, dry_run, 0));
    }
    while i < items.len()
        invariant
            i <= items.len(),
            start.wf(),
            start.counters.done_spec() + items@.len() <= start.total_files,
            run == run_after(start, items@, probes@, dry_run, i as int),
            run.mode == start.mode,
            run.total_files == start.total_files,
            run.wf(),
            run.counters.done_spec() == start.counters.done_spec() + i,
            run.counters.at_least(start.counters),
            event_views(events@) == run_events(start, *msg, items@, probes@, dry_run, i as int),
        decreases items.len() - i,
    {
        let item = &items[i];
        let probe = if i < probes.len() {
            probes[i]
        } else {
            Probe { dest_modified: None, copy_succeeds: true }
        };
        let action = next_action(run.mode, &item.step, item.file.modified, probe.dest_modified, dry_run);
        let outcome = conclude(action, probe.copy_succeeds);
        let ghost before = event_views(events@);
        let mut sent = run.record(msg, item, outcome);
        let ghost sent_views = event_views(sent@);
        events.append(&mut sent);
        proof {
            assert(event_views(events@) =~= before + sent_views);
        }
        i = i + 1;
    }
    RunReport { run, events }
}

/// Perform an incremental copy over the plan `items`, in order.
///
/// `probes[i]` holds what the file system says when the turn of `items[i]`
/// comes. The report holds the counts of copied and skipped files and the
/// lines and progress reports of the run.
pub fn copy_incremental(items: &Vec<PlanItem>, probes: &Vec<Probe>, msg: &Messages, options: &LogContext) -> (report:
    RunReport)
    ensures
        report.run == run_after(
            Run::full_spec(items@.len() as usize, options.show_skipped),
            items@,
            probes@,
            options.dry_run,
            items@.len() as int,
        ),
        event_views(report.events@) == run_events(
            Run::full_spec(items@.len() as usize, options.show_skipped),
            *msg,
            items@,
            probes@,
            options.dry_run,
            items@.len() as int,
        ),
        report.run.wf(),
        report.run.counters.copied + report.run.counters.skipped_spec() == items@.len(),
{
    let start = Run::full(items.len(), options.show_skipped);
    run_items(start, items, probes, msg, options.dry_run)
}

/// Count conservation: every file taken is counted exactly once, as copied
/// or as skipped. The exclusions make up the excluded count; the files that
/// passed the exclusion make up the copied, unchanged and failed counts.
pub proof fn lemma_count_conservation(
    start: Run,
    items: Seq<PlanItem>,
    probes: Seq<Probe>,
    dry_run: bool,
    n: int,
)
    requires
        0 <= n <= items.len(),
        start.counters.wf(),
        start.counters.done_spec() + n <= usize::MAX,
    ensures
        ({
            let end = run_after(start, items, probes, dry_run, n).counters;
            &&& end.wf()
            &&& end.copied + end.skipped_spec() == start.counters.copied
                + start.counters.skipped_spec() + n
            &&& end.skipped_excluded == start.counters.skipped_excluded + exclusions(items, n)
            &&& end.copied + end.skipped_unchanged + end.skipped_error == start.counters.copied
                + start.counters.skipped_unchanged + start.counters.skipped_error + n - exclusions(
                items,
                n,
            )
            &&& end.at_least(start.counters)
        }),
    decreases n,
{
    if n > 0 {
        lemma_count_conservation(start, items, probes, dry_run, n - 1);
        lemma_run_keeps_mode(start, items, probes, dry_run, n - 1);
    }
}

/// A run keeps its mode, its totals and its policy.
pub proof fn lemma_run_keeps_mode(start: Run, items: Seq<PlanItem>, probes: Seq<Probe>, dry_run: bool, n: int)
    ensures
        ({
            let end = run_after(start, items, probes, dry_run, n);
            &&& end.mode == start.mode
            &&& end.total_files == start.total_files
            &&& end.total_bytes == start.total_bytes
            &&& end.show_skipped == start.show_skipped
        }),
    decreases n,
{
    if n > 0 {
        lemma_run_keeps_mode(start, items, probes, dry_run, n - 1);
    }
}

/// Exclude correctness: a file of a plan comes out as skipped by
/// exclusion exactly if some rule matches its evaluated path, or its file
/// name.
pub proof fn lemma_excluded_iff_matched(
    mode: PlanMode,
    item: PlanItem,
    probe: Probe,
    dry_run: bool,
    dest_root: Seq<char>,
    rules: Option<ExcludeRules>,
    absolute: bool,
)
    requires
        step_fits(item.step, item.file@, dest_root, rules, absolute),
    ensures
        item_outcome(mode, item, probe, dry_run) == Outcome::SkippedExcluded <==> is_excluded(
            rules,
            item.file@,
            absolute,
        ),
        is_excluded(rules, item.file@, absolute) <==> rules is Some && (rules->0.matches(
            exclusion_target(item.file@, absolute),
        ) || (file_name_spec(item.file@.relative).len() > 0 && rules->0.matches(
            file_name_spec(item.file@.relative),
        ))),
{
}

/// Dry-run invariant: a dry run asks for no copy of bytes, and where every
/// copy of the real run works, it reports the counts of the real run.
pub proof fn lemma_dry_run_counts(start: Run, items: Seq<PlanItem>, probes: Seq<Probe>, n: int)
    requires
        0 <= n <= items.len(),
        forall|i: int|
            0 <= i < n && item_action(start.mode, items[i], probe_at(probes, i), false)
                == Action::Copy ==> (#[trigger] probe_at(probes, i)).copy_succeeds,
    ensures
        run_after(start, items, probes, true, n) == run_after(start, items, probes, false, n),
        forall|i: int|
            0 <= i < n ==> #[trigger] item_action(start.mode, items[i], probe_at(probes, i), true)
                != Action::Copy,
    decreases n,
{
    if n > 0 {
        lemma_dry_run_counts(start, items, probes, n - 1);
        let probe = probe_at(probes, n - 1);
        assert(item_outcome(start.mode, items[n - 1], probe, true) == item_outcome(
            start.mode,
            items[n - 1],
            probe,
            false,
        ));
    }
}

/// The modification time that the destination of an item has after a full
/// run that is not a dry run: the time `written` at which the copy was
/// made, where the file was copied; the time it had before, where it was not.
pub open spec fn destination_after(item: PlanItem, probe: Probe, written: Timestamp) -> Option<Timestamp> {
    if item_outcome(PlanMode::Full, item, probe, false) == Outcome::Copied {
        Some(written)
    } else {
        probe.dest_modified
    }
}

/// Idempotence: a full run right after a full run copies nothing, if the
/// sources did not change in between, every copy of the first run worked,
/// and no copy was written at a time before the modification time of its
/// source.
///
/// `first[i]` and `second[i]` are the probes of item `i` in the two runs and
/// `written[i]` the time at which the first run wrote its copy.
pub proof fn lemma_second_run_copies_nothing(
    start: Run,
    items: Seq<PlanItem>,
    first: Seq<Probe>,
    second: Seq<Probe>,
    written: Seq<Timestamp>,
    dry_run: bool,
    n: int,
)
    requires
        0 <= n <= items.len(),
        n <= written.len(),
        start.mode == PlanMode::Full,
        forall|i: int|
            0 <= i < n ==> (#[trigger] probe_at(second, i)).dest_modified == destination_after(
                items[i],
                probe_at(first, i),
                written[i],
            ),
        forall|i: int|
            0 <= i < n && item_action(PlanMode::Full, items[i], probe_at(first, i), false)
                == Action::Copy ==> (#[trigger] probe_at(first, i)).copy_succeeds,
        forall|i: int|
            0 <= i < n ==> ((#[trigger] items[i]).file.modified matches Some(m) ==> !m.later_than(
                written[i],
            )),
    ensures
        run_after(start, items, second, dry_run, n).counters.copied == start.counters.copied,
        run_after(start, items, second, dry_run, n).counters.bytes_done == start.counters.bytes_done,
    decreases n,
{
    if n > 0 {
        lemma_second_run_copies_nothing(start, items, first, second, written, dry_run, n - 1);
        let item = items[n - 1];
        let earlier = probe_at(first, n - 1);
        let later = probe_at(second, n - 1);
        assert(later.dest_modified == destination_after(item, earlier, written[n - 1]));
        assert(item_outcome(PlanMode::Full, item, later, dry_run) != Outcome::Copied);
    }
}

} // verus!
