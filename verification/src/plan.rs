//! Planning: from the entries that a walk of the source tree found to the
//! ordered list of what a run does with each file.

use crate::change::{is_newer, is_newer_spec, Timestamp};
use crate::exclude::{ExcludeMatcher, ExcludeRules};
use crate::order::{compare_paths, lemma_lex_antisymmetric, lex_le};
use vstd::seq_lib::to_multiset_remove;
use crate::paths::{
    file_name, file_name_spec, join, join_spec, lemma_join_then_relative,
    lemma_relative_is_relative, lies_under, relative_to, relative_to_spec,
};
use vstd::prelude::*;
use vstd::string::StringExecFns;

verus! {

/// What kind of thing a walk found at a path.
#[derive(Clone, Copy, Debug, PartialEq, Eq, Structural)]
pub enum EntryKind {
    File,
    Directory,
    Other,
}

/// One entry of a walk of the source tree.
#[derive(Clone, Debug)]
pub struct ScannedEntry {
    /// The path as the walk gave it; it starts with the source root.
    pub path: String,
    pub kind: EntryKind,
    /// Size in bytes.
    pub size: u64,
    /// Modification time, where it could be read.
    pub modified: Option<Timestamp>,
}

/// A regular file of the source tree.
#[derive(Clone, Debug)]
pub struct FileEntry {
    /// Path of the file, starting with the source root.
    pub path: String,
    /// Path of the file relative to the source root.
    pub relative: String,
    /// Size in bytes.
    pub size: u64,
    /// Modification time, where it could be read.
    pub modified: Option<Timestamp>,
}

/// A `FileEntry` as plain values.
pub struct FileEntryView {
    pub path: Seq<char>,
    pub relative: Seq<char>,
    pub size: u64,
    pub modified: Option<Timestamp>,
}

impl View for FileEntry {
    type V = FileEntryView;

    open spec fn view(&self) -> FileEntryView {
        FileEntryView {
            path: self.path@,
            relative: self.relative@,
            size: self.size,
            modified: self.modified,
        }
    }
}

/// The views of a sequence of file entries.
pub open spec fn file_views(files: Seq<FileEntry>) -> Seq<FileEntryView> {
    Seq::new(files.len(), |i: int| files[i]@)
}

/// The file entry that a scanned entry stands for under `root`: regular
/// files whose path lies under the root have one, nothing else has.
pub open spec fn file_entry_spec(entry: ScannedEntry, root: Seq<char>) -> Option<FileEntryView> {
    match relative_to_spec(entry.path@, root) {
        Some(relative) => if entry.kind == EntryKind::File {
            Some(
                FileEntryView {
                    path: entry.path@,
                    relative,
                    size: entry.size,
                    modified: entry.modified,
                },
            )
        } else {
            None
        },
        None => None,
    }
}

/// The file entries of a walk, in the order of the walk.
pub open spec fn collect_files_spec(entries: Seq<ScannedEntry>, root: Seq<char>) -> Seq<
    FileEntryView,
>
    decreases entries.len(),
{
    if entries.len() == 0 {
        Seq::empty()
    } else {
        let before = collect_files_spec(entries.drop_last(), root);
        match file_entry_spec(entries.last(), root) {
            Some(file) => before.push(file),
            None => before,
        }
    }
}

/// Keeps the regular files of a walk and computes their paths relative to
/// `root`. Directories, other entries and files that do not lie under `root`
/// are dropped.
pub fn collect_files(entries: &Vec<ScannedEntry>, root: &str) -> (files: Vec<FileEntry>)
    ensures
        file_views(files@) == collect_files_spec(entries@, root@),
{
    let mut files: Vec<FileEntry> = Vec::new();
    let mut i: usize = 0;
    proof {
        assert(file_views(files@) =~= collect_files_spec(entries@.take(0), root@));
    }
    while i < entries.len()
        invariant
            i <= entries.len(),
            file_views(files@) == collect_files_spec(entries@.take(i as int), root@),
        decreases entries.len() - i,
    {
        let entry = &entries[i];
        proof {
            assert(entries@.take(i + 1).drop_last() =~= entries@.take(i as int));
            assert(entries@.take(i + 1).last() == entries@[i as int]);
        }
        let ghost before = file_views(files@);
        if entry.kind == EntryKind::File {
            match relative_to(entry.path.as_str(), root) {
                Some(relative) => {
                    let file = FileEntry {
                        path: entry.path.clone(),
                        relative,
                        size: entry.size,
                        modified: entry.modified,
                    };
                    files.push(file);
                    proof {
                        assert(file_views(files@) =~= before.push(file@));
                    }
                },
                None => {},
            }
        }
        i = i + 1;
    }
    proof {
        assert(entries@.take(i as int) =~= entries@);
    }
    files
}

/// The files are in the planning order of their paths.
pub open spec fn sorted_by_path(files: Seq<FileEntryView>) -> bool {
    forall|i: int, j: int|
        0 <= i < j < files.len() ==> lex_le((#[trigger] files[i]).path, (#[trigger] files[j]).path)
}

/// `slice::sort_by` of the standard library, with `compare_paths` on the
/// paths as the comparison: the entries are rearranged, none is lost or
/// added, and afterwards they stand in the order that the comparison gives.
/// The comparison is a total order, as the sort asks: see the lemmas on
/// `lex_le`.
#[verifier::external_body]
fn sort_files(files: &mut Vec<FileEntry>)
    ensures
        file_views(final(files)@).to_multiset() == file_views(old(files)@).to_multiset(),
        sorted_by_path(file_views(final(files)@)),
{
    files.sort_by(|a, b| compare_paths(a.path.as_str(), b.path.as_str()));
}

/// Every file entry of a walk has the path relative to the root that its
/// full path gives.
pub proof fn lemma_collected_files(entries: Seq<ScannedEntry>, root: Seq<char>)
    ensures
        forall|j: int|
            #![auto]
            0 <= j < collect_files_spec(entries, root).len() ==> relative_to_spec(
                collect_files_spec(entries, root)[j].path,
                root,
            ) == Some(collect_files_spec(entries, root)[j].relative),
        collect_files_spec(entries, root).len() <= entries.len(),
    decreases entries.len(),
{
    if entries.len() > 0 {
        lemma_collected_files(entries.drop_last(), root);
    }
}

/// Rearranging file entries keeps what holds of each: every entry still has
/// the path relative to the root that its full path gives.
pub proof fn lemma_rearranged_members(a: Seq<FileEntryView>, b: Seq<FileEntryView>, root: Seq<char>)
    requires
        a.to_multiset() == b.to_multiset(),
        forall|j: int| 0 <= j < b.len() ==> relative_to_spec((#[trigger] b[j]).path, root) == Some(b[j].relative),
    ensures
        forall|i: int| 0 <= i < a.len() ==> relative_to_spec((#[trigger] a[i]).path, root) == Some(a[i].relative),
        a.len() == b.len(),
{
    a.to_multiset_ensures();
    b.to_multiset_ensures();
    assert forall|i: int| 0 <= i < a.len() implies relative_to_spec((#[trigger] a[i]).path, root)
        == Some(a[i].relative) by {
        assert(a.contains(a[i]));
        assert(b.to_multiset().count(a[i]) > 0);
        assert(b.contains(a[i]));
        let j: int = choose|j: int| 0 <= j < b.len() && b[j] == a[i];
        assert(relative_to_spec(b[j].path, root) == Some(b[j].relative));
    }
}

/// No two of the files have the same path.
pub open spec fn distinct_paths(files: Seq<FileEntryView>) -> bool {
    forall|i: int, j: int|
        0 <= i < j < files.len() ==> (#[trigger] files[i]).path != (#[trigger] files[j]).path
}

/// The order of a plan is fixed by its files: two arrangements of the same
/// files, both in the planning order, are the same where no two files share
/// a path. So a plan does not depend on the order in which the walk found
/// the files.
pub proof fn lemma_planning_order_is_unique(a: Seq<FileEntryView>, b: Seq<FileEntryView>)
    requires
        a.to_multiset() == b.to_multiset(),
        sorted_by_path(a),
        sorted_by_path(b),
        distinct_paths(a),
    ensures
        a == b,
    decreases a.len(),
{
    a.to_multiset_ensures();
    b.to_multiset_ensures();
    if a.len() == 0 {
        assert(a =~= b);
    } else {
        assert(a.contains(a[0]));
        assert(b.to_multiset().count(a[0]) > 0);
        assert(b.contains(a[0]));
        let k: int = choose|k: int| 0 <= k < b.len() && b[k] == a[0];
        assert(b.contains(b[0]));
        assert(a.to_multiset().count(b[0]) > 0);
        assert(a.contains(b[0]));
        let m: int = choose|m: int| 0 <= m < a.len() && a[m] == b[0];
        if k > 0 {
            assert(lex_le(b[0].path, b[k].path));
        } else {
            crate::order::lemma_lex_reflexive(b[0].path);
        }
        if m > 0 {
            assert(lex_le(a[0].path, a[m].path));
        } else {
            crate::order::lemma_lex_reflexive(a[0].path);
        }
        lemma_lex_antisymmetric(a[0].path, b[0].path);
        assert(m == 0);
        assert(a[0] == b[0]);
        to_multiset_remove(a, 0);
        to_multiset_remove(b, 0);
        let rest_a = a.remove(0);
        let rest_b = b.remove(0);
        assert(rest_a =~= a.skip(1));
        assert(rest_b =~= b.skip(1));
        assert(sorted_by_path(rest_a)) by {
            assert forall|i: int, j: int| 0 <= i < j < rest_a.len() implies lex_le(
                (#[trigger] rest_a[i]).path,
                (#[trigger] rest_a[j]).path,
            ) by {
                assert(rest_a[i] == a[i + 1] && rest_a[j] == a[j + 1]);
            }
        }
        assert(sorted_by_path(rest_b)) by {
            assert forall|i: int, j: int| 0 <= i < j < rest_b.len() implies lex_le(
                (#[trigger] rest_b[i]).path,
                (#[trigger] rest_b[j]).path,
            ) by {
                assert(rest_b[i] == b[i + 1] && rest_b[j] == b[j + 1]);
            }
        }
        assert(distinct_paths(rest_a)) by {
            assert forall|i: int, j: int| 0 <= i < j < rest_a.len() implies (#[trigger] rest_a[i]).path
                != (#[trigger] rest_a[j]).path by {
                assert(rest_a[i] == a[i + 1] && rest_a[j] == a[j + 1]);
            }
        }
        lemma_planning_order_is_unique(rest_a, rest_b);
        assert(a =~= seq![a[0]] + rest_a);
        assert(b =~= seq![b[0]] + rest_b);
    }
}

/// The text that the exclude rules are tested on first: the full path of the
/// file, or its path relative to the source root.
pub open spec fn exclusion_target(file: FileEntryView, absolute: bool) -> Seq<char> {
    if absolute {
        file.path
    } else {
        file.relative
    }
}

/// A file is excluded when some rule matches its evaluated path or, failing
/// that, its bare file name.
pub open spec fn excluded_by(rules: ExcludeRules, file: FileEntryView, absolute: bool) -> bool {
    let name = file_name_spec(file.relative);
    rules.matches(exclusion_target(file, absolute)) || (name.len() > 0 && rules.matches(name))
}

/// `pattern` is the one reported for an excluded file: the first rule that
/// matches the evaluated path; if none does, the first that matches the file
/// name.
pub open spec fn reported_pattern(
    rules: ExcludeRules,
    file: FileEntryView,
    absolute: bool,
    pattern: Seq<char>,
) -> bool {
    if rules.matches(exclusion_target(file, absolute)) {
        exists|i: int| #[trigger]
            rules.first_match(i, exclusion_target(file, absolute)) && pattern == rules.patterns[i]
    } else {
        exists|i: int| #[trigger]
            rules.first_match(i, file_name_spec(file.relative)) && pattern == rules.patterns[i]
    }
}

/// The rule that excludes `file`, if one does.
pub fn excluding_pattern<'a>(matcher: &'a ExcludeMatcher, file: &FileEntry, absolute: bool) -> (r:
    Option<&'a str>)
    ensures
        r is Some <==> excluded_by(matcher@, file@, absolute),
        r matches Some(p) ==> reported_pattern(matcher@, file@, absolute, p@),
{
    let target = if absolute {
        file.path.as_str()
    } else {
        file.relative.as_str()
    };
    match matcher.is_match(target) {
        Some(p) => {
            proof {
                let i: int = choose|i: int| #[trigger]
                    matcher@.first_match(i, target@) && p@ == matcher@.patterns[i];
                assert(matcher@.first_match(i, exclusion_target(file@, absolute)));
            }
            Some(p)
        },
        None => match file_name(file.relative.as_str()) {
            Some(name) => {
                let r = matcher.is_match(name.as_str());
                proof {
                    if let Some(p) = r {
                        let i: int = choose|i: int| #[trigger]
                            matcher@.first_match(i, name@) && p@ == matcher@.patterns[i];
                        assert(matcher@.first_match(i, file_name_spec(file@.relative)));
                    }
                }
                r
            },
            None => None,
        },
    }
}

/// A file to copy and where its copy goes.
#[derive(Clone, Debug)]
pub struct CopyOperation {
    pub source: String,
    pub destination: String,
}

/// What a run does with one file.
#[derive(Clone, Debug)]
pub enum Step {
    /// Copy it, if it is new or newer.
    Copy(CopyOperation),
    /// Leave it out, because `pattern` excludes it.
    Exclude { pattern: String },
}

/// One file of the plan with the step planned for it.
#[derive(Clone, Debug)]
pub struct PlanItem {
    pub file: FileEntry,
    pub step: Step,
}

/// The rules of an optional matcher.
pub open spec fn rules_of_matcher(matcher: Option<&ExcludeMatcher>) -> Option<ExcludeRules> {
    match matcher {
        Some(m) => Some(m@),
        None => None,
    }
}

/// Whether the rules, if there are any, exclude the file.
pub open spec fn is_excluded(rules: Option<ExcludeRules>, file: FileEntryView, absolute: bool) -> bool {
    rules is Some && excluded_by(rules->0, file, absolute)
}

/// `step` is the step that the rules give for `file`: excluded files are
/// left out and name the pattern, all others are copied to the place below
/// the destination root that mirrors their place below the source root.
pub open spec fn step_fits(
    step: Step,
    file: FileEntryView,
    dest_root: Seq<char>,
    rules: Option<ExcludeRules>,
    absolute: bool,
) -> bool {
    match step {
        Step::Copy(op) => {
            &&& !is_excluded(rules, file, absolute)
            &&& op.source@ == file.path
            &&& op.destination@ == join_spec(dest_root, file.relative)
        },
        Step::Exclude { pattern } => {
            &&& is_excluded(rules, file, absolute)
            &&& reported_pattern(rules->0, file, absolute, pattern@)
        },
    }
}

/// Decides the step for one file.
pub fn classify(file: &FileEntry, dest_root: &str, matcher: Option<&ExcludeMatcher>, absolute: bool) -> (step:
    Step)
    ensures
        step_fits(step, file@, dest_root@, rules_of_matcher(matcher), absolute),
{
    let excluded = match matcher {
        Some(m) => excluding_pattern(m, file, absolute),
        None => None,
    };
    match excluded {
        Some(p) => Step::Exclude { pattern: String::from_str(p) },
        None => Step::Copy(
            CopyOperation {
                source: file.path.clone(),
                destination: join(dest_root, file.relative.as_str()),
            },
        ),
    }
}

/// The files of the items of a plan, as plain values.
pub open spec fn item_files(items: Seq<PlanItem>) -> Seq<FileEntryView> {
    Seq::new(items.len(), |i: int| items[i].file@)
}

/// Plans a run over the entries that a walk of the source tree found.
///
/// The plan holds every regular file under `src_root` once, in the planning
/// order of the paths, each with its step.
pub fn plan(
    entries: &Vec<ScannedEntry>,
    src_root: &str,
    dest_root: &str,
    matcher: Option<&ExcludeMatcher>,
    absolute: bool,
) -> (items: Vec<PlanItem>)
    ensures
        item_files(items@).to_multiset() == collect_files_spec(entries@, src_root@).to_multiset(),
        sorted_by_path(item_files(items@)),
        forall|i: int|
            0 <= i < items@.len() ==> step_fits(
                (#[trigger] items@[i]).step,
                items@[i].file@,
                dest_root@,
                rules_of_matcher(matcher),
                absolute,
            ),
        forall|i: int|
            0 <= i < items@.len() ==> relative_to_spec((#[trigger] items@[i]).file.path@, src_root@)
                == Some(items@[i].file.relative@),
        forall|i: int|
            0 <= i < items@.len() ==> ((#[trigger] items@[i]).step matches Step::Copy(op)
                ==> lies_under(op.destination@, dest_root@)),
        items@.len() <= entries@.len(),
{
    let mut files = collect_files(entries, src_root);
    let ghost collected = file_views(files@);
    sort_files(&mut files);
    proof {
        lemma_collected_files(entries@, src_root@);
        lemma_rearranged_members(file_views(files@), collected, src_root@);
    }
    let mut items: Vec<PlanItem> = Vec::new();
    let mut i: usize = 0;
    while i < files.len()
        invariant
            i <= files.len(),
            items@.len() == i,
            forall|j: int| 0 <= j < i ==> (#[trigger] items@[j]).file@ == files@[j]@,
            forall|j: int|
                0 <= j < i ==> step_fits(
                    (#[trigger] items@[j]).step,
                    items@[j].file@,
                    dest_root@,
                    rules_of_matcher(matcher),
                    absolute,
                ),
        decreases files.len() - i,
    {
        let file = &files[i];
        let step = classify(file, dest_root, matcher, absolute);
        let kept = FileEntry {
            path: file.path.clone(),
            relative: file.relative.clone(),
            size: file.size,
            modified: file.modified,
        };
        items.push(PlanItem { file: kept, step });
        i = i + 1;
    }
    proof {
        assert(item_files(items@) =~= file_views(files@));
        assert forall|i: int| 0 <= i < items@.len() implies relative_to_spec(
            (#[trigger] items@[i]).file.path@,
            src_root@,
        ) == Some(items@[i].file.relative@) by {
            assert(items@[i].file@ == file_views(files@)[i]);
        }
        assert forall|i: int| 0 <= i < items@.len() implies ((#[trigger] items@[i]).step matches Step::Copy(
            op,
        ) ==> lies_under(op.destination@, dest_root@)) by {
            let file = items@[i].file@;
            assert(file == file_views(files@)[i]);
            lemma_relative_is_relative(file.path, src_root@);
            lemma_join_then_relative(dest_root@, file.relative);
        }
    }
    items
}

/// What planning ahead does with one item once the destination was looked at.
#[derive(Clone, Copy, Debug, PartialEq, Eq, Structural)]
pub enum Verdict {
    /// The item stays in the plan.
    Keep,
    /// The destination is up to date.
    Unchanged,
    /// The two files cannot be compared.
    Unreadable,
}

/// The modification time recorded for the destination of item `i`; an item
/// without a record has no destination.
pub open spec fn destination_time(destinations: Seq<Option<Timestamp>>, i: int) -> Option<Timestamp> {
    if 0 <= i < destinations.len() {
        destinations[i]
    } else {
        None
    }
}

/// The verdict on one item: exclusions stay, to be reported; a copy stays
/// if the source is new or newer.
pub open spec fn delta_verdict(item: PlanItem, destination: Option<Timestamp>) -> Verdict {
    match item.step {
        Step::Exclude { .. } => Verdict::Keep,
        Step::Copy(_) => match is_newer_spec(item.file.modified, destination) {
            Ok(newer) => if newer {
                Verdict::Keep
            } else {
                Verdict::Unchanged
            },
            Err(_) => Verdict::Unreadable,
        },
    }
}

/// The verdict on item `i` of a plan.
pub open spec fn verdict_at(items: Seq<PlanItem>, destinations: Seq<Option<Timestamp>>, i: int) -> Verdict {
    delta_verdict(items[i], destination_time(destinations, i))
}

/// The items among the first `n` that stay in the plan, in order.
pub open spec fn delta_items(items: Seq<PlanItem>, destinations: Seq<Option<Timestamp>>, n: int) -> Seq<
    PlanItem,
>
    decreases n,
{
    if n <= 0 {
        Seq::empty()
    } else if verdict_at(items, destinations, n - 1) == Verdict::Keep {
        delta_items(items, destinations, n - 1).push(items[n - 1])
    } else {
        delta_items(items, destinations, n - 1)
    }
}

/// How many of the first `n` items get the given verdict.
pub open spec fn delta_count(
    items: Seq<PlanItem>,
    destinations: Seq<Option<Timestamp>>,
    n: int,
    verdict: Verdict,
) -> nat
    decreases n,
{
    if n <= 0 {
        0
    } else if verdict_at(items, destinations, n - 1) == verdict {
        delta_count(items, destinations, n - 1, verdict) + 1
    } else {
        delta_count(items, destinations, n - 1, verdict)
    }
}

/// The bytes to copy for item `i`: the size of the file if its copy stays
/// in the plan, nothing otherwise.
pub open spec fn bytes_at(items: Seq<PlanItem>, destinations: Seq<Option<Timestamp>>, i: int) -> nat {
    if items[i].step is Copy && verdict_at(items, destinations, i) == Verdict::Keep {
        items[i].file.size as nat
    } else {
        0
    }
}

/// The bytes to copy for the first `n` items.
pub open spec fn delta_bytes(items: Seq<PlanItem>, destinations: Seq<Option<Timestamp>>, n: int) -> nat
    decreases n,
{
    if n <= 0 {
        0
    } else {
        delta_bytes(items, destinations, n - 1) + bytes_at(items, destinations, n - 1)
    }
}

/// A plan that holds only what a run has to act on.
#[derive(Clone, Debug)]
pub struct DeltaPlan {
    /// The exclusions, and the copies whose source is new or newer.
    pub items: Vec<PlanItem>,
    /// How many files were left out because their destination is up to date.
    pub unchanged: usize,
    /// How many files were left out because they could not be compared.
    pub unreadable: usize,
    /// The sizes of the files to copy, added up.
    pub total_bytes: u128,
}

/// A copy of an item.
pub fn copy_item(item: &PlanItem) -> (r: PlanItem)
    ensures
        r == *item,
{
    let step = match &item.step {
        Step::Copy(op) => Step::Copy(
            CopyOperation { source: op.source.clone(), destination: op.destination.clone() },
        ),
        Step::Exclude { pattern } => Step::Exclude { pattern: pattern.clone() },
    };
    PlanItem {
        file: FileEntry {
            path: item.file.path.clone(),
            relative: item.file.relative.clone(),
            size: item.file.size,
            modified: item.file.modified,
        },
        step,
    }
}

/// Decides on one item of a plan, given the modification time of its
/// destination.
pub fn judge(item: &PlanItem, destination: Option<Timestamp>) -> (v: Verdict)
    ensures
        v == delta_verdict(*item, destination),
{
    match &item.step {
        Step::Exclude { .. } => Verdict::Keep,
        Step::Copy(_) => match is_newer(item.file.modified, destination) {
            Ok(newer) => if newer {
                Verdict::Keep
            } else {
                Verdict::Unchanged
            },
            Err(_) => Verdict::Unreadable,
        },
    }
}

/// Plans ahead: keeps the steps that a run has to act on and adds up the
/// bytes to copy. `destinations[i]` is the modification time of the
/// destination of `items[i]`, `None` where there is no destination.
pub fn plan_delta(items: &Vec<PlanItem>, destinations: &Vec<Option<Timestamp>>) -> (r: DeltaPlan)
    ensures
        r.items@ == delta_items(items@, destinations@, items@.len() as int),
        r.unchanged == delta_count(items@, destinations@, items@.len() as int, Verdict::Unchanged),
        r.unreadable == delta_count(items@, destinations@, items@.len() as int, Verdict::Unreadable),
        r.total_bytes == delta_bytes(items@, destinations@, items@.len() as int),
        r.items@.len() + r.unchanged + r.unreadable == items@.len(),
{
    let mut kept: Vec<PlanItem> = Vec::new();
    let mut unchanged: usize = 0;
    let mut unreadable: usize = 0;
    let mut total_bytes: u128 = 0;
    let mut i: usize = 0;
    while i < items.len()
        invariant
            i <= items.len(),
            kept@ == delta_items(items@, destinations@, i as int),
            unchanged == delta_count(items@, destinations@, i as int, Verdict::Unchanged),
            unreadable == delta_count(items@, destinations@, i as int, Verdict::Unreadable),
            total_bytes == delta_bytes(items@, destinations@, i as int),
            kept@.len() + unchanged + unreadable == i,
            total_bytes <= i * u64::MAX,
        decreases items.len() - i,
    {
        let item = &items[i];
        let destination = if i < destinations.len() {
            destinations[i]
        } else {
            None
        };
        match judge(item, destination) {
            Verdict::Keep => {
                if let Step::Copy(_) = &item.step {
                    total_bytes = total_bytes + item.file.size as u128;
                }
                kept.push(copy_item(item));
            },
            Verdict::Unchanged => {
                unchanged = unchanged + 1;
            },
            Verdict::Unreadable => {
                unreadable = unreadable + 1;
            },
        }
        i = i + 1;
    }
    DeltaPlan { items: kept, unchanged, unreadable, total_bytes }
}

} // verus!
