use rbackup::change::Timestamp;
use rbackup::exclude::build_exclude_matcher;
use rbackup::plan::{
    classify, collect_files, excluding_pattern, judge, plan, plan_delta, EntryKind, FileEntry,
    PlanItem, ScannedEntry, Step, Verdict,
};

fn at(secs: i64) -> Timestamp {
    Timestamp { secs, nanos: 0 }
}

fn file(path: &str, size: u64, secs: i64) -> ScannedEntry {
    ScannedEntry { path: path.to_string(), kind: EntryKind::File, size, modified: Some(at(secs)) }
}

fn entry(path: &str, relative: &str) -> FileEntry {
    FileEntry { path: path.to_string(), relative: relative.to_string(), size: 1, modified: Some(at(1)) }
}

fn sources(items: &[PlanItem]) -> Vec<String> {
    items.iter().map(|i| i.file.path.clone()).collect()
}

#[test]
fn only_regular_files_under_the_root_are_collected() {
    let scanned = vec![
        ScannedEntry { path: "src".into(), kind: EntryKind::Directory, size: 0, modified: None },
        file("src/a.txt", 3, 10),
        ScannedEntry { path: "src/sub".into(), kind: EntryKind::Directory, size: 0, modified: None },
        ScannedEntry { path: "src/link".into(), kind: EntryKind::Other, size: 0, modified: None },
        file("elsewhere/b.txt", 4, 10),
        file("src/sub/c.txt", 5, 11),
    ];
    let files = collect_files(&scanned, "src");
    assert_eq!(files.len(), 2);
    assert_eq!(files[0].path, "src/a.txt");
    assert_eq!(files[0].relative, "a.txt");
    assert_eq!(files[0].size, 3);
    assert_eq!(files[0].modified, Some(at(10)));
    assert_eq!(files[1].path, "src/sub/c.txt");
    assert_eq!(files[1].relative, "sub/c.txt");
}

#[test]
fn plan_is_sorted_by_path() {
    let scanned = vec![
        file("src/z.txt", 1, 1),
        file("src/a/b.txt", 1, 1),
        file("src/m.txt", 1, 1),
        file("src/a.txt", 1, 1),
        file("src/B.txt", 1, 1),
    ];
    let items = plan(&scanned, "src", "dst", None, false);
    // a directory comes before the names that go on where its name ends
    assert_eq!(
        sources(&items),
        vec!["src/B.txt", "src/a/b.txt", "src/a.txt", "src/m.txt", "src/z.txt"]
    );
}

#[test]
fn paths_are_ordered_component_by_component() {
    let scanned = vec![
        file("src/a-b/x", 1, 1),
        file("src/a b/x", 1, 1),
        file("src/a/z", 1, 1),
        file("src/a.txt", 1, 1),
        file("src/a", 1, 1),
        file("src/a/b/c", 1, 1),
        file("src/a!", 1, 1),
    ];
    let items = plan(&scanned, "src", "dst", None, false);
    let planned = sources(&items);
    assert_eq!(
        planned,
        vec!["src/a", "src/a/b/c", "src/a/z", "src/a b/x", "src/a!", "src/a-b/x", "src/a.txt"]
    );
    // the same order as that of the paths of the standard library
    let mut paths: Vec<std::path::PathBuf> = planned.iter().map(std::path::PathBuf::from).collect();
    paths.reverse();
    paths.sort();
    let sorted: Vec<String> = paths.iter().map(|p| p.to_string_lossy().into_owned()).collect();
    assert_eq!(sorted, planned);
}

#[test]
fn plan_is_the_same_for_any_order_of_the_walk() {
    let one = vec![file("src/c", 1, 1), file("src/a", 2, 2), file("src/b", 3, 3)];
    let two = vec![file("src/b", 3, 3), file("src/c", 1, 1), file("src/a", 2, 2)];
    let first = plan(&one, "src", "dst", None, false);
    let second = plan(&two, "src", "dst", None, false);
    assert_eq!(sources(&first), sources(&second));
    assert_eq!(sources(&first), vec!["src/a", "src/b", "src/c"]);
}

#[test]
fn copy_steps_mirror_the_relative_path() {
    let scanned = vec![file("src/sub/deep/a.txt", 1, 1)];
    let items = plan(&scanned, "src", "backup/dst", None, false);
    assert_eq!(items.len(), 1);
    match &items[0].step {
        Step::Copy(op) => {
            assert_eq!(op.source, "src/sub/deep/a.txt");
            assert_eq!(op.destination, "backup/dst/sub/deep/a.txt");
            assert!(op.destination.starts_with("backup/dst/"));
        }
        _ => panic!("nothing excludes the file"),
    }
}

#[test]
fn excluded_files_stay_in_the_plan_with_their_pattern() {
    let matcher = build_exclude_matcher(&["skip.txt".to_string()], false).unwrap();
    let scanned = vec![file("src/skip.txt", 4, 1), file("src/keep.txt", 3, 1)];
    let items = plan(&scanned, "src", "dst", Some(&matcher), false);
    assert_eq!(sources(&items), vec!["src/keep.txt", "src/skip.txt"]);
    assert!(matches!(&items[0].step, Step::Copy(_)));
    match &items[1].step {
        Step::Exclude { pattern } => assert_eq!(pattern, "skip.txt"),
        _ => panic!("skip.txt is excluded"),
    }
}

#[test]
fn file_name_is_tried_when_the_path_does_not_match() {
    // The literal pattern does not match the relative path, only the name.
    let matcher = build_exclude_matcher(&["notes.txt".to_string()], false).unwrap();
    let deep = entry("src/a/b/notes.txt", "a/b/notes.txt");
    assert_eq!(matcher.is_match("a/b/notes.txt"), None);
    assert_eq!(excluding_pattern(&matcher, &deep, false), Some("notes.txt"));
    let other = entry("src/a/b/other.txt", "a/b/other.txt");
    assert_eq!(excluding_pattern(&matcher, &other, false), None);
}

#[test]
fn path_match_is_reported_before_a_name_match() {
    let patterns = vec!["b.txt".to_string(), "a/*".to_string()];
    let matcher = build_exclude_matcher(&patterns, false).unwrap();
    let f = entry("src/a/b.txt", "a/b.txt");
    // "a/*" matches the path; "b.txt" matches the name only.
    assert_eq!(excluding_pattern(&matcher, &f, false), Some("a/*"));
}

#[test]
fn absolute_matching_tests_the_full_path() {
    let matcher = build_exclude_matcher(&["/data/src/private/*".to_string()], false).unwrap();
    let f = entry("/data/src/private/key", "private/key");
    assert_eq!(excluding_pattern(&matcher, &f, true), Some("/data/src/private/*"));
    assert_eq!(excluding_pattern(&matcher, &f, false), None);
}

#[test]
fn classify_without_matcher_copies() {
    let f = entry("src/a.txt", "a.txt");
    match classify(&f, "dst", None, false) {
        Step::Copy(op) => {
            assert_eq!(op.source, "src/a.txt");
            assert_eq!(op.destination, "dst/a.txt");
        }
        _ => panic!("no rules, no exclusion"),
    }
}

#[test]
fn delta_plan_keeps_new_and_newer_files() {
    let scanned = vec![
        file("src/a_new", 10, 100),
        file("src/b_newer", 20, 100),
        file("src/c_same", 40, 100),
        file("src/d_older", 80, 100),
        ScannedEntry { path: "src/e_unreadable".into(), kind: EntryKind::File, size: 160, modified: None },
    ];
    let items = plan(&scanned, "src", "dst", None, false);
    let destinations = vec![None, Some(at(99)), Some(at(100)), Some(at(101)), Some(at(1))];
    let delta = plan_delta(&items, &destinations);
    assert_eq!(sources(&delta.items), vec!["src/a_new", "src/b_newer"]);
    assert_eq!(delta.unchanged, 2);
    assert_eq!(delta.unreadable, 1);
    assert_eq!(delta.total_bytes, 30);
    assert_eq!(delta.items.len() + delta.unchanged + delta.unreadable, items.len());
}

#[test]
fn delta_plan_keeps_exclusions_and_counts_no_bytes_for_them() {
    let matcher = build_exclude_matcher(&["*.tmp".to_string()], false).unwrap();
    let scanned = vec![file("src/a.tmp", 1000, 1), file("src/b.txt", 7, 1)];
    let items = plan(&scanned, "src", "dst", Some(&matcher), false);
    let delta = plan_delta(&items, &vec![None, None]);
    assert_eq!(delta.items.len(), 2);
    assert!(matches!(&delta.items[0].step, Step::Exclude { .. }));
    assert_eq!(delta.total_bytes, 7);
    assert_eq!(delta.unchanged, 0);
}

#[test]
fn delta_plan_takes_a_missing_record_for_a_missing_destination() {
    let scanned = vec![file("src/a", 1, 1), file("src/b", 2, 2)];
    let items = plan(&scanned, "src", "dst", None, false);
    let delta = plan_delta(&items, &vec![Some(at(5))]);
    assert_eq!(sources(&delta.items), vec!["src/b"]);
    assert_eq!(delta.unchanged, 1);
}

#[test]
fn verdicts() {
    let scanned = vec![file("src/a", 1, 10)];
    let items = plan(&scanned, "src", "dst", None, false);
    assert_eq!(judge(&items[0], None), Verdict::Keep);
    assert_eq!(judge(&items[0], Some(at(9))), Verdict::Keep);
    assert_eq!(judge(&items[0], Some(at(10))), Verdict::Unchanged);
    assert_eq!(judge(&items[0], Some(at(11))), Verdict::Unchanged);
}

#[test]
fn empty_walk_gives_an_empty_plan() {
    let items = plan(&Vec::new(), "src", "dst", None, false);
    assert!(items.is_empty());
    let delta = plan_delta(&items, &Vec::new());
    assert!(delta.items.is_empty());
    assert_eq!(delta.total_bytes, 0);
}

#[test]
fn files_that_would_leave_the_destination_are_not_planned() {
    let scanned = vec![file("src/../outside.txt", 1, 1), file("src/inside.txt", 1, 1)];
    let items = plan(&scanned, "src", "dst", None, false);
    assert_eq!(sources(&items), vec!["src/inside.txt"]);
}
