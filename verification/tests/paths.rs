use rbackup::paths::{file_name, join, relative_to};

#[test]
fn relative_path_below_a_root() {
    assert_eq!(relative_to("src/a/b.txt", "src"), Some("a/b.txt".to_string()));
    assert_eq!(relative_to("/data/src/a.txt", "/data/src"), Some("a.txt".to_string()));
}

#[test]
fn root_with_trailing_separator() {
    assert_eq!(relative_to("src/a.txt", "src/"), Some("a.txt".to_string()));
    assert_eq!(relative_to("src//a.txt", "src"), Some("a.txt".to_string()));
}

#[test]
fn root_must_end_at_a_component() {
    assert_eq!(relative_to("src2/a.txt", "src"), None);
    assert_eq!(relative_to("a/bc", "a/b"), None);
}

#[test]
fn path_outside_the_root_has_no_relative_path() {
    assert_eq!(relative_to("other/a.txt", "src"), None);
    assert_eq!(relative_to("sr", "src"), None);
}

#[test]
fn the_root_itself_is_the_empty_path() {
    assert_eq!(relative_to("src", "src"), Some(String::new()));
    assert_eq!(relative_to("src/", "src"), Some(String::new()));
}

#[test]
fn empty_root_strips_leading_separators() {
    assert_eq!(relative_to("a/b", ""), Some("a/b".to_string()));
    assert_eq!(relative_to("/a/b", ""), Some("a/b".to_string()));
}

#[test]
fn join_puts_one_separator_between() {
    assert_eq!(join("dst", "a/b.txt"), "dst/a/b.txt");
    assert_eq!(join("dst/", "a/b.txt"), "dst/a/b.txt");
    assert_eq!(join("", "a/b.txt"), "a/b.txt");
    assert_eq!(join("dst", ""), "dst/");
}

#[test]
fn join_then_relative_gives_the_relative_path_back() {
    for root in ["dst", "dst/", "/x/y", ""] {
        for rel in ["a", "a/b/c.txt", "", "ü/ß.txt"] {
            let joined = join(root, rel);
            assert_eq!(relative_to(&joined, root), Some(rel.to_string()));
        }
    }
}

#[test]
fn file_name_is_the_last_component() {
    assert_eq!(file_name("a/b/c.tmp"), Some("c.tmp".to_string()));
    assert_eq!(file_name("c.tmp"), Some("c.tmp".to_string()));
    assert_eq!(file_name("a/b/"), None);
    assert_eq!(file_name(""), None);
    assert_eq!(file_name("/x"), Some("x".to_string()));
}

#[test]
fn paths_that_step_out_of_the_root_have_no_relative_path() {
    assert_eq!(relative_to("src/../secret", "src"), None);
    assert_eq!(relative_to("src/a/../../secret", "src"), None);
    assert_eq!(relative_to("src/a/..", "src"), None);
    assert_eq!(relative_to("src/..", "src"), None);
}

#[test]
fn dots_inside_a_name_are_no_step() {
    assert_eq!(relative_to("src/a..b/c", "src"), Some("a..b/c".to_string()));
    assert_eq!(relative_to("src/.../c", "src"), Some(".../c".to_string()));
    assert_eq!(relative_to("src/./c", "src"), Some("./c".to_string()));
    assert_eq!(relative_to("src/..a", "src"), Some("..a".to_string()));
    assert_eq!(relative_to("src/a..", "src"), Some("a..".to_string()));
}
