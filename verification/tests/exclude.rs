use rbackup::exclude::{build_exclude_matcher, PatternError};

#[test]
fn first_matching_pattern_is_reported() {
    let patterns = vec!["*.log".to_string(), "*.tmp".to_string(), "build/**".to_string()];
    let matcher = build_exclude_matcher(&patterns, false).unwrap();
    assert_eq!(matcher.is_match("a/b/c.tmp"), Some("*.tmp"));
    assert_eq!(matcher.is_match("build/out/x.o"), Some("build/**"));
    assert_eq!(matcher.is_match("src/main.rs"), None);
}

#[test]
fn earlier_pattern_wins_when_several_match() {
    let patterns = vec!["*.tmp".to_string(), "cache/*".to_string()];
    let matcher = build_exclude_matcher(&patterns, false).unwrap();
    assert_eq!(matcher.is_match("cache/x.tmp"), Some("*.tmp"));
    let reversed = vec!["cache/*".to_string(), "*.tmp".to_string()];
    let matcher = build_exclude_matcher(&reversed, false).unwrap();
    assert_eq!(matcher.is_match("cache/x.tmp"), Some("cache/*"));
}

#[test]
fn case_flag_is_passed_to_the_globs() {
    let patterns = vec!["*.TMP".to_string()];
    let strict = build_exclude_matcher(&patterns, false).unwrap();
    assert_eq!(strict.is_match("foo.tmp"), None);
    let relaxed = build_exclude_matcher(&patterns, true).unwrap();
    assert_eq!(relaxed.is_match("foo.tmp"), Some("*.TMP"));
}

#[test]
fn invalid_pattern_is_reported_with_its_index() {
    let patterns = vec!["*.tmp".to_string(), "[abc".to_string(), "{a,b".to_string()];
    match build_exclude_matcher(&patterns, false) {
        Err(PatternError::InvalidGlob { index, pattern, .. }) => {
            assert_eq!(index, 1);
            assert_eq!(pattern, "[abc");
        }
        _ => panic!("the unclosed class must be refused"),
    }
}

#[test]
fn empty_pattern_list_matches_nothing() {
    let matcher = build_exclude_matcher(&[], false).unwrap();
    assert_eq!(matcher.is_match("anything"), None);
}

#[test]
fn patterns_beyond_the_weight_limit_are_refused() {
    let limit = rbackup::exclude::MAX_PATTERN_WEIGHT;
    // "*.tmp" weighs 6
    let patterns = vec!["*.tmp".to_string(), "a".repeat(limit - 6)];
    assert!(matches!(build_exclude_matcher(&patterns, false), Err(PatternError::TooLong)));
    // the weight counts bytes, not characters
    let patterns = vec!["é".repeat(limit / 2)];
    assert!(matches!(build_exclude_matcher(&patterns, false), Err(PatternError::TooLong)));
}

#[test]
fn patterns_at_the_weight_limit_are_compiled() {
    let limit = rbackup::exclude::MAX_PATTERN_WEIGHT;
    // each of these weighs 9, the last one 8
    let mut patterns: Vec<String> = (0..3640).map(|i| format!("*.x{:05}", i)).collect();
    patterns.push("*.tmp12".to_string());
    let weight: usize = patterns.iter().map(|p| p.len() + 1).sum();
    assert_eq!(weight, limit);
    let matcher = build_exclude_matcher(&patterns, false).unwrap();
    assert_eq!(matcher.is_match("a/b.x03639"), Some("*.x03639"));
    assert_eq!(matcher.is_match("a.tmp12"), Some("*.tmp12"));
    // one byte more is too heavy
    patterns.push(String::new());
    assert!(matches!(build_exclude_matcher(&patterns, false), Err(PatternError::TooLong)));
}

#[test]
fn long_literal_pattern_is_compiled() {
    let long = format!("*{}", "a".repeat(4000));
    let patterns = vec!["*.tmp".to_string(), long.clone()];
    let matcher = build_exclude_matcher(&patterns, false).unwrap();
    let name = format!("x{}", "a".repeat(4000));
    assert_eq!(matcher.is_match(&name), Some(long.as_str()));
    assert_eq!(matcher.is_match("a.tmp"), Some("*.tmp"));
}

#[test]
fn many_equal_literal_patterns_are_compiled() {
    // suffix patterns that share their text: the tables behind them grow fastest
    let mut patterns = vec![format!("*{}", "a".repeat(2000))];
    for _ in 0..2000 {
        patterns.push("*a".to_string());
    }
    let matcher = build_exclude_matcher(&patterns, false).unwrap();
    assert_eq!(matcher.is_match("bba"), Some("*a"));
}

#[test]
fn nested_alternates_are_matched() {
    let patterns = vec!["{a,{b,{c,d}}}.txt".to_string()];
    let matcher = build_exclude_matcher(&patterns, false).unwrap();
    assert_eq!(matcher.is_match("d.txt"), Some("{a,{b,{c,d}}}.txt"));
    assert_eq!(matcher.is_match("e.txt"), None);
}

#[test]
fn alternates_nested_too_deep_are_refused() {
    let depth = rbackup::exclude::MAX_BRACE_DEPTH + 1;
    let deep = format!("{}a{}", "{".repeat(depth), "}".repeat(depth));
    let patterns = vec!["*.tmp".to_string(), deep.clone()];
    match build_exclude_matcher(&patterns, false) {
        Err(PatternError::TooNested { index, pattern }) => {
            assert_eq!(index, 1);
            assert_eq!(pattern, deep);
        }
        _ => panic!("the nesting is refused"),
    }
    // as deep as the weight limit lets a pattern be
    let deeper = format!("{}a{}", "{".repeat(16_000), "}".repeat(16_000));
    assert!(matches!(
        build_exclude_matcher(&[deeper], false),
        Err(PatternError::TooNested { index: 0, .. })
    ));
}

#[test]
fn alternates_in_a_row_are_not_nested() {
    let pattern = "{a,b}".repeat(300);
    let matcher = build_exclude_matcher(&[pattern.clone()], false).unwrap();
    assert_eq!(matcher.is_match(&"ab".repeat(150)), Some(pattern.as_str()));
}

#[test]
fn after_a_class_every_open_brace_counts() {
    // after `[` a `}` may stand for itself, so it is not taken to close a group
    let pattern = format!("[x]{}", "{a,b}".repeat(251));
    assert!(matches!(
        build_exclude_matcher(&[pattern], false),
        Err(PatternError::TooNested { index: 0, .. })
    ));
    let pattern = format!("[x]{}", "{a,b}".repeat(250));
    assert!(build_exclude_matcher(&[pattern], false).is_ok());
}

#[test]
fn invalid_character_range_is_refused() {
    match build_exclude_matcher(&["[z-a]".to_string()], true) {
        Err(PatternError::InvalidGlob { index, pattern, cause }) => {
            assert_eq!(index, 0);
            assert_eq!(pattern, "[z-a]");
            assert_eq!(cause.kind(), &globset::ErrorKind::InvalidRange('z', 'a'));
        }
        _ => panic!("the range is refused"),
    }
}

#[test]
fn cloned_matcher_answers_alike() {
    let patterns = vec!["*.log".to_string(), "tmp/*".to_string()];
    let matcher = build_exclude_matcher(&patterns, false).unwrap();
    let copy = matcher.clone();
    for path in ["a.log", "tmp/x", "tmp/a.log", "src/main.rs"] {
        assert_eq!(matcher.is_match(path), copy.is_match(path));
    }
    assert_eq!(copy.is_match("tmp/a.log"), Some("*.log"));
}

#[test]
fn alternates_at_the_depth_limit_go_to_the_glob_compiler() {
    // at this depth the answer is that of `globset`, which refuses the
    // regular expression it makes of the pattern
    let depth = rbackup::exclude::MAX_BRACE_DEPTH;
    let deep = format!("{}a{}", "{".repeat(depth), "}".repeat(depth));
    match build_exclude_matcher(&[deep.clone()], false) {
        Err(PatternError::InvalidGlob { index, pattern, cause }) => {
            assert_eq!(index, 0);
            assert_eq!(pattern, deep);
            assert!(matches!(cause.kind(), globset::ErrorKind::Regex(_)));
        }
        _ => panic!("the regular expression is refused"),
    }
    let nested = format!("{}a{}", "{".repeat(20), "}".repeat(20));
    let matcher = build_exclude_matcher(&[nested.clone()], false).unwrap();
    assert_eq!(matcher.is_match("a"), Some(nested.as_str()));
    assert_eq!(matcher.is_match("b"), None);
}
