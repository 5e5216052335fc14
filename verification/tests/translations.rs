use rbackup::translations::{
    build_template, keys_lacking, language_code, may_apply, select_language, validate, BundleError,
    KeyMismatch, Language, Selection,
};

fn table(pairs: &[(&str, &str)]) -> Option<Vec<(String, String)>> {
    Some(pairs.iter().map(|(k, v)| (k.to_string(), v.to_string())).collect())
}

fn language(code: &str, pairs: &[(&str, &str)]) -> Language {
    Language { code: code.to_string(), table: table(pairs) }
}

fn bundle_from_json(text: &str) -> Option<Vec<Language>> {
    let v: serde_json::Value = serde_json::from_str(text).expect("translations.json must be valid JSON");
    let obj = v.as_object()?;
    let mut languages = Vec::new();
    for (lang, val) in obj.iter() {
        let table = val.as_object().map(|map| {
            map.iter().map(|(k, v)| (k.clone(), v.as_str().unwrap_or("").to_string())).collect()
        });
        languages.push(Language { code: lang.clone(), table });
    }
    Some(languages)
}

#[test]
fn translations_have_same_keys() {
    let data = "{\"en\": {\"backup_init\": \"Backup starts\", \"to\": \"to\", \"copied_file\": \"copied\"}, \
                 \"it\": {\"to\": \"a\", \"backup_init\": \"Inizio backup\", \"copied_file\": \"copiato\"}}";
    let languages = bundle_from_json(data).expect("translations.json must be a JSON object at top-level");
    let mismatches = validate(Some(&languages)).expect("every language must map to an object");
    assert!(mismatches.is_empty(), "inconsistent keys: {:?}", mismatches);
}

#[test]
fn differing_keys_are_reported() {
    let languages = vec![
        language("en", &[("a", "1"), ("b", "2"), ("c", "3")]),
        language("it", &[("a", "1"), ("b", "2"), ("c", "3")]),
        language("de", &[("c", "3"), ("x", "9"), ("a", "1")]),
        language("fr", &[]),
    ];
    let mismatches = validate(Some(&languages)).unwrap();
    assert_eq!(
        mismatches,
        vec![
            KeyMismatch { code: "de".into(), missing: vec!["b".into()], extra: vec!["x".into()] },
            KeyMismatch {
                code: "fr".into(),
                missing: vec!["a".into(), "b".into(), "c".into()],
                extra: vec![],
            },
        ]
    );
}

#[test]
fn bundle_that_is_no_table() {
    assert_eq!(validate(None), Err(BundleError::NotATable));
    assert_eq!(build_template(None, true), Err(BundleError::NotATable));
    assert!(bundle_from_json("[1, 2]").is_none());
}

#[test]
fn language_that_is_no_table() {
    let languages = vec![
        language("en", &[("a", "1")]),
        Language { code: "it".into(), table: None },
        Language { code: "xx".into(), table: None },
    ];
    assert_eq!(
        validate(Some(&languages)),
        Err(BundleError::LanguageNotATable { index: 1, code: "it".into() })
    );
}

#[test]
fn empty_bundle_is_consistent_but_gives_no_template() {
    let languages: Vec<Language> = Vec::new();
    assert_eq!(validate(Some(&languages)), Ok(vec![]));
    assert_eq!(build_template(Some(&languages), false), Err(BundleError::NoLanguages));
}

#[test]
fn lacking_keys_keep_their_order() {
    let keys: Vec<String> = ["d", "a", "c", "b"].iter().map(|s| s.to_string()).collect();
    let others: Vec<String> = ["a", "b"].iter().map(|s| s.to_string()).collect();
    assert_eq!(keys_lacking(&keys, &others), vec!["d".to_string(), "c".to_string()]);
    assert_eq!(keys_lacking(&others, &keys), Vec::<String>::new());
}

#[test]
fn template_follows_english() {
    let languages = vec![
        language("de", &[("x", "Ix")]),
        language("en", &[("a", "One"), ("b", "Two")]),
    ];
    assert_eq!(
        build_template(Some(&languages), false),
        Ok(vec![("a".to_string(), String::new()), ("b".to_string(), String::new())])
    );
    assert_eq!(
        build_template(Some(&languages), true),
        Ok(vec![("a".to_string(), "One".to_string()), ("b".to_string(), "Two".to_string())])
    );
}

#[test]
fn template_follows_the_first_language_without_english() {
    let languages = vec![language("de", &[("x", "Ix")]), language("it", &[("y", "Ypsilon")])];
    // there is no English text to fill in
    assert_eq!(build_template(Some(&languages), true), Ok(vec![("x".to_string(), String::new())]));
}

#[test]
fn template_needs_a_table_to_follow() {
    let languages = vec![language("de", &[("x", "Ix")]), Language { code: "en".into(), table: None }];
    assert_eq!(
        build_template(Some(&languages), true),
        Err(BundleError::LanguageNotATable { index: 1, code: "en".into() })
    );
}

#[test]
fn language_of_a_run() {
    assert_eq!(language_code("it", Some("en_US")), "it");
    assert_eq!(language_code("IT", None), "it");
    assert_eq!(language_code("auto", Some("en_US")), "en");
    assert_eq!(language_code("auto", Some("DE-at")), "de");
    assert_eq!(language_code("auto", Some("Fr")), "fr");
    assert_eq!(language_code("auto", Some("_US")), "");
    assert_eq!(language_code("auto", None), "en");
    assert_eq!(language_code("Auto", Some("it_IT")), "auto");
}

#[test]
fn language_is_looked_up_with_english_as_fallback() {
    let codes: Vec<String> = ["de", "en", "it"].iter().map(|s| s.to_string()).collect();
    assert_eq!(select_language(&codes, "it"), Selection::Found(2));
    assert_eq!(select_language(&codes, "en"), Selection::Found(1));
    assert_eq!(select_language(&codes, "fr"), Selection::Fallback(1));
    let codes: Vec<String> = ["de", "it"].iter().map(|s| s.to_string()).collect();
    assert_eq!(select_language(&codes, "fr"), Selection::Missing);
    assert_eq!(select_language(&Vec::new(), "en"), Selection::Missing);
}

#[test]
fn language_in_the_bundle_is_replaced_only_by_force() {
    let languages = vec![language("en", &[("a", "1")]), language("it", &[("a", "1")])];
    assert!(!may_apply(&languages, "it", false));
    assert!(may_apply(&languages, "it", true));
    assert!(may_apply(&languages, "fr", false));
    assert!(may_apply(&languages, "fr", true));
    assert!(may_apply(&Vec::new(), "en", false));
}
