use rbackup::config::{
    has_key_uncommented, Config, ConfigUpgrade, DEFAULT_CONFIG_TEMPLATE, JOBS_BLOCK, LANGUAGE_BLOCK,
    TIMESTAMP_BLOCK,
};

#[test]
fn defaults_where_nothing_was_loaded() {
    let c = Config::load_or_default(None);
    assert_eq!(c.language, "auto");
    assert_eq!(c.timestamp_format, "%Y-%m-%d %H:%M:%S");
    assert_eq!(c.jobs, 4);
}

#[test]
fn loaded_configuration_is_kept() {
    let loaded = Config { language: "it".into(), timestamp_format: "%H".into(), jobs: 9 };
    let c = Config::load_or_default(Some(loaded));
    assert_eq!(c.language, "it");
    assert_eq!(c.timestamp_format, "%H");
    assert_eq!(c.jobs, 9);
}

#[test]
fn keys_are_found_at_the_start_of_a_line() {
    assert!(has_key_uncommented("language: en\n", "language"));
    assert!(has_key_uncommented("a: 1\nlanguage: en", "language"));
    assert!(has_key_uncommented("a: 1\r\n  \tlanguage: en\r\n", "language"));
    assert!(has_key_uncommented("jobs:4", "jobs"));
}

#[test]
fn comments_and_other_keys_do_not_count() {
    assert!(!has_key_uncommented("# language: en\n", "language"));
    assert!(!has_key_uncommented("   # language: en\n", "language"));
    assert!(!has_key_uncommented("languages: en\n", "language"));
    assert!(!has_key_uncommented("my language: en\n", "language"));
    assert!(!has_key_uncommented("language\n: en\n", "language"));
    assert!(!has_key_uncommented("language", "language"));
    assert!(!has_key_uncommented("", "language"));
    assert!(!has_key_uncommented("\n\n", "language"));
}

#[test]
fn default_template_sets_everything() {
    for key in ["language", "timestamp_format", "jobs"] {
        assert!(has_key_uncommented(DEFAULT_CONFIG_TEMPLATE, key));
    }
    assert_eq!(Config::default_config(), DEFAULT_CONFIG_TEMPLATE);
    assert!(matches!(
        Config::upgrade_config_file(Some(DEFAULT_CONFIG_TEMPLATE)),
        ConfigUpgrade::Unchanged
    ));
}

#[test]
fn missing_file_is_created() {
    match Config::upgrade_config_file(None) {
        ConfigUpgrade::Create(text) => assert_eq!(text, DEFAULT_CONFIG_TEMPLATE),
        _ => panic!("a missing file is created"),
    }
}

#[test]
fn missing_settings_are_appended_in_order() {
    match Config::upgrade_config_file(Some("timestamp_format: '%H'\n")) {
        ConfigUpgrade::Append(text) => assert_eq!(text, format!("{}{}", LANGUAGE_BLOCK, JOBS_BLOCK)),
        _ => panic!("two settings are missing"),
    }
    match Config::upgrade_config_file(Some("")) {
        ConfigUpgrade::Append(text) => {
            assert_eq!(text, format!("{}{}{}", LANGUAGE_BLOCK, TIMESTAMP_BLOCK, JOBS_BLOCK))
        }
        _ => panic!("all settings are missing"),
    }
    match Config::upgrade_config_file(Some("language: it\n#jobs: 2\ntimestamp_format: x\n")) {
        ConfigUpgrade::Append(text) => assert_eq!(text, JOBS_BLOCK),
        _ => panic!("jobs is commented out"),
    }
}

#[test]
fn appended_blocks_set_their_keys() {
    assert!(has_key_uncommented(LANGUAGE_BLOCK, "language"));
    assert!(has_key_uncommented(TIMESTAMP_BLOCK, "timestamp_format"));
    assert!(has_key_uncommented(JOBS_BLOCK, "jobs"));
    assert_eq!(
        JOBS_BLOCK,
        "\n# Number of worker threads used for parallel copy operations.\n# Set to an integer > 0. Default: 4\njobs: 4\n"
    );
}

#[test]
fn place_of_the_configuration_file() {
    assert_eq!(Config::config_file(Some("/home/me"), false), "/home/me/.rbackup/rbackup.conf");
    assert_eq!(Config::config_file(None, false), "./.rbackup/rbackup.conf");
    assert_eq!(
        Config::config_file(Some("C:\\Users\\me\\AppData"), true),
        "C:\\Users\\me\\AppData\\rbackup\\rbackup.conf"
    );
    assert_eq!(Config::config_file(None, true), ".\\rbackup\\rbackup.conf");
}

#[test]
fn editor_is_chosen_in_order() {
    let s = |t: &str| Some(t.to_string());
    assert_eq!(Config::edit(s("nano"), s("vim"), s("code"), false), "nano");
    assert_eq!(Config::edit(None, s("vim"), s("code"), false), "vim");
    assert_eq!(Config::edit(None, None, s("code"), false), "code");
    assert_eq!(Config::edit(None, None, None, false), "vi");
    assert_eq!(Config::edit(None, None, None, true), "notepad");
}
