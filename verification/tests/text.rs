use rbackup::text::{fill_template, is_blank, is_whitespace, repeat_char, same_text, to_chars, to_decimal};

#[test]
fn decimal_digits() {
    assert_eq!(to_decimal(0), "0");
    assert_eq!(to_decimal(7), "7");
    assert_eq!(to_decimal(10), "10");
    assert_eq!(to_decimal(1234567890), "1234567890");
    assert_eq!(to_decimal(u64::MAX as u128), "18446744073709551615");
    assert_eq!(to_decimal(u128::MAX), "340282366920938463463374607431768211455");
}

#[test]
fn repeat_gives_the_count() {
    assert_eq!(repeat_char('x', 0), "");
    assert_eq!(repeat_char('x', 3), "xxx");
    assert_eq!(repeat_char('█', 2), "██");
}

#[test]
fn chars_are_kept_in_order() {
    assert_eq!(to_chars("aß€"), vec!['a', 'ß', '€']);
    assert_eq!(to_chars(""), Vec::<char>::new());
}

#[test]
fn template_places_are_filled() {
    assert_eq!(fill_template("{} files copied", "3"), "3 files copied");
    assert_eq!(fill_template("copied: {}", "12"), "copied: 12");
    assert_eq!(fill_template("{}", "5"), "5");
    assert_eq!(fill_template("{} and {}", "x"), "x and x");
    assert_eq!(fill_template("no place", "x"), "no place");
    assert_eq!(fill_template("", "x"), "");
}

#[test]
fn template_keeps_lone_braces() {
    assert_eq!(fill_template("{", "x"), "{");
    assert_eq!(fill_template("}{", "x"), "}{");
    assert_eq!(fill_template("{{}}", "x"), "{x}");
    assert_eq!(fill_template("a{}", "{}"), "a{}");
}

#[test]
fn blank_texts() {
    assert!(is_blank(""));
    assert!(is_blank(" \t\r\n"));
    assert!(is_blank("\u{00A0}\u{2003}\u{3000}"));
    assert!(!is_blank(" a "));
    assert!(!is_blank("\u{200B}"));
}

#[test]
fn whitespace_agrees_with_the_standard_library() {
    let mut code: u32 = 0;
    while code <= 0x3100 {
        if let Some(c) = char::from_u32(code) {
            assert_eq!(is_whitespace(c), c.is_whitespace(), "U+{:04X}", code);
        }
        code += 1;
    }
}

#[test]
fn same_text_compares_characters() {
    assert!(same_text("auto", "auto"));
    assert!(!same_text("auto", "Auto"));
    assert!(!same_text("auto", "aut"));
    assert!(same_text("", ""));
}
