use sysfetch::text::{line_length, strip_newline, trim_str};

#[test]
fn strip_lf() {
    assert_eq!(strip_newline("uname\n"), "uname");
}

#[test]
fn strip_crlf() {
    assert_eq!(strip_newline("uname\r\n"), "uname");
}

#[test]
fn strip_nothing_to_strip() {
    assert_eq!(strip_newline("uname"), "uname");
}

#[test]
fn strip_exactly_one_terminator() {
    // only the last terminator goes; a second pass would take one more.
    assert_eq!(strip_newline("a\n\n"), "a\n");
}

#[test]
fn strip_idempotent_on_own_output() {
    let once = strip_newline("value\r\n");
    assert_eq!(strip_newline(&once), once);
}

#[test]
fn strip_empty_and_bare_terminators() {
    assert_eq!(strip_newline(""), "");
    assert_eq!(strip_newline("\n"), "");
    assert_eq!(strip_newline("\r\n"), "");
    assert_eq!(strip_newline("\r"), "\r");
}

#[test]
fn width_plain_text() {
    assert_eq!(line_length("hello"), 5);
}

#[test]
fn width_ignores_escape_character_only() {
    // The escape character is a control character and renders zero-width; the
    // printable bytes of the sequence still count.
    assert_eq!(line_length("\u{1b}[36mabc\u{1b}[0m"), 10);
}

#[test]
fn width_independent_of_control_count() {
    let bare = "abc";
    let sprinkled = "\u{1b}a\u{1b}\u{1b}b\u{1b}c\u{1b}";
    assert_eq!(line_length(bare), 3);
    assert_eq!(line_length(sprinkled), 3);
}

#[test]
fn width_counts_characters_not_bytes() {
    assert_eq!(line_length("τρία"), 4);
}

#[test]
fn width_tab_and_del_are_control() {
    assert_eq!(line_length("a\tb\u{7f}"), 2);
}

#[test]
fn trim_both_ends_only() {
    assert_eq!(trim_str("  a b  "), "a b");
    assert_eq!(trim_str("\t value \r\n"), "value");
    assert_eq!(trim_str("bare"), "bare");
}

#[test]
fn trim_all_whitespace_and_unicode_spaces() {
    assert_eq!(trim_str("   "), "");
    assert_eq!(trim_str(""), "");
    assert_eq!(trim_str("\u{a0}a\u{2003}"), "a");
}
