use sysfetch::resolve::{contains_str, resolve, scan_key};

#[test]
fn resolve_first_success_wins() {
    let outcomes = vec![
        None,
        Some(String::from("Arch Linux")),
        Some(String::from("Linux")),
    ];
    assert_eq!(resolve(&outcomes), Some(String::from("Arch Linux")));
}

#[test]
fn resolve_all_failed() {
    let outcomes: Vec<Option<String>> = vec![None, None, None];
    assert_eq!(resolve(&outcomes), None);
}

#[test]
fn resolve_no_sources() {
    let outcomes: Vec<Option<String>> = vec![];
    assert_eq!(resolve(&outcomes), None);
}

#[test]
fn contains_finds_substring() {
    assert!(contains_str("gtk-theme-name=Adwaita", "gtk-theme-name"));
    assert!(!contains_str("gtk-icon-theme=x", "cursor"));
    assert!(contains_str("anything", ""));
    assert!(!contains_str("ab", "abc"));
}

#[test]
fn scan_key_returns_value_after_equals() {
    let lines = vec![
        String::from("[Settings]"),
        String::from("gtk-theme-name=Adwaita"),
        String::from("gtk-icon-theme-name=Papirus"),
    ];
    assert_eq!(
        scan_key(&lines, "gtk-theme-name"),
        Some(String::from("Adwaita"))
    );
    assert_eq!(
        scan_key(&lines, "gtk-icon-theme-name"),
        Some(String::from("Papirus"))
    );
}

#[test]
fn scan_key_no_matching_line() {
    let lines = vec![String::from("a=1"), String::from("b=2")];
    assert_eq!(scan_key(&lines, "cursor-theme"), None);
}

#[test]
fn scan_key_matching_line_without_equals() {
    let lines = vec![String::from("gtk-theme-name Adwaita")];
    assert_eq!(scan_key(&lines, "gtk-theme-name"), None);
}

#[test]
fn scan_key_first_matching_line_decides() {
    // the first line containing the key settles the outcome, even when a
    // later line would also match.
    let lines = vec![
        String::from("theme (commented out)"),
        String::from("theme=Breeze"),
    ];
    assert_eq!(scan_key(&lines, "theme"), None);
}

#[test]
fn scan_key_value_keeps_later_equals() {
    let lines = vec![String::from("key=a=b")];
    assert_eq!(scan_key(&lines, "key"), Some(String::from("a=b")));
}

#[test]
fn scan_key_empty_value() {
    let lines = vec![String::from("key=")];
    assert_eq!(scan_key(&lines, "key"), Some(String::from("")));
}

#[test]
fn scan_key_value_is_trimmed() {
    let lines = vec![String::from("gtk-theme-name = Adwaita ")];
    assert_eq!(
        scan_key(&lines, "gtk-theme-name"),
        Some(String::from("Adwaita"))
    );
    let tabs = vec![String::from("key=\tspaced value\t")];
    assert_eq!(scan_key(&tabs, "key"), Some(String::from("spaced value")));
    let blank = vec![String::from("key=   ")];
    assert_eq!(scan_key(&blank, "key"), Some(String::from("")));
}
