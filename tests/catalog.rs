use uta::catalog::{parse_catalog, parse_chooser_output, select_by_number, CatalogEntry};
use uta::error::Error;

fn entry(label: &str, target: Option<&str>, extra: &[&str]) -> CatalogEntry {
    CatalogEntry {
        label: label.to_string(),
        target: target.map(|t| t.to_string()),
        extra: extra.iter().map(|s| s.to_string()).collect(),
    }
}

#[test]
fn trailing_newline_adds_no_entry() {
    let entries = parse_catalog("a 1\nb 2\n");
    assert_eq!(entries.len(), 2);
    assert_eq!(entries[0].label, "a");
    assert_eq!(entries[0].target.as_deref(), Some("1"));
    assert_eq!(entries[1].label, "b");
    assert_eq!(entries[1].target.as_deref(), Some("2"));
}

#[test]
fn last_line_is_dropped() {
    assert_eq!(parse_catalog("a 1\nb 2"), vec![entry("a", Some("1"), &[])]);
    assert_eq!(parse_catalog(""), vec![]);
    assert_eq!(parse_catalog("only"), vec![]);
}

#[test]
fn blank_lines_skipped_and_extra_kept() {
    let text = "\n  \nmix  https://x/y\tloud fast\nsolo\n\n";
    assert_eq!(
        parse_catalog(text),
        vec![entry("mix", Some("https://x/y"), &["loud", "fast"]), entry("solo", None, &[])]
    );
}

#[test]
fn menu_number_picks_entry() {
    let entries = parse_catalog("a 1 x\nb 2\n");
    let s = select_by_number(&entries, " 1\n").unwrap();
    assert_eq!(s.target.as_deref(), Some("1"));
    assert_eq!(s.extra, vec!["x".to_string()]);
    let s = select_by_number(&entries, "2").unwrap();
    assert_eq!(s.target.as_deref(), Some("2"));
    assert!(s.extra.is_empty());
}

#[test]
fn bad_menu_input_is_a_parse_error() {
    let entries = parse_catalog("a 1\nb 2\n");
    for input in ["0", "3", "x", "", "1 2", "-1", "99999999999999999999999"] {
        match select_by_number(&entries, input) {
            Err(Error::IntErr(_)) => {}
            other => panic!("unexpected result for {input:?}: {other:?}"),
        }
    }
}

#[test]
fn chooser_output_is_read() {
    match parse_chooser_output(None) {
        Err(Error::ExecuteErr(m)) => assert_eq!(m, "no stdout"),
        other => panic!("unexpected: {other:?}"),
    }
    match parse_chooser_output(Some("lonely\n".to_string())) {
        Err(Error::ExecuteErr(m)) => assert_eq!(m, "not enough values"),
        other => panic!("unexpected: {other:?}"),
    }
    let s = parse_chooser_output(Some("mix https://x/y loud fast\n".to_string())).unwrap();
    assert_eq!(s.target.as_deref(), Some("https://x/y"));
    assert_eq!(s.extra, vec!["loud".to_string(), "fast".to_string()]);
}

#[test]
fn catalog_bytes_must_be_utf8() {
    match uta::catalog::load_catalog(vec![b'a', b' ', 0xff, b'\n']) {
        Err(Error::UtfErr(_)) => {}
        other => panic!("unexpected: {other:?}"),
    }
    let entries = uta::catalog::load_catalog("é 1\n".as_bytes().to_vec()).unwrap();
    assert_eq!(entries, vec![entry("é", Some("1"), &[])]);
}

#[test]
fn catalog_path_must_be_configured() {
    assert_eq!(uta::catalog::catalog_path(Some("/x/list")).unwrap(), "/x/list");
    for configured in [None, Some("")] {
        match uta::catalog::catalog_path(configured) {
            Err(Error::ExecuteErr(m)) => assert_eq!(m, "no catalog file configured"),
            other => panic!("unexpected: {other:?}"),
        }
    }
}

#[test]
fn chooser_is_offered_the_parsed_entries() {
    let entries = parse_catalog("a 1 x y\nsolo\nb  2\nlast 3");
    assert_eq!(entries[0].line(), "a 1 x y");
    assert_eq!(entries[1].line(), "solo");
    assert_eq!(
        uta::catalog::chooser_input(&entries),
        "a 1 x y\nsolo\nb 2\n"
    );
    assert_eq!(uta::catalog::chooser_input(&vec![]), "");
    let s = parse_chooser_output(Some(entries[2].line())).unwrap();
    assert_eq!(s.target.as_deref(), Some("2"));
}

#[test]
fn entry_without_target_cannot_be_played() {
    let entries = parse_catalog("solo\nb 2\n");
    let s = select_by_number(&entries, "1").unwrap();
    match s.chosen_target() {
        Err(Error::ExecuteErr(m)) => assert_eq!(m, "the chosen entry has no target"),
        other => panic!("unexpected: {other:?}"),
    }
    let s = select_by_number(&entries, "2").unwrap();
    assert_eq!(s.chosen_target().unwrap(), "2");
}

#[test]
fn unicode_blanks_separate_words() {
    let entries = parse_catalog("a\u{3000}1\u{A0}x\nb\u{C}2\u{B}\n");
    assert_eq!(entries, vec![entry("a", Some("1"), &["x"]), entry("b", Some("2"), &[])]);
}
