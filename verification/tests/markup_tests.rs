use trilogy_save::markup::{format_code, parse_changelog, split_text};

#[test]
fn code_spans_alternate() {
    let spans = format_code("Tick `Met Conrad` and `Charmed him`");
    assert_eq!(
        spans,
        vec![("Tick ", false), ("Met Conrad", true), (" and ", false), ("Charmed him", true), ("", false)]
    );
    assert_eq!(format_code("plain"), vec![("plain", false)]);
}

#[test]
fn split_keeps_empty_pieces() {
    assert_eq!(split_text("a,,b,", ','), vec!["a", "", "b", ""]);
    assert_eq!(split_text("", ','), vec![""]);
}

#[test]
fn changelog_versions_and_changes() {
    let file = "## 2.0\n- Added ME3\n* Fixed a bug\n\n## 1.0\n- First\n";
    let log = parse_changelog(file);
    assert_eq!(log, vec![("2.0", vec!["Added ME3", "Fixed a bug"]), ("1.0", vec!["First"])]);
}

#[test]
fn changelog_skips_other_lines() {
    let log = parse_changelog("# Title here\n## 0.1\nsome text\n- change\n");
    assert_eq!(log, vec![("0.1", vec!["change"])]);
}
