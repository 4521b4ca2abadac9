use mitre_cli::text::{normalize_multiline, remove_ext_link_ref, trim};

#[test]
fn strip_footnote_refs_removes_markers() {
    assert_eq!(
        remove_ext_link_ref("Uses PsExec[1][2] for lateral movement"),
        "Uses PsExec for lateral movement"
    );
}

#[test]
fn strip_footnote_refs_keeps_other_brackets() {
    assert_eq!(
        remove_ext_link_ref("see [a1] and [] and [12x] or [ 3]"),
        "see [a1] and [] and [12x] or [ 3]"
    );
}

#[test]
fn strip_footnote_refs_joins_words_with_single_spaces() {
    assert_eq!(remove_ext_link_ref("  a \n\t b  "), "a b");
    assert_eq!(remove_ext_link_ref("x[1]y [23] z"), "xy z");
}

#[test]
fn strip_footnote_refs_of_empty_text_is_empty() {
    assert_eq!(remove_ext_link_ref(""), "");
    assert_eq!(remove_ext_link_ref("[7]"), "");
}

#[test]
fn normalize_multiline_trims_each_line() {
    assert_eq!(
        normalize_multiline("line one  \n   line two\n"),
        "line one\nline two\n"
    );
}

#[test]
fn normalize_multiline_keeps_single_line_as_is() {
    assert_eq!(normalize_multiline("  padded  "), "  padded  ");
    assert_eq!(normalize_multiline(""), "");
}

#[test]
fn trim_removes_unicode_whitespace_at_both_ends() {
    assert_eq!(trim("\u{a0} x y \n"), "x y");
    assert_eq!(trim("   "), "");
}
