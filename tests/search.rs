use mitre_cli::search::{eq_ignore_ascii_case, find_ending_with, find_ignore_case, str_ends_with};

fn keys(v: &[&str]) -> Vec<String> {
    v.iter().map(|s| s.to_string()).collect()
}

#[test]
fn ascii_case_is_ignored() {
    assert!(eq_ignore_ascii_case("ta0001", "TA0001"));
    assert!(eq_ignore_ascii_case("Initial Access", "initial access"));
    assert!(!eq_ignore_ascii_case("T1548", "T1548.002"));
    assert!(!eq_ignore_ascii_case("é", "É"));
    assert!(eq_ignore_ascii_case("", ""));
}

#[test]
fn first_match_ignoring_case_is_found() {
    let k = keys(&["TA0001", "TA0002", "ta0002"]);
    assert_eq!(find_ignore_case(&k, "Ta0002"), Some(1));
    assert_eq!(find_ignore_case(&k, "TA0009"), None);
}

#[test]
fn suffix_match() {
    assert!(str_ends_with("T1548.002", "002"));
    assert!(!str_ends_with("02", "002"));
    let k = keys(&["T1548.001", "T1548.002"]);
    assert_eq!(find_ending_with(&k, "002"), Some(1));
    assert_eq!(find_ending_with(&k, "003"), None);
}

#[test]
fn error_message_names_kind_and_text() {
    let e = mitre_cli::error::Error::Parser("bad row".to_string());
    assert_eq!(e.message(), "Parser(\"bad row\")");
}
