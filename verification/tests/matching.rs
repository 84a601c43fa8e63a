use pacdump::matcher::Match;
use pacdump::matcher::MatchError;
use pacdump::matcher::normalize_patterns;
use pacdump::matcher::strip_leading_separators;

fn strings(v: &[&str]) -> Vec<String> {
    v.iter().map(|s| s.to_string()).collect()
}

#[test]
fn prefix_on_candidate_is_ignored() {
    let m = Match::new(false, strings(&["foo"])).unwrap();
    assert!(m.is_match("foo"));
    assert!(m.is_match("a/b/foo"));
    assert!(m.is_match("/foo"));
    assert_eq!(m.is_match("a/b/foo"), m.is_match("foo"));
    assert!(!m.is_match("bar"));
    assert!(!m.is_match("a/b/bar"));
}

#[test]
fn empty_candidates_never_match() {
    let m = Match::new(false, strings(&["a"])).unwrap();
    assert!(!m.is_match(""));
    assert!(!m.is_match("a/"));
}

#[test]
fn pattern_with_separator_forces_full_path() {
    let m = Match::new(false, strings(&["usr/bin/foo"])).unwrap();
    assert!(m.is_match("usr/bin/foo"));
    assert!(!m.is_match("foo"));
    assert!(!m.is_match("opt/usr/bin/foo"));
}

#[test]
fn regex_so_versions() {
    let m = Match::new(true, strings(&["\\.so(\\.\\d+)*$"])).unwrap();
    assert!(m.is_match("libfoo.so"));
    assert!(m.is_match("libfoo.so.1"));
    assert!(!m.is_match("libfoo.soz"));
}

#[test]
fn regex_set_any_member_matches() {
    let m = Match::new(true, strings(&["^ab$", "^cd$"])).unwrap();
    assert!(m.is_match("ab"));
    assert!(m.is_match("cd"));
    assert!(!m.is_match("ef"));
}

#[test]
fn malformed_regex_fails_build() {
    let r = Match::new(true, strings(&["foo", "("]));
    assert!(matches!(r, Err(MatchError::InvalidRegex(_))));
}

#[test]
fn literal_patterns_never_fail_build() {
    let r = Match::new(false, strings(&["("]));
    assert!(r.is_ok());
}

#[test]
fn leading_separators_are_stripped() {
    assert_eq!(strip_leading_separators("/usr/bin/foo"), "usr/bin/foo");
    assert_eq!(strip_leading_separators("///a"), "a");
    assert_eq!(strip_leading_separators("plain"), "plain");
    assert_eq!(strip_leading_separators("///"), "");
    let v = normalize_patterns(&strings(&["/foo", "bar"]));
    assert_eq!(v, strings(&["foo", "bar"]));
}
