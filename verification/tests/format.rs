use hilite::color::Color;
use hilite::render::{colorize, line_number_prefix, find_matches};
use hilite::search::{contains_bytes, replace_bytes};
use hilite::strip::strip_ansi_bytes;

#[test]
fn prefix_is_right_aligned_to_width_two() {
    assert_eq!(line_number_prefix(1), b" 1: ".to_vec());
    assert_eq!(line_number_prefix(9), b" 9: ".to_vec());
    assert_eq!(line_number_prefix(10), b"10: ".to_vec());
    assert_eq!(line_number_prefix(42), b"42: ".to_vec());
    assert_eq!(line_number_prefix(123), b"123: ".to_vec());
}

#[test]
fn containment_is_exact_and_case_sensitive() {
    assert!(contains_bytes(&b"apple pie".to_vec(), &b"apple".to_vec()));
    assert!(contains_bytes(&b"apple pie".to_vec(), &b"le p".to_vec()));
    assert!(!contains_bytes(&b"apple pie".to_vec(), &b"Apple".to_vec()));
    assert!(!contains_bytes(&b"app".to_vec(), &b"apple".to_vec()));
    assert!(contains_bytes(&b"".to_vec(), &b"".to_vec()));
    assert!(contains_bytes(&b"anything".to_vec(), &b"".to_vec()));
}

#[test]
fn replace_substitutes_left_to_right() {
    assert_eq!(
        replace_bytes(&b"one two one".to_vec(), &b"one".to_vec(), &b"1".to_vec()),
        b"1 two 1".to_vec()
    );
    assert_eq!(
        replace_bytes(&b"aaa".to_vec(), &b"aa".to_vec(), &b"Z".to_vec()),
        b"Za".to_vec()
    );
    assert_eq!(
        replace_bytes(&b"plain".to_vec(), &b"x".to_vec(), &b"y".to_vec()),
        b"plain".to_vec()
    );
}

#[test]
fn replace_with_empty_pattern_is_identity() {
    assert_eq!(
        replace_bytes(&b"apple".to_vec(), &b"".to_vec(), &b"zz".to_vec()),
        b"apple".to_vec()
    );
}

#[test]
fn stripping_escapes_recovers_the_line() {
    colored::control::set_override(true);
    let line = b"apple pie with apple".to_vec();
    let colorized = colorize(&line, &b"apple".to_vec(), Color::Magenta);
    assert_ne!(colorized, line);
    assert_eq!(strip_ansi_bytes(&colorized), line);
}

#[test]
fn stripping_a_numbered_record_recovers_prefix_and_line() {
    colored::control::set_override(true);
    let lines = vec![b"apple tart".to_vec()];
    let out = find_matches(&lines, &b"tart".to_vec(), Color::Cyan, true);
    assert_eq!(out.len(), 1);
    let stripped = strip_ansi_bytes(&out[0]);
    assert_eq!(stripped, b" 1: apple tart".to_vec());
    assert_eq!(stripped[4..].to_vec(), b"apple tart".to_vec());
}

#[test]
fn strip_leaves_escape_free_text_alone() {
    let plain = b"no escapes here".to_vec();
    assert_eq!(strip_ansi_bytes(&plain), plain);
}
