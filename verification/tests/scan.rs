use hilite::color::Color;
use hilite::render::{find_matches, find_matches_painted};

fn to_lines(ls: &[&str]) -> Vec<Vec<u8>> {
    ls.iter().map(|s| s.as_bytes().to_vec()).collect()
}

#[test]
fn two_of_three_lines_match() {
    colored::control::set_override(true);
    let lines = to_lines(&["apple pie", "banana", "apple tart"]);
    let out = find_matches(&lines, &b"apple".to_vec(), Color::Red, false);
    assert_eq!(out.len(), 2);
    assert_eq!(out[0], "\x1b[31mapple\x1b[0m pie".as_bytes().to_vec());
    assert_eq!(out[1], "\x1b[31mapple\x1b[0m tart".as_bytes().to_vec());
}

#[test]
fn line_numbers_are_one_based_and_padded() {
    colored::control::set_override(true);
    let lines = to_lines(&["apple pie", "banana", "apple tart"]);
    let out = find_matches(&lines, &b"apple".to_vec(), Color::Red, true);
    assert_eq!(out.len(), 2);
    assert!(out[0].starts_with(b" 1: "));
    assert!(out[1].starts_with(b" 3: "));
    assert_eq!(out[0], " 1: \x1b[31mapple\x1b[0m pie".as_bytes().to_vec());
    assert_eq!(out[1], " 3: \x1b[31mapple\x1b[0m tart".as_bytes().to_vec());
}

#[test]
fn colors_disabled_leaves_lines_unchanged() {
    colored::control::set_override(false);
    let lines = to_lines(&["apple pie", "banana", "apple tart"]);
    let out = find_matches(&lines, &b"apple".to_vec(), Color::Red, false);
    assert_eq!(out, to_lines(&["apple pie", "apple tart"]));
}

#[test]
fn empty_file_gives_no_output() {
    colored::control::set_override(true);
    let lines: Vec<Vec<u8>> = Vec::new();
    let out = find_matches(&lines, &b"apple".to_vec(), Color::Red, false);
    assert!(out.is_empty());
}

#[test]
fn no_matching_line_gives_no_output() {
    colored::control::set_override(true);
    let lines = to_lines(&["banana", "cherry"]);
    let out = find_matches(&lines, &b"apple".to_vec(), Color::Red, true);
    assert!(out.is_empty());
}

#[test]
fn empty_pattern_emits_every_line_unchanged() {
    colored::control::set_override(true);
    let lines = to_lines(&["apple pie", "", "banana"]);
    let out = find_matches(&lines, &b"".to_vec(), Color::Red, false);
    assert_eq!(out, lines);
}

#[test]
fn painted_form_replaces_every_occurrence() {
    let lines = to_lines(&["aXaXa", "none"]);
    let out = find_matches_painted(&lines, &b"a".to_vec(), &b"bb".to_vec(), false);
    assert_eq!(out, to_lines(&["bbXbbXbb"]));
}

#[test]
fn occurrences_do_not_overlap() {
    let lines = to_lines(&["aaa"]);
    let out = find_matches_painted(&lines, &b"aa".to_vec(), &b"Z".to_vec(), false);
    assert_eq!(out, to_lines(&["Za"]));
}

#[test]
fn scan_is_idempotent_on_same_inputs() {
    colored::control::set_override(true);
    let lines = to_lines(&["apple pie", "banana", "apple tart"]);
    let first = find_matches(&lines, &b"apple".to_vec(), Color::Green, true);
    let second = find_matches(&lines, &b"apple".to_vec(), Color::Green, true);
    assert_eq!(first, second);
}

#[test]
fn output_keeps_file_order() {
    let lines = to_lines(&["b one", "a two", "b three", "a four", "b five"]);
    let out = find_matches_painted(&lines, &b"b".to_vec(), &b"b".to_vec(), true);
    assert_eq!(
        out,
        to_lines(&[" 1: b one", " 3: b three", " 5: b five"])
    );
}
