use hilite::color::{parse_color, Color};
use hilite::config::{Config, ConfigError};
use hilite::render::colorize;

#[test]
fn every_recognized_name_parses() {
    let cases: Vec<(&str, Color)> = vec![
        ("red", Color::Red),
        ("green", Color::Green),
        ("blue", Color::Blue),
        ("yellow", Color::Yellow),
        ("magenta", Color::Magenta),
        ("cyan", Color::Cyan),
        ("white", Color::White),
    ];
    for (name, color) in cases {
        assert_eq!(parse_color(&name.as_bytes().to_vec()), Some(color));
    }
}

#[test]
fn unknown_names_do_not_parse() {
    assert_eq!(parse_color(&b"orange".to_vec()), None);
    assert_eq!(parse_color(&b"RED".to_vec()), None);
    assert_eq!(parse_color(&b"".to_vec()), None);
    assert_eq!(parse_color(&b"redd".to_vec()), None);
}

#[test]
fn config_accepts_recognized_color() {
    let cfg = Config::new(b"apple".to_vec(), &b"cyan".to_vec(), true).unwrap();
    assert_eq!(cfg.pattern, b"apple".to_vec());
    assert_eq!(cfg.color, Color::Cyan);
    assert!(cfg.line_number);
}

#[test]
fn config_rejects_unknown_color() {
    let err = Config::new(b"apple".to_vec(), &b"mauve".to_vec(), false).unwrap_err();
    assert_eq!(err, ConfigError::UnknownColor);
}

#[test]
fn colorize_wraps_every_occurrence() {
    colored::control::set_override(true);
    let out = colorize(&b"an apple is an apple".to_vec(), &b"apple".to_vec(), Color::Blue);
    assert_eq!(
        out,
        "an \x1b[34mapple\x1b[0m is an \x1b[34mapple\x1b[0m".as_bytes().to_vec()
    );
}

#[test]
fn colorize_uses_the_chosen_color_code() {
    colored::control::set_override(true);
    let word = b"hit".to_vec();
    let cases: Vec<(Color, &str)> = vec![
        (Color::Red, "\x1b[31mhit\x1b[0m"),
        (Color::Green, "\x1b[32mhit\x1b[0m"),
        (Color::Yellow, "\x1b[33mhit\x1b[0m"),
        (Color::Blue, "\x1b[34mhit\x1b[0m"),
        (Color::Magenta, "\x1b[35mhit\x1b[0m"),
        (Color::Cyan, "\x1b[36mhit\x1b[0m"),
        (Color::White, "\x1b[37mhit\x1b[0m"),
    ];
    for (color, expected) in cases {
        assert_eq!(colorize(&word, &word, color), expected.as_bytes().to_vec());
    }
}

#[test]
fn colorize_with_colors_disabled_is_identity() {
    colored::control::set_override(false);
    let line = b"an apple is an apple".to_vec();
    assert_eq!(colorize(&line, &b"apple".to_vec(), Color::Red), line);
}

#[test]
fn colorize_with_empty_pattern_is_identity() {
    colored::control::set_override(true);
    let line = b"apple pie".to_vec();
    assert_eq!(colorize(&line, &b"".to_vec(), Color::Red), line);
}
