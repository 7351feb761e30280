use std::str::FromStr;

use levelspec::token::chartest;
use levelspec::{Level, LevelSpec, LevelSpecError};

fn shot(a: &str, b: &str, c: &str) -> LevelSpec {
    LevelSpec::Shot {
        show: a.to_string(),
        sequence: b.to_string(),
        shot: c.to_string(),
    }
}

fn sequence(a: &str, b: &str) -> LevelSpec {
    LevelSpec::Sequence {
        show: a.to_string(),
        sequence: b.to_string(),
    }
}

fn show(a: &str) -> LevelSpec {
    LevelSpec::Show { show: a.to_string() }
}

fn is_invalid_input<T>(r: &Result<T, LevelSpecError>) -> bool {
    matches!(r, Err(LevelSpecError::InvalidInputError(_)))
}

fn bad_chars<T>(r: &Result<T, LevelSpecError>) -> Option<String> {
    match r {
        Err(LevelSpecError::InvalidCharactersInInput(t)) => Some(t.clone()),
        _ => None,
    }
}

#[test]
fn can_generate_levelspec_from_new() {
    let ls = LevelSpec::new(Some("dev01"), None, None);
    assert!(ls.is_ok());
    let ls = LevelSpec::new(Some("dev01"), Some("rd"), None);
    assert!(ls.is_ok());
}

#[test]
fn can_init_from_str() {
    let ls = LevelSpec::from_str("DEV012.RD.9999");
    assert!(ls.is_ok());
    let expect = LevelSpec::Shot {
        show: "DEV012".to_string(),
        sequence: "RD".to_string(),
        shot: "9999".to_string(),
    };
    assert_eq!(ls.unwrap(), expect);
}

#[test]
fn can_construct_show() {
    let ls = LevelSpec::from_show("dev01".to_string());
    let expected = LevelSpec::Show {
        show: "dev01".to_string(),
    };
    assert_eq!(ls, expected);
}

#[test]
fn new_builds_each_depth() {
    assert_eq!(LevelSpec::new(Some("A"), None, None).unwrap(), show("A"));
    assert_eq!(LevelSpec::new(Some("A"), Some("B"), None).unwrap(), sequence("A", "B"));
    assert_eq!(LevelSpec::new(Some("A"), Some("B"), Some("C")).unwrap(), shot("A", "B", "C"));
}

#[test]
fn new_rejects_gaps() {
    assert!(is_invalid_input(&LevelSpec::new(Some("A"), None, Some("C"))));
    assert!(is_invalid_input(&LevelSpec::new(None, Some("B"), None)));
    assert!(is_invalid_input(&LevelSpec::new(None, None, None)));
    assert!(is_invalid_input(&LevelSpec::new(None, Some("B"), Some("C"))));
}

#[test]
fn new_does_not_check_characters() {
    assert_eq!(LevelSpec::new(Some("DEV-01"), None, None).unwrap(), show("DEV-01"));
}

#[test]
fn values_as_read_from_environment_make_a_sequence() {
    let shot_value: Option<String> = None;
    let ls = LevelSpec::new(Some("DEV01"), Some("RD"), shot_value.as_deref());
    assert_eq!(ls.unwrap(), sequence("DEV01", "RD"));
}

#[test]
fn arity_determines_variant() {
    assert_eq!(LevelSpec::parse("A").unwrap(), show("A"));
    assert_eq!(LevelSpec::parse("A.B").unwrap(), sequence("A", "B"));
    assert_eq!(LevelSpec::parse("A.B.C").unwrap(), shot("A", "B", "C"));
}

#[test]
fn dash_is_rejected_with_its_segment() {
    let r = LevelSpec::parse("DEV-01");
    assert_eq!(bad_chars(&r), Some("DEV-01".to_string()));
}

#[test]
fn space_is_rejected_with_its_segment() {
    let r = LevelSpec::parse("DEV01.R D");
    assert_eq!(bad_chars(&r), Some("R D".to_string()));
}

#[test]
fn first_bad_segment_is_reported() {
    let r = LevelSpec::parse("A.B-C.D E");
    assert_eq!(bad_chars(&r), Some("B-C".to_string()));
}

#[test]
fn characters_are_checked_before_arity() {
    let r = LevelSpec::parse("A.B.C.D/E");
    assert_eq!(bad_chars(&r), Some("D/E".to_string()));
}

#[test]
fn non_ascii_letter_is_rejected() {
    let r = LevelSpec::parse("caf\u{e9}");
    assert_eq!(bad_chars(&r), Some("caf\u{e9}".to_string()));
}

#[test]
fn empty_input_is_invalid() {
    assert!(is_invalid_input(&LevelSpec::parse("")));
}

#[test]
fn four_segments_are_invalid() {
    assert!(is_invalid_input(&LevelSpec::parse("A.B.C.D")));
}

#[test]
fn empty_segments_are_invalid() {
    assert!(is_invalid_input(&LevelSpec::parse("A..B")));
    assert!(is_invalid_input(&LevelSpec::parse("A.")));
    assert!(is_invalid_input(&LevelSpec::parse(".A")));
    assert!(is_invalid_input(&LevelSpec::parse(".")));
}

#[test]
fn underscore_and_digits_are_allowed() {
    assert_eq!(LevelSpec::parse("dev_01.rd.0001").unwrap(), shot("dev_01", "rd", "0001"));
}

#[test]
fn render_then_parse_round_trips() {
    for v in [show("DEV01"), sequence("DEV01", "RD"), shot("DEV01", "RD", "0001")] {
        let text = v.render();
        assert_eq!(LevelSpec::parse(&text).unwrap(), v);
    }
}

#[test]
fn render_gives_canonical_text() {
    assert_eq!(show("DEV01").render(), "DEV01");
    assert_eq!(sequence("DEV01", "RD").render(), "DEV01.RD");
    assert_eq!(shot("DEV01", "RD", "0001").render(), "DEV01.RD.0001");
}

#[test]
fn sorting_orders_by_depth() {
    let mut v = vec![shot("A", "B", "C"), sequence("A", "B"), show("A")];
    v.sort();
    assert_eq!(v, vec![show("A"), sequence("A", "B"), shot("A", "B", "C")]);
    assert!(show("B") < sequence("A", "A"));
    assert!(sequence("A", "B") < sequence("A", "C"));
    assert!(shot("A", "B", "C") < shot("B", "A", "A"));
}

#[test]
fn accessors_cover_every_depth() {
    let a = show("S");
    let b = sequence("S", "Q");
    let c = shot("S", "Q", "T");
    assert_eq!(a.show(), "S");
    assert_eq!(b.show(), "S");
    assert_eq!(c.show(), "S");
    assert_eq!(a.sequence(), None);
    assert_eq!(b.sequence(), Some("Q".to_string()));
    assert_eq!(c.sequence(), Some("Q".to_string()));
    assert_eq!(a.shot(), None);
    assert_eq!(b.shot(), None);
    assert_eq!(c.shot(), Some("T".to_string()));
}

#[test]
fn level_is_the_same_type() {
    let l: Level = Level::from_show("DEV01".to_string());
    assert_eq!(l.show(), "DEV01");
}

#[test]
fn chartest_passes_clean_segments_through() {
    assert_eq!(chartest("RD_01").unwrap(), "RD_01");
    assert_eq!(chartest("").unwrap(), "");
    assert_eq!(bad_chars(&chartest("R.D")), Some("R.D".to_string()));
}

#[test]
fn error_message_carries_segment() {
    let e = LevelSpec::parse("a b").unwrap_err();
    assert_eq!(e.message(), "a b");
    let e = LevelSpec::parse("").unwrap_err();
    assert!(!e.message().is_empty());
}

#[test]
fn from_str_matches_parse_on_errors() {
    assert!(is_invalid_input(&LevelSpec::from_str("")));
    assert!(is_invalid_input(&LevelSpec::from_str("A..B")));
    assert!(is_invalid_input(&LevelSpec::from_str("A.B.C.D")));
    assert_eq!(bad_chars(&LevelSpec::from_str("DEV01.R D")), Some("R D".to_string()));
}
