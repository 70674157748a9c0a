use smtmv::error::Error;
use smtmv::escape::{hex_digit_value, unicode_unescape};

#[test]
fn basic_unescapes() {
    assert_eq!(
        unicode_unescape("hello\\u{21}", false).unwrap(),
        "hello!".to_owned()
    );
    assert_eq!(
        unicode_unescape("\\u{1f600}", false).unwrap(),
        "\u{1F600}".to_owned()
    );
    assert_eq!(
        unicode_unescape("\\u1f600", false).unwrap(),
        "\u{1F60}0".to_owned()
    );
}

#[test]
fn smt25_unescapes() {
    assert_eq!(
        unicode_unescape("hello\\x21", true).unwrap(),
        "hello!".to_owned()
    );
    assert_eq!(unicode_unescape("\\x65", true).unwrap(), "e".to_owned());
}

#[test]
fn invalid_escape_sequence1() {
    assert!(matches!(
        unicode_unescape("\\u{}", false),
        Err(Error::MalformedConstant(_))
    ));
}

#[test]
fn tooshort_escape_sequence() {
    assert!(matches!(
        unicode_unescape("\\u12", false),
        Err(Error::MalformedConstant(_))
    ));
}

#[test]
fn nonhex_escape_sequence() {
    assert!(matches!(
        unicode_unescape("\\u{12g}", false),
        Err(Error::MalformedConstant(_))
    ));
}

#[test]
fn smt25_invalid() {
    assert!(matches!(
        unicode_unescape("\\xFG", true),
        Err(Error::MalformedConstant(_))
    ));
}

#[test]
fn legacy_escape_without_legacy_mode_passes_through() {
    assert_eq!(unicode_unescape("hello\\x21", false).unwrap(), "hello\\x21");
    assert_eq!(unicode_unescape("\\x65", false).unwrap(), "\\x65");
    assert_eq!(unicode_unescape("\\x", false).unwrap(), "\\x");
    assert_eq!(unicode_unescape("\\xFG", false).unwrap(), "\\xFG");
    assert_eq!(unicode_unescape("\\x\\u{21}", false).unwrap(), "\\x!");
    assert_eq!(unicode_unescape("\\x21", true).unwrap(), "!");
}

#[test]
fn four_digit_escape_takes_exactly_four() {
    assert_eq!(unicode_unescape("\\u0041", false).unwrap(), "A");
    assert_eq!(unicode_unescape("\\u00412", false).unwrap(), "A2");
    assert_eq!(unicode_unescape("a\\u0041b", true).unwrap(), "aAb");
}

#[test]
fn braced_escape_of_any_length() {
    assert_eq!(unicode_unescape("\\u{0000000041}", false).unwrap(), "A");
    assert_eq!(unicode_unescape("\\u{A}", false).unwrap(), "\n");
    assert_eq!(unicode_unescape("\\u{10FFFF}", false).unwrap(), "\u{10FFFF}");
}

#[test]
fn malformed_escapes_are_refused_with_the_literal() {
    for s in [
        "\\", "a\\", "\\u", "\\u{", "\\u{21", "\\u{110000}", "\\u{D800}", "\\uD800", "\\u{+21}",
        "\\u{FFFFFFFFFFFFFFFFFFFF}", "\\u12G4", "\\u123",
    ] {
        match unicode_unescape(s, false) {
            Err(Error::MalformedConstant(t)) => assert_eq!(t, s),
            other => panic!("{:?} gave {:?}", s, other),
        }
    }
    for s in ["\\x", "\\x1", "\\x1g"] {
        match unicode_unescape(s, true) {
            Err(Error::MalformedConstant(t)) => assert_eq!(t, s),
            other => panic!("{:?} gave {:?}", s, other),
        }
    }
}

#[test]
fn backslash_before_another_character_is_dropped() {
    assert_eq!(unicode_unescape("a\\nb", false).unwrap(), "anb");
    assert_eq!(unicode_unescape("\\\\", false).unwrap(), "\\");
    assert_eq!(unicode_unescape("", true).unwrap(), "");
    assert_eq!(unicode_unescape("plain", true).unwrap(), "plain");
}

#[test]
fn hex_digits() {
    assert_eq!(hex_digit_value('0'), Some(0));
    assert_eq!(hex_digit_value('9'), Some(9));
    assert_eq!(hex_digit_value('a'), Some(10));
    assert_eq!(hex_digit_value('F'), Some(15));
    assert_eq!(hex_digit_value('g'), None);
    assert_eq!(hex_digit_value('+'), None);
}
