use soundbot::number::parse_i8;
use soundbot::text::{chars_of, is_whitespace, join_range, split_whitespace, string_from_chars};

#[test]
fn whitespace_matches_std() {
    for c in ['a', ' ', '\t', '\n', '\u{85}', '\u{a0}', '\u{2003}', '\u{3000}', '\u{200b}', 'é', '\u{1680}', '\u{202f}'] {
        assert_eq!(is_whitespace(c), c.is_whitespace(), "{:?}", c);
    }
}

#[test]
fn split_whitespace_matches_std() {
    for s in ["", "   ", "a", "  a \t b\nc  ", "$p zewzew", "x\u{3000}y", "héllo wörld"] {
        let ours = split_whitespace(s);
        let std: Vec<String> = s.split_whitespace().map(|w| w.to_string()).collect();
        assert_eq!(ours, std, "{:?}", s);
    }
}

#[test]
fn chars_round_trip() {
    let cs = chars_of("añb");
    assert_eq!(cs, vec!['a', 'ñ', 'b']);
    assert_eq!(string_from_chars(&cs, 1, 3), "ñb");
    assert_eq!(string_from_chars(&cs, 0, 0), "");
}

#[test]
fn join_with_separator() {
    let parts = vec!["a".to_string(), "b".to_string(), "c".to_string()];
    assert_eq!(join_range(&parts, 0, 3, ", "), "a, b, c");
    assert_eq!(join_range(&parts, 1, 3, " "), "b c");
    assert_eq!(join_range(&parts, 2, 2, " "), "");
}

#[test]
fn parse_i8_matches_std() {
    for s in ["5", "+7", "-128", "127", "128", "-129", "", "+", "-", "1a", "0010", "٣", " 1", "-0", "99999999999"] {
        assert_eq!(parse_i8(s), s.parse::<i8>().ok(), "{:?}", s);
    }
}
