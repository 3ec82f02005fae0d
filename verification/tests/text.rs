use nordlayer_kde::text::{
    char_is_whitespace, char_to_lower, chars_of, line_spans, span_contains_folded_str,
    span_find_char, span_string, trim_span,
};

fn lines_via_spans(s: &str) -> Vec<String> {
    let v = chars_of(s);
    line_spans(&v).into_iter().map(|(a, b)| span_string(s, &v, a, b)).collect()
}

fn trim_via_span(s: &str) -> String {
    let v = chars_of(s);
    let (a, b) = trim_span(&v, 0, v.len());
    span_string(s, &v, a, b)
}

#[test]
fn whitespace_matches_std_for_every_char() {
    for c in (0u32..=0x10FFFF).filter_map(char::from_u32) {
        assert_eq!(char_is_whitespace(c), c.is_whitespace(), "{:?}", c);
    }
}

#[test]
fn lowercase_matches_std_for_every_char() {
    for c in (0u32..=0x10FFFF).filter_map(char::from_u32) {
        assert_eq!(char_to_lower(c), c.to_ascii_lowercase(), "{:?}", c);
    }
}

#[test]
fn lines_match_std() {
    let samples = [
        "", "\n", "a", "a\n", "a\r\n", "a\r", "\r\n", "a\n\nb", "a\r\nb\r\n", "x\ry\nz", "\n\n",
        "één\ntwee\r\ndrie", "tail\r\r\n",
    ];
    for s in samples {
        let expected: Vec<String> = s.lines().map(|l| l.to_string()).collect();
        assert_eq!(lines_via_spans(s), expected, "{:?}", s);
    }
}

#[test]
fn trim_matches_std() {
    let samples = ["", "  ", " a ", "\u{a0}b\u{3000}", "\t\r\nc d\u{2028}", "\u{200b}e", "é"];
    for s in samples {
        assert_eq!(trim_via_span(s), s.trim(), "{:?}", s);
    }
}

#[test]
fn folded_search_and_char_search() {
    let v = chars_of("Status: NOT Logged In");
    assert!(span_contains_folded_str(&v, 0, v.len(), "not logged in"));
    assert!(!span_contains_folded_str(&v, 0, 10, "not logged in"));
    assert!(span_contains_folded_str(&v, 3, 3, ""));
    assert_eq!(span_find_char(&v, 0, v.len(), ':'), Some(6));
    assert_eq!(span_find_char(&v, 7, v.len(), ':'), None);
}
