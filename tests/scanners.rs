use sie4::field::{parse_leaf, FieldKind, FieldVal, Scalar};
use sie4::{
    date, in_curly_braces, is_line_break, is_whitespace, quoted_text, take_until_unbalanced, text,
    unquoted_text, Date, Parsed, Span,
};

#[test]
fn byte_classes() {
    assert!(is_whitespace(b' '));
    assert!(is_whitespace(b'\t'));
    assert!(!is_whitespace(b'\n'));
    assert!(is_line_break(b'\n'));
    assert!(is_line_break(b'\r'));
    assert!(!is_line_break(b' '));
}

#[test]
fn delimiter_scanner_nested() {
    let w = b"<<inside>inside>rest";
    let r = take_until_unbalanced(w, 1, b'<', b'>');
    assert_eq!(r, Parsed::Done(Span { start: 1, end: 15 }, 15));
    assert_eq!(&w[1..15], b"<inside>inside");
    assert_eq!(&w[15..], b">rest");
}

#[test]
fn delimiter_scanner_escaped_close() {
    let w = b"a\\>b>c";
    assert_eq!(
        take_until_unbalanced(w, 0, b'<', b'>'),
        Parsed::Done(Span { start: 0, end: 4 }, 4)
    );
}

#[test]
fn delimiter_scanner_needs_more() {
    assert_eq!(take_until_unbalanced(b"<a>", 0, b'<', b'>'), Parsed::Incomplete);
    assert_eq!(take_until_unbalanced(b"ab\\", 0, b'<', b'>'), Parsed::Incomplete);
    assert_eq!(take_until_unbalanced(b"", 0, b'<', b'>'), Parsed::Incomplete);
}

#[test]
fn curly_braces() {
    assert_eq!(
        in_curly_braces(b"{a {b} c} d", 0, false),
        Parsed::Done(Span { start: 1, end: 8 }, 9)
    );
    assert_eq!(in_curly_braces(b"{a {b}", 0, false), Parsed::Incomplete);
    assert!(matches!(in_curly_braces(b"{a {b}", 0, true), Parsed::Failure(_)));
    assert!(matches!(in_curly_braces(b"x{}", 0, false), Parsed::Error(_)));
}

#[test]
fn quoted_with_escaped_quote() {
    let w = b"\"a\\\"b\" x";
    assert_eq!(quoted_text(w, 0, false), Parsed::Done(Span { start: 1, end: 5 }, 6));
    assert_eq!(text(w, 0, false), Parsed::Done("a\\\"b".to_owned(), 6));
}

#[test]
fn quoted_empty_and_unterminated() {
    assert_eq!(quoted_text(b"\"\" x", 0, false), Parsed::Done(Span { start: 1, end: 1 }, 2));
    assert_eq!(quoted_text(b"\"abc", 0, false), Parsed::Incomplete);
    assert!(matches!(quoted_text(b"\"abc", 0, true), Parsed::Failure(_)));
}

#[test]
fn bad_escape_falls_back_to_bare_token() {
    assert!(matches!(quoted_text(b"\"a\\nb\" x", 0, false), Parsed::Error(_)));
    assert_eq!(text(b"\"a\\nb\" x", 0, false), Parsed::Done("\"a\\nb\"".to_owned(), 6));
}

#[test]
fn unquoted_stops_at_token_end() {
    assert_eq!(unquoted_text(b"abc#d", 0, false), Parsed::Done(Span { start: 0, end: 3 }, 3));
    assert_eq!(unquoted_text(b"abc{", 0, false), Parsed::Done(Span { start: 0, end: 3 }, 3));
    assert_eq!(unquoted_text(b"ab}", 0, false), Parsed::Done(Span { start: 0, end: 2 }, 2));
    assert_eq!(unquoted_text(b"abc", 0, false), Parsed::Incomplete);
    assert_eq!(unquoted_text(b"abc", 0, true), Parsed::Done(Span { start: 0, end: 3 }, 3));
    assert!(matches!(unquoted_text(b" abc", 0, false), Parsed::Error(_)));
}

#[test]
fn text_goes_through_code_page_437() {
    assert_eq!(text(b"\"K\x94p\" ", 0, false), Parsed::Done("K\u{f6}p".to_owned(), 5));
    assert_eq!(text(b"\x8e\x86 ", 0, false), Parsed::Done("\u{c4}\u{e5}".to_owned(), 2));
}

#[test]
fn dates() {
    assert_eq!(date(b"20240229"), Some(Date { year: 2024, month: 2, day: 29 }));
    assert_eq!(date(b"20230229"), None);
    assert_eq!(date(b"20201301"), None);
    assert_eq!(date(b"2023031"), None);
    assert_eq!(date(b"2023a314"), None);
    assert_eq!(date(b"19001231"), Some(Date { year: 1900, month: 12, day: 31 }));
    assert_eq!(date(b"19000229"), None);
    assert_eq!(date(b"20000229"), Some(Date { year: 2000, month: 2, day: 29 }));
}

#[test]
fn optional_date_shapes() {
    let k = FieldKind::Maybe(Scalar::Date);
    assert_eq!(parse_leaf(k, b"\"next\"", 0, false), Parsed::Done(FieldVal::Maybe(None), 0));
    assert!(matches!(parse_leaf(k, b"2020 x", 0, false), Parsed::Failure(_)));
    assert_eq!(parse_leaf(k, b"2020", 0, false), Parsed::Incomplete);
}
