use sie4::field::{amount, currency_code, parse_leaf, parse_scalar, AtomVal, FieldKind, FieldVal, Scalar};
use sie4::{Amount, Parsed};

#[test]
fn currency_codes() {
    assert_eq!(currency_code(b"SEK").unwrap().code(), "SEK");
    assert_eq!(currency_code(b"EUR").unwrap().code(), "EUR");
    assert!(currency_code(b"BTC").is_none());
    assert!(currency_code(b"sek").is_none());
}

#[test]
fn amounts() {
    assert_eq!(amount(b"-72.00"), Some(Amount { mantissa: -7200, scale: 2 }));
    assert_eq!(amount(b"583.52"), Some(Amount { mantissa: 58352, scale: 2 }));
    assert_eq!(amount(b"100"), Some(Amount { mantissa: 100, scale: 0 }));
    assert_eq!(amount(b"1.5x"), None);
}

#[test]
fn amount_field_is_hard_error_when_malformed() {
    let r = parse_scalar(Scalar::Amount, b"12,5 ", 0, false);
    assert!(matches!(r, Parsed::Failure(_)));
}

#[test]
fn integers() {
    assert_eq!(parse_scalar(Scalar::Uint, b"1930 ", 0, false), Parsed::Done(AtomVal::Uint(1930), 4));
    assert_eq!(
        parse_scalar(Scalar::Uint, b"4294967295 ", 0, false),
        Parsed::Done(AtomVal::Uint(4294967295), 10)
    );
    assert!(matches!(parse_scalar(Scalar::Uint, b"4294967296 ", 0, false), Parsed::Failure(_)));
    assert!(matches!(parse_scalar(Scalar::Uint, b"-1 ", 0, false), Parsed::Failure(_)));
    assert_eq!(parse_scalar(Scalar::Int, b"-1 ", 0, false), Parsed::Done(AtomVal::Int(-1), 2));
    assert_eq!(
        parse_scalar(Scalar::Int, b"-2147483648 ", 0, false),
        Parsed::Done(AtomVal::Int(-2147483648), 11)
    );
    assert!(matches!(parse_scalar(Scalar::Int, b"2147483648 ", 0, false), Parsed::Failure(_)));
    assert!(matches!(parse_scalar(Scalar::Int, b"-x ", 0, false), Parsed::Error(_)));
    assert_eq!(parse_scalar(Scalar::Int, b"12", 0, false), Parsed::Incomplete);
    assert_eq!(parse_scalar(Scalar::Int, b"12", 0, true), Parsed::Done(AtomVal::Int(12), 2));
}

#[test]
fn flags() {
    assert_eq!(parse_scalar(Scalar::Flag, b"0\n", 0, false), Parsed::Done(AtomVal::Flag(false), 1));
    assert_eq!(parse_scalar(Scalar::Flag, b"1\n", 0, false), Parsed::Done(AtomVal::Flag(true), 1));
    assert!(matches!(parse_scalar(Scalar::Flag, b"2\n", 0, false), Parsed::Error(_)));
    assert_eq!(parse_scalar(Scalar::Flag, b"", 0, false), Parsed::Incomplete);
}

#[test]
fn lists_of_strings() {
    assert_eq!(
        parse_leaf(FieldKind::List, b"{1 \"456\"\t7 \"789\"} x", 0, false),
        Parsed::Done(
            FieldVal::List(vec![
                "1".to_owned(),
                "456".to_owned(),
                "7".to_owned(),
                "789".to_owned()
            ]),
            17
        )
    );
    assert_eq!(
        parse_leaf(FieldKind::List, b"{ } x", 0, false),
        Parsed::Done(FieldVal::List(vec![]), 3)
    );
    assert!(matches!(parse_leaf(FieldKind::List, b"{a {b}} x", 0, false), Parsed::Failure(_)));
    assert_eq!(parse_leaf(FieldKind::List, b"{a b", 0, false), Parsed::Incomplete);
}

#[test]
fn optional_text_absent_before_line_break() {
    assert_eq!(
        parse_leaf(FieldKind::Maybe(Scalar::Text), b"\n#X", 0, false),
        Parsed::Done(FieldVal::Maybe(None), 0)
    );
}

#[test]
fn list_from_vec_keeps_order() {
    let l = sie4::List::from(vec!["b".to_owned(), "a".to_owned()]);
    assert_eq!(l.0, vec!["b".to_owned(), "a".to_owned()]);
    assert_eq!(sie4::List::<String>::default().0.len(), 0);
}

#[test]
fn integer_shape_and_value() {
    let k = FieldKind::Maybe(Scalar::Int);
    assert!(matches!(parse_leaf(k, b"3000000000 ", 0, false), Parsed::Failure(_)));
    assert_eq!(parse_leaf(k, b"\"x\" ", 0, false), Parsed::Done(FieldVal::Maybe(None), 0));
    assert_eq!(parse_leaf(k, b"-x ", 0, false), Parsed::Done(FieldVal::Maybe(None), 0));
}

#[test]
fn flags_are_whole_tokens() {
    assert!(matches!(parse_scalar(Scalar::Flag, b"10 ", 0, false), Parsed::Error(_)));
    assert!(matches!(parse_scalar(Scalar::Flag, b"2 ", 0, false), Parsed::Error(_)));
    assert_eq!(parse_scalar(Scalar::Flag, b"1", 0, false), Parsed::Incomplete);
    assert_eq!(parse_scalar(Scalar::Flag, b"1", 0, true), Parsed::Done(AtomVal::Flag(true), 1));
    assert_eq!(parse_scalar(Scalar::Flag, b"1#", 0, false), Parsed::Done(AtomVal::Flag(true), 1));
}

#[test]
fn literals_are_whole_tokens() {
    assert!(matches!(parse_scalar(Scalar::Format, b"PC80 ", 0, false), Parsed::Error(_)));
    assert!(matches!(parse_scalar(Scalar::Chart, b"BAS950 ", 0, false), Parsed::Error(_)));
    assert!(matches!(parse_scalar(Scalar::TypeNo, b"40 ", 0, false), Parsed::Error(_)));
    assert_eq!(parse_scalar(Scalar::TypeNo, b"4", 0, false), Parsed::Incomplete);
    assert_eq!(
        parse_scalar(Scalar::Chart, b"BAS96\n", 0, false),
        Parsed::Done(AtomVal::Chart(sie4::field::ChartAccountsType::Bas96), 5)
    );
}
