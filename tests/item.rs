use sie4::field::{parse_leaf, FieldKind, FieldVal, Scalar};
use sie4::item::{Konto, Trans, Ver};
use sie4::{Amount, Date, Item, List, Parsed, SubItems};

fn date(year: i32, month: u8, day: u8) -> Date {
    Date { year, month, day }
}

fn amount(mantissa: i128, scale: u32) -> Amount {
    Amount { mantissa, scale }
}

#[test]
fn optional() {
    // invalid date
    let r = parse_leaf(FieldKind::Maybe(Scalar::Date), b"20201301 \"next\"", 0, false);
    assert!(matches!(r, Parsed::Failure(_)));

    // missing date
    assert_eq!(
        parse_leaf(FieldKind::Maybe(Scalar::Date), b" \"next\"", 0, false),
        Parsed::Done(FieldVal::Maybe(None), 0)
    );

    // invalid currency
    let r = parse_leaf(FieldKind::Maybe(Scalar::Currency), b"BTC \"next\"", 0, false);
    assert!(matches!(r, Parsed::Failure(_)));
}

#[test]
fn parse_item() {
    assert_eq!(
        Item::parse(b"#KONTO 1220 \"Inventarier och verktyg\"\n")
            .value()
            .unwrap(),
        Item::Konto(Konto {
            no: 1220,
            name: "Inventarier och verktyg".to_owned()
        })
    );

    assert_eq!(
        Item::parse(
            b"#VER A 42 20230314 \"Pi Day\" 20230314
{
    #TRANS 1930 {} -72.00 20230228 \"Pie\"
    #TRANS 4007 {} 72.00 20230228 \"Pie\"
}

# VER A 43"
        )
        .value()
        .unwrap(),
        Item::Ver(Ver {
            series: "A".to_owned(),
            no: 42,
            date: date(2023, 3, 14),
            text: Some("Pi Day".to_owned()),
            reg_date: Some(date(2023, 3, 14)),
            sign: None,
            transactions: SubItems(vec![
                Trans {
                    account: 1930,
                    objects: List(vec![]),
                    amount: amount(-7200, 2),
                    date: Some(date(2023, 2, 28)),
                    text: Some("Pie".to_owned()),
                    quantity: None,
                    signature: None,
                },
                Trans {
                    account: 4007,
                    objects: List(vec![]),
                    amount: amount(7200, 2),
                    date: Some(date(2023, 2, 28)),
                    text: Some("Pie".to_owned()),
                    quantity: None,
                    signature: None,
                }
            ])
        })
    );
}

#[test]
fn parse_transaction() {
    assert_eq!(
        Trans::parse_item(b" 1930 {} 192.00 20230320 \"Stonks\"\n")
            .value()
            .unwrap(),
        Trans {
            account: 1930,
            objects: Default::default(),
            amount: amount(19200, 2),
            date: Some(date(2023, 3, 20)),
            text: Some("Stonks".to_owned()),
            quantity: None,
            signature: None,
        }
    );

    assert_eq!(
        Trans::parse_item(b" 1930 {}\t\t 583.52\n").value().unwrap(),
        Trans {
            account: 1930,
            objects: Default::default(),
            amount: amount(58352, 2),
            date: None,
            text: None,
            quantity: None,
            signature: None,
        }
    );

    assert!(Trans::parse_item(b" 1930 {} 583.52 \"Stonks\"")
        .value()
        .is_none());
}
