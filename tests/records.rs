use sie4::field::{ChartAccountsType, FormatType, TypeNo};
use sie4::item::{
    Adress, BKod, FNamn, Flagga, Format, Gen, Ib, Konto, KpTyp, Orgnr, Program, Rar, Res, SieTyp,
    Ub,
};
use sie4::{Amount, Blame, Date, Group, Item, Kind, Parsed};

fn one(input: &[u8]) -> Item {
    Item::parse(input).value().unwrap()
}

#[test]
fn every_kind_decodes() {
    assert_eq!(one(b"#FLAGGA 0\n"), Item::Flagga(Flagga { read: false }));
    assert_eq!(
        one(b"#PROGRAM \"Vi iMproved\" 9.0\n"),
        Item::Program(Program { name: "Vi iMproved".to_owned(), version: "9.0".to_owned() })
    );
    assert_eq!(one(b"#FORMAT PC8\n"), Item::Format(Format { format: FormatType::PC8 }));
    assert_eq!(
        one(b"#GEN 20230401 \"Anna\"\n"),
        Item::Gen(Gen {
            date: Date { year: 2023, month: 4, day: 1 },
            signature: Some("Anna".to_owned())
        })
    );
    assert_eq!(
        one(b"#GEN 20230401\n"),
        Item::Gen(Gen { date: Date { year: 2023, month: 4, day: 1 }, signature: None })
    );
    assert_eq!(one(b"#SIETYP 4\n"), Item::SieTyp(SieTyp { no: TypeNo::SIE4 }));
    assert_eq!(one(b"#ORGNR 555555-5555\n"), Item::Orgnr(Orgnr { org_no: "555555-5555".to_owned() }));
    assert_eq!(one(b"#BKOD 62010\n"), Item::BKod(BKod { sni: "62010".to_owned() }));
    assert_eq!(
        one(b"#ADRESS \"Anna\" \"Gatan 1\" \"123 45 Staden\" \"070-123\"\n"),
        Item::Adress(Adress {
            contact: "Anna".to_owned(),
            distribution_address: "Gatan 1".to_owned(),
            postal_address: "123 45 Staden".to_owned(),
            phone: "070-123".to_owned(),
        })
    );
    assert_eq!(one(b"#FNAMN \"Bolaget AB\"\n"), Item::FNamn(FNamn { name: "Bolaget AB".to_owned() }));
    assert_eq!(
        one(b"#RAR 0 20230101 20231231\n"),
        Item::Rar(Rar {
            no: 0,
            start: Date { year: 2023, month: 1, day: 1 },
            end: Date { year: 2023, month: 12, day: 31 },
        })
    );
    assert_eq!(
        one(b"#RAR -1 20220101 20221231\n"),
        Item::Rar(Rar {
            no: -1,
            start: Date { year: 2022, month: 1, day: 1 },
            end: Date { year: 2022, month: 12, day: 31 },
        })
    );
    assert_eq!(one(b"#KPTYP EUBAS97\n"), Item::KpTyp(KpTyp { typ: ChartAccountsType::EuBas97 }));
    assert_eq!(one(b"#KPTYP NE2007\n"), Item::KpTyp(KpTyp { typ: ChartAccountsType::Ne2007 }));
    assert_eq!(
        one(b"#KONTO 1930 Bank\n"),
        Item::Konto(Konto { no: 1930, name: "Bank".to_owned() })
    );
    let bal = Amount { mantissa: 1250050, scale: 2 };
    assert_eq!(
        one(b"#IB 0 1930 12500.50\n"),
        Item::Ib(Ib { year: 0, account: 1930, balance: bal, quantity: None })
    );
    assert_eq!(
        one(b"#UB 0 1930 12500.50 3\n"),
        Item::Ub(Ub { year: 0, account: 1930, balance: bal, quantity: Some("3".to_owned()) })
    );
    assert_eq!(
        one(b"#RES -1 3010 -12500.50\n"),
        Item::Res(Res {
            year: -1,
            account: 3010,
            balance: Amount { mantissa: -1250050, scale: 2 },
            quantity: None
        })
    );
    match one(b"#VALUTA SEK\n") {
        Item::Valuta(v) => assert_eq!(v.currency.code(), "SEK"),
        other => panic!("{other:?}"),
    }
}

#[test]
fn account_record_consumes_through_its_last_field() {
    let input = b"#KONTO 1220 \"Inventarier och verktyg\"\n#KONTO 1221 x\n";
    let r = Item::parse(input);
    assert_eq!(r.end(), Some(37));
    assert_eq!(
        r.value().unwrap(),
        Item::Konto(Konto { no: 1220, name: "Inventarier och verktyg".to_owned() })
    );
}

#[test]
fn leading_separators_are_skipped() {
    assert_eq!(
        one(b"\r\n \t#FLAGGA 1\n"),
        Item::Flagga(Flagga { read: true })
    );
}

#[test]
fn groups_of_kinds() {
    assert_eq!(one(b"#FLAGGA 0\n").group(), Group::Flag);
    assert_eq!(one(b"#FNAMN x\n").group(), Group::Identification);
    assert_eq!(one(b"#KONTO 1 x\n").group(), Group::Account);
    assert_eq!(one(b"#UB 0 1 1.0\n").group(), Group::Balance);
    assert_eq!(one(b"#KONTO 1 x\n").kind(), Kind::Konto);
    assert_eq!(Group::Flag.order(), 0);
    assert_eq!(Group::Balance.order(), 3);
}

#[test]
fn unknown_and_lower_case_tags_are_errors() {
    assert!(matches!(Item::parse(b"#BOGUS 1\n"), Parsed::Error(_)));
    assert!(matches!(Item::parse(b"#konto 1 x\n"), Parsed::Error(_)));
    assert!(matches!(Item::parse(b"KONTO 1 x\n"), Parsed::Error(_)));
}

#[test]
fn short_input_asks_for_more() {
    assert_eq!(Item::parse(b""), Parsed::Incomplete);
    assert_eq!(Item::parse(b"  \n"), Parsed::Incomplete);
    assert_eq!(Item::parse(b"#KON"), Parsed::Incomplete);
    assert_eq!(Item::parse(b"#KONTO 1220 \"Inv"), Parsed::Incomplete);
    assert_eq!(Item::parse(b"#VER A 1 20230101\n{\n#TRANS 1 {} 1.00\n"), Parsed::Incomplete);
}

#[test]
fn failure_names_record_and_field() {
    assert_eq!(
        Item::parse(b"#KONTO x \"a\"\n"),
        Parsed::Error(Blame { record: Some(Kind::Konto), field: Some(0) })
    );
    assert_eq!(
        Item::parse(b"#GEN 20231301\n"),
        Parsed::Failure(Blame { record: Some(Kind::Gen), field: Some(0) })
    );
    assert_eq!(
        Item::parse(b"#VER A 1 20230101\n{\n#TRANS 1 {} x\n}\n"),
        Parsed::Failure(Blame { record: Some(Kind::Trans), field: Some(2) })
    );
    assert_eq!(
        Item::parse(b"#VALUTA BTC\n"),
        Parsed::Failure(Blame { record: Some(Kind::Valuta), field: Some(0) })
    );
}

#[test]
fn nested_records_skip_junk_and_reject_other_tags() {
    match one(b"#VER B 7 20230101\n{\njunk\n  #TRANS 1930 {} 1.00\n\n#TRANS 1931 {} -1.00}\n") {
        Item::Ver(v) => {
            assert_eq!(v.transactions.0.len(), 2);
            assert_eq!(v.transactions.0[1].account, 1931);
            assert_eq!(v.transactions.0[1].amount, Amount { mantissa: -100, scale: 2 });
        },
        other => panic!("{other:?}"),
    }
    assert!(matches!(
        Item::parse(b"#VER B 7 20230101\n{\n#KONTO 1 x\n}\n"),
        Parsed::Failure(_)
    ));
    match one(b"#VER B 7 20230101 {}\n") {
        Item::Ver(v) => assert!(v.transactions.0.is_empty()),
        other => panic!("{other:?}"),
    }
}

#[test]
fn blame_names_the_field() {
    let b = Blame { record: Some(Kind::Trans), field: Some(2) };
    assert_eq!(b.field_name(), Some("amount"));
    assert_eq!(Blame { record: Some(Kind::Konto), field: Some(1) }.field_name(), Some("name"));
    assert_eq!(Blame { record: Some(Kind::Konto), field: Some(2) }.field_name(), None);
    assert_eq!(Blame { record: None, field: Some(0) }.field_name(), None);
    assert_eq!(Kind::Ver.field_name(6), Some("transactions"));
}

#[test]
fn body_of_a_given_kind() {
    assert_eq!(
        Item::parse_item(Kind::Konto, b" 1930 Bank\n").value().unwrap(),
        Item::Konto(Konto { no: 1930, name: "Bank".to_owned() })
    );
    assert_eq!(
        Item::parse_item(Kind::Flagga, b" 1\n").value().unwrap(),
        Item::Flagga(Flagga { read: true })
    );
    assert!(matches!(Item::parse_item(Kind::Flagga, b" 10\n"), Parsed::Error(_)));
}
