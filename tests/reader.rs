use sie4::item::{Flagga, Konto};
use sie4::{Error, Item, Reader, Step};

#[derive(Debug, PartialEq)]
enum Seen {
    Item(Item),
    Io,
    Parse,
    OutOfOrder,
}

/// Pull until the end, handing over the chunks one by one when asked.
fn drain(chunks: &[&[u8]]) -> Vec<Seen> {
    let mut reader = Reader::new();
    let mut next = 0;
    let mut seen = Vec::new();
    loop {
        match reader.next_step() {
            Step::Item(i) => seen.push(Seen::Item(i)),
            Step::Failed(Error::Io(_)) => seen.push(Seen::Io),
            Step::Failed(Error::Parse(_)) => seen.push(Seen::Parse),
            Step::Failed(Error::OutOfOrder) => seen.push(Seen::OutOfOrder),
            Step::NeedBytes => {
                if next < chunks.len() {
                    reader.feed(chunks[next]);
                    next += 1;
                } else {
                    reader.feed(&[]);
                }
            },
            Step::End => return seen,
        }
    }
}

const FILE: &[u8] = b"#FLAGGA 0\r\n#PROGRAM \"SIE\" 1.0\n#FORMAT PC8\n#KONTO 1930 \"F\x94retagskonto\"\n#KONTO 3010 F\x94rs\x84ljning\n#IB 0 1930 100.00\n#VER A 1 20230101 \"Start\" 20230102\n{\n   #TRANS 1930 {1 \"2\"} 50.00\n   #TRANS 3010 {} -50.00 20230101 \"x\" 1 \"Anna\"\n}\n#UB 0 1930 150.00\n";

#[test]
fn whole_stream() {
    let seen = drain(&[FILE]);
    assert_eq!(seen.len(), 8);
    assert_eq!(seen[0], Seen::Item(Item::Flagga(Flagga { read: false })));
    assert_eq!(
        seen[3],
        Seen::Item(Item::Konto(Konto { no: 1930, name: "F\u{f6}retagskonto".to_owned() }))
    );
    assert_eq!(
        seen[4],
        Seen::Item(Item::Konto(Konto { no: 3010, name: "F\u{f6}rs\u{e4}ljning".to_owned() }))
    );
    match &seen[6] {
        Seen::Item(Item::Ver(v)) => {
            assert_eq!(v.transactions.0.len(), 2);
            assert_eq!(v.transactions.0[0].objects.0, vec!["1".to_owned(), "2".to_owned()]);
            assert_eq!(v.transactions.0[1].signature, Some("Anna".to_owned()));
        },
        other => panic!("{other:?}"),
    }
}

#[test]
fn one_byte_at_a_time_gives_the_same_records() {
    let whole = drain(&[FILE]);
    let bytes: Vec<&[u8]> = FILE.chunks(1).collect();
    assert_eq!(drain(&bytes), whole);
    let sevens: Vec<&[u8]> = FILE.chunks(7).collect();
    assert_eq!(drain(&sevens), whole);
}

#[test]
fn group_regression_fails_once_and_ends() {
    let seen = drain(&[b"#KONTO 1 \"a\"\n#FLAGGA 0\n#KONTO 2 \"b\"\n"]);
    assert_eq!(
        seen,
        vec![Seen::Item(Item::Konto(Konto { no: 1, name: "a".to_owned() })), Seen::OutOfOrder]
    );
}

#[test]
fn equal_groups_are_in_order() {
    let seen = drain(&[b"#KONTO 1 a\n#KONTO 2 b\n"]);
    assert_eq!(seen.len(), 2);
}

#[test]
fn truncated_tail_ends_without_error() {
    assert_eq!(
        drain(&[b"#FLAGGA 1\n#KONTO 1220 \"Inventarier"]),
        vec![Seen::Item(Item::Flagga(Flagga { read: true }))]
    );
    assert_eq!(drain(&[b"#VER A 1 20230101\n{\n#TRANS 1 {} 1.00\n"]), vec![]);
    assert_eq!(drain(&[]), vec![]);
}

#[test]
fn parse_failure_is_terminal() {
    assert_eq!(drain(&[b"#FLAGGA 0\n#NOPE 1\n#KONTO 1 a\n"]).len(), 2);
    assert_eq!(drain(&[b"#FLAGGA 0\n#NOPE 1\n#KONTO 1 a\n"])[1], Seen::Parse);
}

#[test]
fn source_failure_ends_the_stream() {
    let mut reader = Reader::new();
    assert!(matches!(reader.next_step(), Step::NeedBytes));
    let e = reader.source_failed(std::io::Error::new(std::io::ErrorKind::Other, "gone"));
    match e {
        Error::Io(inner) => {
            assert_eq!(inner.kind(), std::io::ErrorKind::Other);
            assert_eq!(inner.to_string(), "gone");
        },
        other => panic!("{other:?}"),
    }
    assert!(reader.is_ended());
    assert!(matches!(reader.next_step(), Step::End));
}
