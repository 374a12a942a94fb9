//! Decoding whole records: field lists, regions of nested records, and the
//! dispatcher that picks the record kind by its tag.
use vstd::prelude::*;

use crate::bytes::{
    find_run_end, in_curly_braces, lemma_run_end, skip_run, skip_to, tag, Blame, Outcome, Parsed,
    Run, HASH,
};
use crate::field::{fits, parse_leaf, recast, FieldKind, FieldVal, Scalar, Value};
use crate::item::{
    body, field_at, fields, group_of, kind_number, label, parse_leaf_fields, schema, shaped,
    take_label, transactions_at, trans_items, Adress, BKod, FNamn, Fields, Flagga, Format, Gen,
    Group, Ib, Item, Kind, Konto, KpTyp, Orgnr, Program, Rar, Res, SieTyp, Trans, Ub, Valuta, Ver,
    KINDS,
};

verus! {

fn trans_schema() -> (r: [FieldKind; 7])
    ensures
        r@ == schema(Kind::Trans),
{
    let ks: [FieldKind; 7] = [
        FieldKind::One(Scalar::Uint),
        FieldKind::List,
        FieldKind::One(Scalar::Amount),
        FieldKind::Maybe(Scalar::Date),
        FieldKind::Maybe(Scalar::Text),
        FieldKind::Maybe(Scalar::Text),
        FieldKind::Maybe(Scalar::Text),
    ];
    assert(ks@ =~= schema(Kind::Trans));
    ks
}

fn trans_of(f: Fields) -> (r: Trans)
    requires
        shaped(schema(Kind::Trans), f.0@),
    ensures
        r@ == f@,
{
    let ghost g = f.0@;
    let mut v = f.0;
    assert(fits(schema(Kind::Trans)[6], g[6]));
    assert(fits(schema(Kind::Trans)[5], g[5]));
    assert(fits(schema(Kind::Trans)[4], g[4]));
    assert(fits(schema(Kind::Trans)[3], g[3]));
    assert(fits(schema(Kind::Trans)[2], g[2]));
    assert(fits(schema(Kind::Trans)[1], g[1]));
    assert(fits(schema(Kind::Trans)[0], g[0]));
    let signature = v.pop().unwrap().into_opt_text();
    let quantity = v.pop().unwrap().into_opt_text();
    let text = v.pop().unwrap().into_opt_text();
    let date = v.pop().unwrap().into_opt_date();
    let amount = v.pop().unwrap().into_amount();
    let objects = v.pop().unwrap().into_list();
    let account = v.pop().unwrap().into_uint();
    let r = Trans { account, objects, amount, date, text, quantity, signature };
    assert(r@ =~= g.map_values(|x: FieldVal| x@));
    r
}

/// Decode a brace-delimited region of `#TRANS` records, after optional
/// separators.
fn parse_transactions(w: &[u8], p: usize, fin: bool) -> (r: Parsed<FieldVal>)
    requires
        p <= w@.len(),
    ensures
        r@ == transactions_at(w@, p as int, fin),
        r matches Parsed::Done(v, e) ==> p <= e <= w@.len() && v is Records,
{
    let q = match skip_run(w, p, Run::Separator, fin) {
        Some(q) => q,
        None => return Parsed::Incomplete,
    };
    proof {
        lemma_run_end(w@, p as int, Run::Separator);
    }
    let (span, e) = match in_curly_braces(w, q, fin) {
        Parsed::Done(s, e) => (s, e),
        r => return recast(r),
    };
    let inner = &w[0..span.end];
    assert(inner@ == w@.subrange(0, span.end as int));
    let mut recs: Vec<Trans> = Vec::new();
    let mut c = span.start;
    assert(recs@.map_values(|t: Trans| t@) =~= Seq::<Seq<Value>>::empty());
    loop
        invariant
            span.start <= c <= inner@.len(),
            span.start <= span.end < e <= w@.len(),
            p <= q < span.start,
            skip_to(w@, p as int, Run::Separator, fin) == Some(q as int),
            inner@ == w@.subrange(0, span.end as int),
            crate::bytes::braces(w@, q as int, fin) == Outcome::Done(
                (span.start as int, span.end as int),
                e as int,
            ),
            trans_items(inner@, span.start as int, seq![]) == trans_items(
                inner@,
                c as int,
                recs@.map_values(|t: Trans| t@),
            ),
        decreases inner@.len() - c,
    {
        let h = find_run_end(inner, c, Run::NotHash);
        if h >= inner.len() {
            return Parsed::Done(FieldVal::Records(recs), e);
        }
        match take_label(Kind::Trans, inner, h + 1, true) {
            Parsed::Done(_, t) => {
                let ks = trans_schema();
                match parse_leaf_fields(&ks, inner, t, true) {
                    Parsed::Done(f, e2) => {
                        let tr = trans_of(f);
                        proof {
                            assert(recs@.push(tr).map_values(|t: Trans| t@) =~= recs@.map_values(
                                |t: Trans| t@,
                            ).push(tr@));
                        }
                        recs.push(tr);
                        c = e2;
                    },
                    Parsed::Error(b) => return Parsed::Failure(b.with_record(Kind::Trans)),
                    Parsed::Failure(b) => return Parsed::Failure(b.with_record(Kind::Trans)),
                    Parsed::Incomplete => return Parsed::Failure(Blame::unknown()),
                }
            },
            _ => return Parsed::Failure(Blame::unknown()),
        }
    }
}

fn parse_field(k: FieldKind, w: &[u8], p: usize, fin: bool) -> (r: Parsed<FieldVal>)
    requires
        p <= w@.len(),
    ensures
        r@ == field_at(k, w@, p as int, fin),
        r matches Parsed::Done(v, e) ==> p <= e <= w@.len() && fits(k, v),
{
    if matches!(k, FieldKind::Transactions) {
        parse_transactions(w, p, fin)
    } else {
        parse_leaf(k, w, p, fin)
    }
}

fn parse_fields(ks: &[FieldKind], w: &[u8], p: usize, fin: bool) -> (r: Parsed<Fields>)
    requires
        p <= w@.len(),
    ensures
        r@ == fields(ks@, 0, w@, p as int, fin, seq![]),
        r matches Parsed::Done(f, e) ==> p <= e <= w@.len() && shaped(ks@, f.0@),
{
    let mut vals: Vec<FieldVal> = Vec::new();
    let mut q = p;
    let mut i: usize = 0;
    assert(vals@.map_values(|f: FieldVal| f@) =~= Seq::<Value>::empty());
    while i < ks.len()
        invariant
            i <= ks@.len(),
            p <= q <= w@.len(),
            vals@.len() == i,
            forall|j: int| 0 <= j < i ==> fits(ks@[j], #[trigger] vals@[j]),
            fields(ks@, 0, w@, p as int, fin, seq![]) == fields(
                ks@,
                i as int,
                w@,
                q as int,
                fin,
                vals@.map_values(|f: FieldVal| f@),
            ),
        decreases ks@.len() - i,
    {
        let s = match skip_run(w, q, Run::Blank, fin) {
            Some(s) => s,
            None => return Parsed::Incomplete,
        };
        proof {
            lemma_run_end(w@, q as int, Run::Blank);
        }
        match parse_field(ks[i], w, s, fin) {
            Parsed::Done(v, e) => {
                proof {
                    assert(vals@.push(v).map_values(|f: FieldVal| f@) =~= vals@.map_values(
                        |f: FieldVal| f@,
                    ).push(v@));
                }
                vals.push(v);
                q = e;
            },
            Parsed::Incomplete => return Parsed::Incomplete,
            Parsed::Error(b) => return Parsed::Error(b.with_field(i)),
            Parsed::Failure(b) => return Parsed::Failure(b.with_field(i)),
        }
        i = i + 1;
    }
    Parsed::Done(Fields(vals), q)
}

/// The field kinds of a record of kind `k`, in order.
fn schema_of(k: Kind) -> (r: Vec<FieldKind>)
    ensures
        r@ == schema(k),
{
    let t = FieldKind::One(Scalar::Text);
    let m = FieldKind::Maybe(Scalar::Text);
    match k {
        Kind::Adress => {
            let ks: [FieldKind; 4] = [t, t, t, t];
            assert(ks@ =~= schema(k));
            vstd::slice::slice_to_vec(&ks)
        },
        Kind::BKod | Kind::FNamn | Kind::Orgnr => {
            let ks: [FieldKind; 1] = [t];
            assert(ks@ =~= schema(k));
            vstd::slice::slice_to_vec(&ks)
        },
        Kind::Flagga => {
            let ks: [FieldKind; 1] = [FieldKind::One(Scalar::Flag)];
            assert(ks@ =~= schema(k));
            vstd::slice::slice_to_vec(&ks)
        },
        Kind::Format => {
            let ks: [FieldKind; 1] = [FieldKind::One(Scalar::Format)];
            assert(ks@ =~= schema(k));
            vstd::slice::slice_to_vec(&ks)
        },
        Kind::Gen => {
            let ks: [FieldKind; 2] = [FieldKind::One(Scalar::Date), m];
            assert(ks@ =~= schema(k));
            vstd::slice::slice_to_vec(&ks)
        },
        Kind::Ib | Kind::Res | Kind::Ub => {
            let ks: [FieldKind; 4] = [
                FieldKind::One(Scalar::Int),
                FieldKind::One(Scalar::Uint),
                FieldKind::One(Scalar::Amount),
                m,
            ];
            assert(ks@ =~= schema(k));
            vstd::slice::slice_to_vec(&ks)
        },
        Kind::Konto => {
            let ks: [FieldKind; 2] = [FieldKind::One(Scalar::Uint), t];
            assert(ks@ =~= schema(k));
            vstd::slice::slice_to_vec(&ks)
        },
        Kind::KpTyp => {
            let ks: [FieldKind; 1] = [FieldKind::One(Scalar::Chart)];
            assert(ks@ =~= schema(k));
            vstd::slice::slice_to_vec(&ks)
        },
        Kind::Program => {
            let ks: [FieldKind; 2] = [t, t];
            assert(ks@ =~= schema(k));
            vstd::slice::slice_to_vec(&ks)
        },
        Kind::Rar => {
            let ks: [FieldKind; 3] = [
                FieldKind::One(Scalar::Int),
                FieldKind::One(Scalar::Date),
                FieldKind::One(Scalar::Date),
            ];
            assert(ks@ =~= schema(k));
            vstd::slice::slice_to_vec(&ks)
        },
        Kind::SieTyp => {
            let ks: [FieldKind; 1] = [FieldKind::One(Scalar::TypeNo)];
            assert(ks@ =~= schema(k));
            vstd::slice::slice_to_vec(&ks)
        },
        Kind::Trans => {
            let ks = trans_schema();
            vstd::slice::slice_to_vec(&ks)
        },
        Kind::Valuta => {
            let ks: [FieldKind; 1] = [FieldKind::One(Scalar::Currency)];
            assert(ks@ =~= schema(k));
            vstd::slice::slice_to_vec(&ks)
        },
        Kind::Ver => {
            let ks: [FieldKind; 7] = [
                t,
                FieldKind::One(Scalar::Uint),
                FieldKind::One(Scalar::Date),
                m,
                FieldKind::Maybe(Scalar::Date),
                m,
                FieldKind::Transactions,
            ];
            assert(ks@ =~= schema(k));
            vstd::slice::slice_to_vec(&ks)
        },
    }
}

/// Decode the body of a record of kind `k`.
fn parse_body(k: Kind, w: &[u8], p: usize, fin: bool) -> (r: Parsed<Fields>)
    requires
        p <= w@.len(),
    ensures
        r@ == body(k, w@, p as int, fin),
        r matches Parsed::Done(f, e) ==> p <= e <= w@.len() && shaped(schema(k), f.0@),
{
    let ks = schema_of(k);
    parse_fields(ks.as_slice(), w, p, fin)
}

/// The typed record of kind `k` that holds the decoded fields.
fn item_of(k: Kind, f: Fields) -> (r: Item)
    requires
        shaped(schema(k), f.0@),
    ensures
        r@ == (k, f@),
{
    let ghost g = f.0@;
    let ghost ks = schema(k);
    assert(forall|i: int| 0 <= i < ks.len() ==> fits(ks[i], #[trigger] g[i]));
    let mut v = f.0;
    let r = match k {
        Kind::Adress => {
            assert(fits(ks[3], g[3]) && fits(ks[2], g[2]) && fits(ks[1], g[1]) && fits(ks[0], g[0]));
            let phone = v.pop().unwrap().into_text();
            let postal_address = v.pop().unwrap().into_text();
            let distribution_address = v.pop().unwrap().into_text();
            let contact = v.pop().unwrap().into_text();
            Item::Adress(Adress { contact, distribution_address, postal_address, phone })
        },
        Kind::BKod => {
            assert(fits(ks[0], g[0]));
            Item::BKod(BKod { sni: v.pop().unwrap().into_text() })
        },
        Kind::Flagga => {
            assert(fits(ks[0], g[0]));
            Item::Flagga(Flagga { read: v.pop().unwrap().into_flag() })
        },
        Kind::FNamn => {
            assert(fits(ks[0], g[0]));
            Item::FNamn(FNamn { name: v.pop().unwrap().into_text() })
        },
        Kind::Format => {
            assert(fits(ks[0], g[0]));
            Item::Format(Format { format: v.pop().unwrap().into_format() })
        },
        Kind::Gen => {
            assert(fits(ks[1], g[1]) && fits(ks[0], g[0]));
            let signature = v.pop().unwrap().into_opt_text();
            let date = v.pop().unwrap().into_date();
            Item::Gen(Gen { date, signature })
        },
        Kind::Ib | Kind::Res | Kind::Ub => {
            assert(fits(ks[3], g[3]) && fits(ks[2], g[2]) && fits(ks[1], g[1]) && fits(ks[0], g[0]));
            let quantity = v.pop().unwrap().into_opt_text();
            let balance = v.pop().unwrap().into_amount();
            let account = v.pop().unwrap().into_uint();
            let year = v.pop().unwrap().into_int();
            match k {
                Kind::Ib => Item::Ib(Ib { year, account, balance, quantity }),
                Kind::Res => Item::Res(Res { year, account, balance, quantity }),
                _ => Item::Ub(Ub { year, account, balance, quantity }),
            }
        },
        Kind::Konto => {
            assert(fits(ks[1], g[1]) && fits(ks[0], g[0]));
            let name = v.pop().unwrap().into_text();
            let no = v.pop().unwrap().into_uint();
            Item::Konto(Konto { no, name })
        },
        Kind::KpTyp => {
            assert(fits(ks[0], g[0]));
            Item::KpTyp(KpTyp { typ: v.pop().unwrap().into_chart() })
        },
        Kind::Orgnr => {
            assert(fits(ks[0], g[0]));
            Item::Orgnr(Orgnr { org_no: v.pop().unwrap().into_text() })
        },
        Kind::Program => {
            assert(fits(ks[1], g[1]) && fits(ks[0], g[0]));
            let version = v.pop().unwrap().into_text();
            let name = v.pop().unwrap().into_text();
            Item::Program(Program { name, version })
        },
        Kind::Rar => {
            assert(fits(ks[2], g[2]) && fits(ks[1], g[1]) && fits(ks[0], g[0]));
            let end = v.pop().unwrap().into_date();
            let start = v.pop().unwrap().into_date();
            let no = v.pop().unwrap().into_int();
            Item::Rar(Rar { no, start, end })
        },
        Kind::SieTyp => {
            assert(fits(ks[0], g[0]));
            Item::SieTyp(SieTyp { no: v.pop().unwrap().into_type_no() })
        },
        Kind::Trans => Item::Trans(trans_of(Fields(v))),
        Kind::Valuta => {
            assert(fits(ks[0], g[0]));
            Item::Valuta(Valuta { currency: v.pop().unwrap().into_currency() })
        },
        Kind::Ver => {
            assert(fits(ks[6], g[6]) && fits(ks[5], g[5]) && fits(ks[4], g[4]) && fits(ks[3], g[3]));
            assert(fits(ks[2], g[2]) && fits(ks[1], g[1]) && fits(ks[0], g[0]));
            let transactions = v.pop().unwrap().into_records();
            let sign = v.pop().unwrap().into_opt_text();
            let reg_date = v.pop().unwrap().into_opt_date();
            let text = v.pop().unwrap().into_opt_text();
            let date = v.pop().unwrap().into_date();
            let no = v.pop().unwrap().into_uint();
            let series = v.pop().unwrap().into_text();
            Item::Ver(Ver { series, no, date, text, reg_date, sign, transactions })
        },
    };
    assert(r@.1 =~= g.map_values(|x: FieldVal| x@));
    r
}

/// The record kinds from the `i`-th on, tried in order against the tag at
/// `t`. A mismatch moves on; anything else decides.
pub open spec fn dispatch(w: Seq<u8>, t: int, i: int) -> Outcome<(Kind, Seq<Value>)>
    decreases KINDS - i,
{
    if i < 0 || i >= KINDS {
        Outcome::Error(Blame::none())
    } else {
        let k = crate::item::kind_at(i);
        match tag(w, t, label(k), false) {
            Outcome::Done(_, e) => match body(k, w, e, false) {
                Outcome::Done(vals, f) => Outcome::Done((k, vals), f),
                Outcome::Incomplete => Outcome::Incomplete,
                Outcome::Error(b) => Outcome::Error(b.in_record(k)),
                Outcome::Failure(b) => Outcome::Failure(b.in_record(k)),
            },
            Outcome::Error(_) => dispatch(w, t, i + 1),
            Outcome::Incomplete => Outcome::Incomplete,
            Outcome::Failure(b) => Outcome::Failure(b),
        }
    }
}

/// One record at the start of `w`, after separators: `#`, a tag, and the
/// body that the tag's kind prescribes. More bytes may follow `w`.
#[verifier::opaque]
pub open spec fn record(w: Seq<u8>) -> Outcome<(Kind, Seq<Value>)> {
    match skip_to(w, 0, Run::Separator, false) {
        None => Outcome::Incomplete,
        Some(q) => if q < w.len() && w[q] == HASH {
            dispatch(w, q + 1, 0)
        } else {
            Outcome::Error(Blame::none())
        },
    }
}

impl Item {
    /// Decode one record from the start of the input, which more bytes may
    /// follow: separators, `#`, a tag, and the fields of the tag's kind.
    /// `Incomplete` asks for more bytes.
    pub fn parse(w: &[u8]) -> (r: Parsed<Item>)
        ensures
            r@ == record(w@),
            r matches Parsed::Done(_, e) ==> e <= w@.len(),
    {
        proof {
            reveal(record);
        }
        let q = match skip_run(w, 0, Run::Separator, false) {
            Some(q) => q,
            None => return Parsed::Incomplete,
        };
        proof {
            lemma_run_end(w@, 0, Run::Separator);
        }
        if q >= w.len() || w[q] != HASH {
            return Parsed::Error(Blame::unknown());
        }
        let t = q + 1;
        let mut i: usize = 0;
        while i < KINDS
            invariant
                i <= KINDS,
                t <= w@.len(),
                record(w@) == dispatch(w@, t as int, i as int),
            decreases KINDS - i,
        {
            let k = kind_number(i);
            match take_label(k, w, t, false) {
                Parsed::Done(_, e) => {
                    return match parse_body(k, w, e, false) {
                        Parsed::Done(f, e2) => Parsed::Done(item_of(k, f), e2),
                        Parsed::Incomplete => Parsed::Incomplete,
                        Parsed::Error(b) => Parsed::Error(b.with_record(k)),
                        Parsed::Failure(b) => Parsed::Failure(b.with_record(k)),
                    };
                },
                Parsed::Error(_) => {
                    i = i + 1;
                },
                r => return recast(r),
            }
        }
        Parsed::Error(Blame::unknown())
    }

    /// The kind of the record.
    pub fn kind(&self) -> (r: Kind)
        ensures
            r == self@.0,
    {
        match self {
            Item::Adress(_) => Kind::Adress,
            Item::BKod(_) => Kind::BKod,
            Item::Flagga(_) => Kind::Flagga,
            Item::FNamn(_) => Kind::FNamn,
            Item::Format(_) => Kind::Format,
            Item::Gen(_) => Kind::Gen,
            Item::Ib(_) => Kind::Ib,
            Item::Konto(_) => Kind::Konto,
            Item::KpTyp(_) => Kind::KpTyp,
            Item::Orgnr(_) => Kind::Orgnr,
            Item::Program(_) => Kind::Program,
            Item::Rar(_) => Kind::Rar,
            Item::Res(_) => Kind::Res,
            Item::SieTyp(_) => Kind::SieTyp,
            Item::Trans(_) => Kind::Trans,
            Item::Ub(_) => Kind::Ub,
            Item::Valuta(_) => Kind::Valuta,
            Item::Ver(_) => Kind::Ver,
        }
    }

    /// The group of the record's kind.
    pub fn group(&self) -> (r: Group)
        ensures
            r == group_of(self@.0),
    {
        match self.kind() {
            Kind::Flagga => Group::Flag,
            Kind::Konto => Group::Account,
            Kind::Ib | Kind::Res | Kind::Trans | Kind::Ub | Kind::Ver => Group::Balance,
            _ => Group::Identification,
        }
    }
}

/// The body of a record of kind `k`, with the kind attached.
pub open spec fn item_body(k: Kind, w: Seq<u8>) -> Outcome<(Kind, Seq<Value>)> {
    match body(k, w, 0, false) {
        Outcome::Done(vals, e) => Outcome::Done((k, vals), e),
        Outcome::Incomplete => Outcome::Incomplete,
        Outcome::Error(b) => Outcome::Error(b),
        Outcome::Failure(b) => Outcome::Failure(b),
    }
}

impl Item {
    /// Decode the body of a record of kind `k`, which starts after its tag
    /// and which more bytes may follow.
    pub fn parse_item(k: Kind, w: &[u8]) -> (r: Parsed<Item>)
        ensures
            r@ == item_body(k, w@),
    {
        match parse_body(k, w, 0, false) {
            Parsed::Done(f, e) => Parsed::Done(item_of(k, f), e),
            Parsed::Incomplete => Parsed::Incomplete,
            Parsed::Error(b) => Parsed::Error(b),
            Parsed::Failure(b) => Parsed::Failure(b),
        }
    }
}

impl Trans {
    /// Decode the body of a `#TRANS` record, which starts after its tag and
    /// which more bytes may follow.
    pub fn parse_item(w: &[u8]) -> (r: Parsed<Trans>)
        ensures
            r@ == body(Kind::Trans, w@, 0, false),
    {
        match parse_body(Kind::Trans, w, 0, false) {
            Parsed::Done(f, e) => Parsed::Done(trans_of(f), e),
            r => recast(r),
        }
    }
}

} // verus!
