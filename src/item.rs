//! Record kinds, their groups and field lists, the typed records, and the
//! dispatcher that decodes one record.
use vstd::prelude::*;

use crate::bytes::{braces, run_end, skip_run, skip_to, tag, take_tag, Blame, Outcome, Parsed, Run};
use crate::field::{
    amount_value, date_value, fail_as, fits, int_value, leaf_at, list_value, opt_date_value,
    opt_text_value, parse_leaf, records_value, text_value, Amount, Atom, ChartAccountsType,
    Currency, Date, FieldKind, FieldVal, FormatType, List, Scalar, SubItems, TypeNo, Value,
};

verus! {

/// The ordered category of a record kind. Across a stream the group of
/// each record is at least that of the record before it.
#[derive(Clone, Copy, PartialEq, Eq, PartialOrd, Ord, Debug)]
pub enum Group {
    Flag,
    Identification,
    Account,
    Balance,
}

impl Group {
    pub open spec fn rank(self) -> int {
        match self {
            Group::Flag => 0,
            Group::Identification => 1,
            Group::Account => 2,
            Group::Balance => 3,
        }
    }

    /// The position of the group in the order `Flag < Identification <
    /// Account < Balance`.
    pub fn order(self) -> (r: u8)
        ensures
            r as int == self.rank(),
    {
        match self {
            Group::Flag => 0,
            Group::Identification => 1,
            Group::Account => 2,
            Group::Balance => 3,
        }
    }
}

/// The closed set of record kinds, in the order in which the dispatcher
/// tries their tags.
#[derive(Clone, Copy, PartialEq, Eq, Debug)]
pub enum Kind {
    Adress,
    BKod,
    Flagga,
    FNamn,
    Format,
    Gen,
    Ib,
    Konto,
    KpTyp,
    Orgnr,
    Program,
    Rar,
    Res,
    SieTyp,
    Trans,
    Ub,
    Valuta,
    Ver,
}

pub open spec fn group_of(k: Kind) -> Group {
    match k {
        Kind::Flagga => Group::Flag,
        Kind::Konto => Group::Account,
        Kind::Ib | Kind::Res | Kind::Trans | Kind::Ub | Kind::Ver => Group::Balance,
        _ => Group::Identification,
    }
}

/// The number of record kinds.
pub const KINDS: usize = 18;

pub open spec fn kind_at(i: int) -> Kind {
    if i <= 0 {
        Kind::Adress
    } else if i == 1 {
        Kind::BKod
    } else if i == 2 {
        Kind::Flagga
    } else if i == 3 {
        Kind::FNamn
    } else if i == 4 {
        Kind::Format
    } else if i == 5 {
        Kind::Gen
    } else if i == 6 {
        Kind::Ib
    } else if i == 7 {
        Kind::Konto
    } else if i == 8 {
        Kind::KpTyp
    } else if i == 9 {
        Kind::Orgnr
    } else if i == 10 {
        Kind::Program
    } else if i == 11 {
        Kind::Rar
    } else if i == 12 {
        Kind::Res
    } else if i == 13 {
        Kind::SieTyp
    } else if i == 14 {
        Kind::Trans
    } else if i == 15 {
        Kind::Ub
    } else if i == 16 {
        Kind::Valuta
    } else {
        Kind::Ver
    }
}

pub(crate) fn kind_number(i: usize) -> (r: Kind)
    ensures
        r == kind_at(i as int),
{
    match i {
        0 => Kind::Adress,
        1 => Kind::BKod,
        2 => Kind::Flagga,
        3 => Kind::FNamn,
        4 => Kind::Format,
        5 => Kind::Gen,
        6 => Kind::Ib,
        7 => Kind::Konto,
        8 => Kind::KpTyp,
        9 => Kind::Orgnr,
        10 => Kind::Program,
        11 => Kind::Rar,
        12 => Kind::Res,
        13 => Kind::SieTyp,
        14 => Kind::Trans,
        15 => Kind::Ub,
        16 => Kind::Valuta,
        _ => Kind::Ver,
    }
}

/// The tag that follows `#`: the kind's name in upper case.
pub open spec fn label(k: Kind) -> Seq<u8> {
    match k {
        Kind::Adress => seq![65u8, 68, 82, 69, 83, 83],
        Kind::BKod => seq![66u8, 75, 79, 68],
        Kind::Flagga => seq![70u8, 76, 65, 71, 71, 65],
        Kind::FNamn => seq![70u8, 78, 65, 77, 78],
        Kind::Format => seq![70u8, 79, 82, 77, 65, 84],
        Kind::Gen => seq![71u8, 69, 78],
        Kind::Ib => seq![73u8, 66],
        Kind::Konto => seq![75u8, 79, 78, 84, 79],
        Kind::KpTyp => seq![75u8, 80, 84, 89, 80],
        Kind::Orgnr => seq![79u8, 82, 71, 78, 82],
        Kind::Program => seq![80u8, 82, 79, 71, 82, 65, 77],
        Kind::Rar => seq![82u8, 65, 82],
        Kind::Res => seq![82u8, 69, 83],
        Kind::SieTyp => seq![83u8, 73, 69, 84, 89, 80],
        Kind::Trans => seq![84u8, 82, 65, 78, 83],
        Kind::Ub => seq![85u8, 66],
        Kind::Valuta => seq![86u8, 65, 76, 85, 84, 65],
        Kind::Ver => seq![86u8, 69, 82],
    }
}

pub(crate) fn take_label(k: Kind, w: &[u8], p: usize, fin: bool) -> (r: Parsed<()>)
    requires
        p <= w@.len(),
    ensures
        r@ == tag(w@, p as int, label(k), fin),
{
    match k {
        Kind::Adress => {
            let l: [u8; 6] = [65, 68, 82, 69, 83, 83];
            assert(l@ =~= label(k));
            take_tag(w, p, &l, fin)
        },
        Kind::BKod => {
            let l: [u8; 4] = [66, 75, 79, 68];
            assert(l@ =~= label(k));
            take_tag(w, p, &l, fin)
        },
        Kind::Flagga => {
            let l: [u8; 6] = [70, 76, 65, 71, 71, 65];
            assert(l@ =~= label(k));
            take_tag(w, p, &l, fin)
        },
        Kind::FNamn => {
            let l: [u8; 5] = [70, 78, 65, 77, 78];
            assert(l@ =~= label(k));
            take_tag(w, p, &l, fin)
        },
        Kind::Format => {
            let l: [u8; 6] = [70, 79, 82, 77, 65, 84];
            assert(l@ =~= label(k));
            take_tag(w, p, &l, fin)
        },
        Kind::Gen => {
            let l: [u8; 3] = [71, 69, 78];
            assert(l@ =~= label(k));
            take_tag(w, p, &l, fin)
        },
        Kind::Ib => {
            let l: [u8; 2] = [73, 66];
            assert(l@ =~= label(k));
            take_tag(w, p, &l, fin)
        },
        Kind::Konto => {
            let l: [u8; 5] = [75, 79, 78, 84, 79];
            assert(l@ =~= label(k));
            take_tag(w, p, &l, fin)
        },
        Kind::KpTyp => {
            let l: [u8; 5] = [75, 80, 84, 89, 80];
            assert(l@ =~= label(k));
            take_tag(w, p, &l, fin)
        },
        Kind::Orgnr => {
            let l: [u8; 5] = [79, 82, 71, 78, 82];
            assert(l@ =~= label(k));
            take_tag(w, p, &l, fin)
        },
        Kind::Program => {
            let l: [u8; 7] = [80, 82, 79, 71, 82, 65, 77];
            assert(l@ =~= label(k));
            take_tag(w, p, &l, fin)
        },
        Kind::Rar => {
            let l: [u8; 3] = [82, 65, 82];
            assert(l@ =~= label(k));
            take_tag(w, p, &l, fin)
        },
        Kind::Res => {
            let l: [u8; 3] = [82, 69, 83];
            assert(l@ =~= label(k));
            take_tag(w, p, &l, fin)
        },
        Kind::SieTyp => {
            let l: [u8; 6] = [83, 73, 69, 84, 89, 80];
            assert(l@ =~= label(k));
            take_tag(w, p, &l, fin)
        },
        Kind::Trans => {
            let l: [u8; 5] = [84, 82, 65, 78, 83];
            assert(l@ =~= label(k));
            take_tag(w, p, &l, fin)
        },
        Kind::Ub => {
            let l: [u8; 2] = [85, 66];
            assert(l@ =~= label(k));
            take_tag(w, p, &l, fin)
        },
        Kind::Valuta => {
            let l: [u8; 6] = [86, 65, 76, 85, 84, 65];
            assert(l@ =~= label(k));
            take_tag(w, p, &l, fin)
        },
        Kind::Ver => {
            let l: [u8; 3] = [86, 69, 82];
            assert(l@ =~= label(k));
            take_tag(w, p, &l, fin)
        },
    }
}

/// The names of the fields of each record kind, in order.
pub open spec fn field_label(k: Kind, i: int) -> Option<Seq<char>> {
    match k {
        Kind::Adress => if i == 0 {
            Some("contact"@)
        } else if i == 1 {
            Some("distribution_address"@)
        } else if i == 2 {
            Some("postal_address"@)
        } else if i == 3 {
            Some("phone"@)
        } else {
            None
        },
        Kind::BKod => if i == 0 {
            Some("sni"@)
        } else {
            None
        },
        Kind::Flagga => if i == 0 {
            Some("read"@)
        } else {
            None
        },
        Kind::FNamn => if i == 0 {
            Some("name"@)
        } else {
            None
        },
        Kind::Format => if i == 0 {
            Some("format"@)
        } else {
            None
        },
        Kind::Gen => if i == 0 {
            Some("date"@)
        } else if i == 1 {
            Some("signature"@)
        } else {
            None
        },
        Kind::Ib => if i == 0 {
            Some("year"@)
        } else if i == 1 {
            Some("account"@)
        } else if i == 2 {
            Some("balance"@)
        } else if i == 3 {
            Some("quantity"@)
        } else {
            None
        },
        Kind::Res => if i == 0 {
            Some("year"@)
        } else if i == 1 {
            Some("account"@)
        } else if i == 2 {
            Some("balance"@)
        } else if i == 3 {
            Some("quantity"@)
        } else {
            None
        },
        Kind::Ub => if i == 0 {
            Some("year"@)
        } else if i == 1 {
            Some("account"@)
        } else if i == 2 {
            Some("balance"@)
        } else if i == 3 {
            Some("quantity"@)
        } else {
            None
        },
        Kind::Konto => if i == 0 {
            Some("no"@)
        } else if i == 1 {
            Some("name"@)
        } else {
            None
        },
        Kind::KpTyp => if i == 0 {
            Some("typ"@)
        } else {
            None
        },
        Kind::Orgnr => if i == 0 {
            Some("org_no"@)
        } else {
            None
        },
        Kind::Program => if i == 0 {
            Some("name"@)
        } else if i == 1 {
            Some("version"@)
        } else {
            None
        },
        Kind::Rar => if i == 0 {
            Some("no"@)
        } else if i == 1 {
            Some("start"@)
        } else if i == 2 {
            Some("end"@)
        } else {
            None
        },
        Kind::SieTyp => if i == 0 {
            Some("no"@)
        } else {
            None
        },
        Kind::Trans => if i == 0 {
            Some("account"@)
        } else if i == 1 {
            Some("objects"@)
        } else if i == 2 {
            Some("amount"@)
        } else if i == 3 {
            Some("date"@)
        } else if i == 4 {
            Some("text"@)
        } else if i == 5 {
            Some("quantity"@)
        } else if i == 6 {
            Some("signature"@)
        } else {
            None
        },
        Kind::Valuta => if i == 0 {
            Some("currency"@)
        } else {
            None
        },
        Kind::Ver => if i == 0 {
            Some("series"@)
        } else if i == 1 {
            Some("no"@)
        } else if i == 2 {
            Some("date"@)
        } else if i == 3 {
            Some("text"@)
        } else if i == 4 {
            Some("reg_date"@)
        } else if i == 5 {
            Some("sign"@)
        } else if i == 6 {
            Some("transactions"@)
        } else {
            None
        },
    }
}

impl Kind {
    /// The name of the kind's `i`-th field, for diagnostics.
    pub fn field_name(self, i: usize) -> (r: Option<&'static str>)
        ensures
            r is Some <==> i < schema(self).len(),
            field_label(self, i as int) == (match r {
                Some(n) => Some(n@),
                None => None,
            }),
    {
        match (self, i) {
            (Kind::Adress, 0) => Some("contact"),
            (Kind::Adress, 1) => Some("distribution_address"),
            (Kind::Adress, 2) => Some("postal_address"),
            (Kind::Adress, 3) => Some("phone"),
            (Kind::BKod, 0) => Some("sni"),
            (Kind::Flagga, 0) => Some("read"),
            (Kind::FNamn, 0) => Some("name"),
            (Kind::Format, 0) => Some("format"),
            (Kind::Gen, 0) => Some("date"),
            (Kind::Gen, 1) => Some("signature"),
            (Kind::Ib, 0) | (Kind::Res, 0) | (Kind::Ub, 0) => Some("year"),
            (Kind::Ib, 1) | (Kind::Res, 1) | (Kind::Ub, 1) => Some("account"),
            (Kind::Ib, 2) | (Kind::Res, 2) | (Kind::Ub, 2) => Some("balance"),
            (Kind::Ib, 3) | (Kind::Res, 3) | (Kind::Ub, 3) => Some("quantity"),
            (Kind::Konto, 0) => Some("no"),
            (Kind::Konto, 1) => Some("name"),
            (Kind::KpTyp, 0) => Some("typ"),
            (Kind::Orgnr, 0) => Some("org_no"),
            (Kind::Program, 0) => Some("name"),
            (Kind::Program, 1) => Some("version"),
            (Kind::Rar, 0) => Some("no"),
            (Kind::Rar, 1) => Some("start"),
            (Kind::Rar, 2) => Some("end"),
            (Kind::SieTyp, 0) => Some("no"),
            (Kind::Trans, 0) => Some("account"),
            (Kind::Trans, 1) => Some("objects"),
            (Kind::Trans, 2) => Some("amount"),
            (Kind::Trans, 3) => Some("date"),
            (Kind::Trans, 4) => Some("text"),
            (Kind::Trans, 5) => Some("quantity"),
            (Kind::Trans, 6) => Some("signature"),
            (Kind::Valuta, 0) => Some("currency"),
            (Kind::Ver, 0) => Some("series"),
            (Kind::Ver, 1) => Some("no"),
            (Kind::Ver, 2) => Some("date"),
            (Kind::Ver, 3) => Some("text"),
            (Kind::Ver, 4) => Some("reg_date"),
            (Kind::Ver, 5) => Some("sign"),
            (Kind::Ver, 6) => Some("transactions"),
            _ => None,
        }
    }
}

pub open spec fn text_field() -> FieldKind {
    FieldKind::One(Scalar::Text)
}

/// The fields of each record kind, in order.
pub open spec fn schema(k: Kind) -> Seq<FieldKind> {
    let t = text_field();
    match k {
        Kind::Adress => seq![t, t, t, t],
        Kind::BKod => seq![t],
        Kind::Flagga => seq![FieldKind::One(Scalar::Flag)],
        Kind::FNamn => seq![t],
        Kind::Format => seq![FieldKind::One(Scalar::Format)],
        Kind::Gen => seq![FieldKind::One(Scalar::Date), FieldKind::Maybe(Scalar::Text)],
        Kind::Ib | Kind::Res | Kind::Ub => seq![
            FieldKind::One(Scalar::Int),
            FieldKind::One(Scalar::Uint),
            FieldKind::One(Scalar::Amount),
            FieldKind::Maybe(Scalar::Text),
        ],
        Kind::Konto => seq![FieldKind::One(Scalar::Uint), t],
        Kind::KpTyp => seq![FieldKind::One(Scalar::Chart)],
        Kind::Orgnr => seq![t],
        Kind::Program => seq![t, t],
        Kind::Rar => seq![
            FieldKind::One(Scalar::Int),
            FieldKind::One(Scalar::Date),
            FieldKind::One(Scalar::Date),
        ],
        Kind::SieTyp => seq![FieldKind::One(Scalar::TypeNo)],
        Kind::Trans => seq![
            FieldKind::One(Scalar::Uint),
            FieldKind::List,
            FieldKind::One(Scalar::Amount),
            FieldKind::Maybe(Scalar::Date),
            FieldKind::Maybe(Scalar::Text),
            FieldKind::Maybe(Scalar::Text),
            FieldKind::Maybe(Scalar::Text),
        ],
        Kind::Valuta => seq![FieldKind::One(Scalar::Currency)],
        Kind::Ver => seq![
            t,
            FieldKind::One(Scalar::Uint),
            FieldKind::One(Scalar::Date),
            FieldKind::Maybe(Scalar::Text),
            FieldKind::Maybe(Scalar::Date),
            FieldKind::Maybe(Scalar::Text),
            FieldKind::Transactions,
        ],
    }
}

/// The field values agree in number and shape with the field kinds.
pub open spec fn shaped(ks: Seq<FieldKind>, v: Seq<FieldVal>) -> bool {
    v.len() == ks.len() && forall|i: int| 0 <= i < ks.len() ==> fits(ks[i], #[trigger] v[i])
}

/// The decoded fields of one record.
pub struct Fields(pub Vec<FieldVal>);

impl View for Fields {
    type V = Seq<Value>;

    open spec fn view(&self) -> Seq<Value> {
        self.0@.map_values(|f: FieldVal| f@)
    }
}

/// The fields `ks[i..]` of a record body that holds no nested records:
/// each one after optional spaces and tabs. A field's error names its
/// index.
pub open spec fn leaf_fields(
    ks: Seq<FieldKind>,
    i: int,
    w: Seq<u8>,
    p: int,
    fin: bool,
    acc: Seq<Value>,
) -> Outcome<Seq<Value>>
    decreases ks.len() - i,
{
    if i < 0 || i >= ks.len() {
        Outcome::Done(acc, p)
    } else {
        match skip_to(w, p, Run::Blank, fin) {
            None => Outcome::Incomplete,
            Some(q) => match leaf_at(ks[i], w, q, fin) {
                Outcome::Done(v, e) => leaf_fields(ks, i + 1, w, e, fin, acc.push(v)),
                Outcome::Incomplete => Outcome::Incomplete,
                Outcome::Error(b) => Outcome::Error(b.at_field(i)),
                Outcome::Failure(b) => Outcome::Failure(b.at_field(i)),
            },
        }
    }
}

/// The `#TRANS` records of a closed region `w` from `q` on. Bytes before
/// each `#` are skipped; a `#` must begin a `#TRANS` record.
pub open spec fn trans_items(w: Seq<u8>, q: int, acc: Seq<Seq<Value>>) -> Outcome<Seq<Seq<Value>>>
    decreases w.len() - q,
{
    let h = run_end(w, q, Run::NotHash);
    if q < 0 || h >= w.len() {
        Outcome::Done(acc, w.len() as int)
    } else {
        match tag(w, h + 1, label(Kind::Trans), true) {
            Outcome::Done(_, t) => match leaf_fields(schema(Kind::Trans), 0, w, t, true, seq![]) {
                Outcome::Done(vals, e) => if q < e <= w.len() {
                    trans_items(w, e, acc.push(vals))
                } else {
                    Outcome::Failure(Blame::none())
                },
                Outcome::Error(b) => Outcome::Failure(b.in_record(Kind::Trans)),
                Outcome::Failure(b) => Outcome::Failure(b.in_record(Kind::Trans)),
                Outcome::Incomplete => Outcome::Failure(Blame::none()),
            },
            _ => Outcome::Failure(Blame::none()),
        }
    }
}

/// A brace-delimited region of `#TRANS` records, after optional
/// separators.
pub open spec fn transactions_at(w: Seq<u8>, p: int, fin: bool) -> Outcome<Value> {
    match skip_to(w, p, Run::Separator, fin) {
        None => Outcome::Incomplete,
        Some(q) => match braces(w, q, fin) {
            Outcome::Done((a, c), e) => if 0 <= a <= c <= w.len() {
                match trans_items(w.subrange(0, c), a, seq![]) {
                    Outcome::Done(rs, _) => Outcome::Done(Value::Records(rs), e),
                    Outcome::Failure(b) => Outcome::Failure(b),
                    _ => Outcome::Failure(Blame::none()),
                }
            } else {
                Outcome::Failure(Blame::none())
            },
            o => fail_as(o),
        },
    }
}

pub open spec fn field_at(k: FieldKind, w: Seq<u8>, p: int, fin: bool) -> Outcome<Value> {
    if k is Transactions {
        transactions_at(w, p, fin)
    } else {
        leaf_at(k, w, p, fin)
    }
}

/// The fields `ks[i..]` of a record body, each one after optional spaces
/// and tabs. A field's error names its index.
pub open spec fn fields(
    ks: Seq<FieldKind>,
    i: int,
    w: Seq<u8>,
    p: int,
    fin: bool,
    acc: Seq<Value>,
) -> Outcome<Seq<Value>>
    decreases ks.len() - i,
{
    if i < 0 || i >= ks.len() {
        Outcome::Done(acc, p)
    } else {
        match skip_to(w, p, Run::Blank, fin) {
            None => Outcome::Incomplete,
            Some(q) => match field_at(ks[i], w, q, fin) {
                Outcome::Done(v, e) => fields(ks, i + 1, w, e, fin, acc.push(v)),
                Outcome::Incomplete => Outcome::Incomplete,
                Outcome::Error(b) => Outcome::Error(b.at_field(i)),
                Outcome::Failure(b) => Outcome::Failure(b.at_field(i)),
            },
        }
    }
}

/// The body of a record of kind `k`: what follows its tag.
pub open spec fn body(k: Kind, w: Seq<u8>, p: int, fin: bool) -> Outcome<Seq<Value>> {
    fields(schema(k), 0, w, p, fin, seq![])
}

pub(crate) fn parse_leaf_fields(ks: &[FieldKind], w: &[u8], p: usize, fin: bool) -> (r: Parsed<Fields>)
    requires
        p <= w@.len(),
    ensures
        r@ == leaf_fields(ks@, 0, w@, p as int, fin, seq![]),
        r matches Parsed::Done(f, e) ==> p <= e <= w@.len() && shaped(ks@, f.0@),
{
    let mut vals: Vec<FieldVal> = Vec::new();
    let mut q = p;
    let mut i: usize = 0;
    assert(vals@.map_values(|f: FieldVal| f@) =~= Seq::<Value>::empty());
    while i < ks.len()
        invariant
            i <= ks@.len(),
            p <= q <= w@.len(),
            vals@.len() == i,
            forall|j: int| 0 <= j < i ==> fits(ks@[j], #[trigger] vals@[j]),
            leaf_fields(ks@, 0, w@, p as int, fin, seq![]) == leaf_fields(
                ks@,
                i as int,
                w@,
                q as int,
                fin,
                vals@.map_values(|f: FieldVal| f@),
            ),
        decreases ks@.len() - i,
    {
        let s = match skip_run(w, q, Run::Blank, fin) {
            Some(s) => s,
            None => return Parsed::Incomplete,
        };
        proof {
            crate::bytes::lemma_run_end(w@, q as int, Run::Blank);
        }
        match parse_leaf(ks[i], w, s, fin) {
            Parsed::Done(v, e) => {
                proof {
                    assert(vals@.push(v).map_values(|f: FieldVal| f@) =~= vals@.map_values(
                        |f: FieldVal| f@,
                    ).push(v@));
                }
                vals.push(v);
                q = e;
            },
            Parsed::Incomplete => return Parsed::Incomplete,
            Parsed::Error(b) => return Parsed::Error(b.with_field(i)),
            Parsed::Failure(b) => return Parsed::Failure(b.with_field(i)),
        }
        i = i + 1;
    }
    Parsed::Done(Fields(vals), q)
}


/// `#ADRESS`: contact person, postal addresses and telephone.
#[derive(Debug, PartialEq, Eq)]
pub struct Adress {
    pub contact: String,
    pub distribution_address: String,
    pub postal_address: String,
    pub phone: String,
}

impl View for Adress {
    type V = Seq<Value>;

    open spec fn view(&self) -> Seq<Value> {
        seq![
            text_value(self.contact),
            text_value(self.distribution_address),
            text_value(self.postal_address),
            text_value(self.phone),
        ]
    }
}

/// `#BKOD`: the SNI industry code.
#[derive(Debug, PartialEq, Eq)]
pub struct BKod {
    pub sni: String,
}

impl View for BKod {
    type V = Seq<Value>;

    open spec fn view(&self) -> Seq<Value> {
        seq![text_value(self.sni)]
    }
}

/// `#FLAGGA`: whether the file has been read.
#[derive(Debug, PartialEq, Eq)]
pub struct Flagga {
    pub read: bool,
}

impl View for Flagga {
    type V = Seq<Value>;

    open spec fn view(&self) -> Seq<Value> {
        seq![Value::One(Atom::Flag(self.read))]
    }
}

/// `#FNAMN`: the company name.
#[derive(Debug, PartialEq, Eq)]
pub struct FNamn {
    pub name: String,
}

impl View for FNamn {
    type V = Seq<Value>;

    open spec fn view(&self) -> Seq<Value> {
        seq![text_value(self.name)]
    }
}

/// `#FORMAT`: the character set.
#[derive(Debug, PartialEq, Eq)]
pub struct Format {
    pub format: FormatType,
}

impl View for Format {
    type V = Seq<Value>;

    open spec fn view(&self) -> Seq<Value> {
        seq![Value::One(Atom::Format(self.format))]
    }
}

/// `#GEN`: when and by whom the file was generated.
#[derive(Debug, PartialEq, Eq)]
pub struct Gen {
    pub date: Date,
    pub signature: Option<String>,
}

impl View for Gen {
    type V = Seq<Value>;

    open spec fn view(&self) -> Seq<Value> {
        seq![date_value(self.date), opt_text_value(self.signature)]
    }
}

/// The fields of `#IB`, `#UB` and `#RES`.
pub open spec fn balance_view(year: i32, account: u32, balance: Amount, quantity: Option<String>) -> Seq<
    Value,
> {
    seq![
        int_value(year as int),
        int_value(account as int),
        amount_value(balance),
        opt_text_value(quantity),
    ]
}

/// `#IB`: the opening balance of an account.
#[derive(Debug, PartialEq, Eq)]
pub struct Ib {
    pub year: i32,
    pub account: u32,
    pub balance: Amount,
    pub quantity: Option<String>,
}

impl View for Ib {
    type V = Seq<Value>;

    open spec fn view(&self) -> Seq<Value> {
        balance_view(self.year, self.account, self.balance, self.quantity)
    }
}

/// `#KONTO`: an account's number and name.
#[derive(Debug, PartialEq, Eq)]
pub struct Konto {
    pub no: u32,
    pub name: String,
}

impl View for Konto {
    type V = Seq<Value>;

    open spec fn view(&self) -> Seq<Value> {
        seq![int_value(self.no as int), text_value(self.name)]
    }
}

/// `#KPTYP`: the chart of accounts.
#[derive(Debug, PartialEq, Eq)]
pub struct KpTyp {
    pub typ: ChartAccountsType,
}

impl View for KpTyp {
    type V = Seq<Value>;

    open spec fn view(&self) -> Seq<Value> {
        seq![Value::One(Atom::Chart(self.typ))]
    }
}

/// `#ORGNR`: the organisation number.
#[derive(Debug, PartialEq, Eq)]
pub struct Orgnr {
    pub org_no: String,
}

impl View for Orgnr {
    type V = Seq<Value>;

    open spec fn view(&self) -> Seq<Value> {
        seq![text_value(self.org_no)]
    }
}

/// `#PROGRAM`: the program that wrote the file.
#[derive(Debug, PartialEq, Eq)]
pub struct Program {
    pub name: String,
    pub version: String,
}

impl View for Program {
    type V = Seq<Value>;

    open spec fn view(&self) -> Seq<Value> {
        seq![text_value(self.name), text_value(self.version)]
    }
}

/// `#RAR`: a financial year.
#[derive(Debug, PartialEq, Eq)]
pub struct Rar {
    pub no: i32,
    pub start: Date,
    pub end: Date,
}

impl View for Rar {
    type V = Seq<Value>;

    open spec fn view(&self) -> Seq<Value> {
        seq![int_value(self.no as int), date_value(self.start), date_value(self.end)]
    }
}

/// `#RES`: the result balance of an account.
#[derive(Debug, PartialEq, Eq)]
pub struct Res {
    pub year: i32,
    pub account: u32,
    pub balance: Amount,
    pub quantity: Option<String>,
}

impl View for Res {
    type V = Seq<Value>;

    open spec fn view(&self) -> Seq<Value> {
        balance_view(self.year, self.account, self.balance, self.quantity)
    }
}

/// `#SIETYP`: the file type.
#[derive(Debug, PartialEq, Eq)]
pub struct SieTyp {
    pub no: TypeNo,
}

impl View for SieTyp {
    type V = Seq<Value>;

    open spec fn view(&self) -> Seq<Value> {
        seq![Value::One(Atom::TypeNo(self.no))]
    }
}

/// `#TRANS`: one transaction of an entry.
#[derive(Debug, PartialEq, Eq)]
pub struct Trans {
    pub account: u32,
    pub objects: List<String>,
    pub amount: Amount,
    pub date: Option<Date>,
    pub text: Option<String>,
    pub quantity: Option<String>,
    pub signature: Option<String>,
}

impl View for Trans {
    type V = Seq<Value>;

    open spec fn view(&self) -> Seq<Value> {
        seq![
            int_value(self.account as int),
            list_value(self.objects),
            amount_value(self.amount),
            opt_date_value(self.date),
            opt_text_value(self.text),
            opt_text_value(self.quantity),
            opt_text_value(self.signature),
        ]
    }
}

/// `#UB`: the closing balance of an account.
#[derive(Debug, PartialEq, Eq)]
pub struct Ub {
    pub year: i32,
    pub account: u32,
    pub balance: Amount,
    pub quantity: Option<String>,
}

impl View for Ub {
    type V = Seq<Value>;

    open spec fn view(&self) -> Seq<Value> {
        balance_view(self.year, self.account, self.balance, self.quantity)
    }
}

/// `#VALUTA`: the currency of the amounts.
#[derive(Debug, PartialEq, Eq)]
pub struct Valuta {
    pub currency: Currency,
}

impl View for Valuta {
    type V = Seq<Value>;

    open spec fn view(&self) -> Seq<Value> {
        seq![Value::One(Atom::Currency(self.currency@))]
    }
}

/// `#VER`: an entry with its transactions.
#[derive(Debug, PartialEq, Eq)]
pub struct Ver {
    pub series: String,
    pub no: u32,
    pub date: Date,
    pub text: Option<String>,
    pub reg_date: Option<Date>,
    pub sign: Option<String>,
    pub transactions: SubItems<Trans>,
}

impl View for Ver {
    type V = Seq<Value>;

    open spec fn view(&self) -> Seq<Value> {
        seq![
            text_value(self.series),
            int_value(self.no as int),
            date_value(self.date),
            opt_text_value(self.text),
            opt_date_value(self.reg_date),
            opt_text_value(self.sign),
            records_value(self.transactions),
        ]
    }
}

/// One decoded record.
#[derive(Debug, PartialEq, Eq)]
pub enum Item {
    Adress(Adress),
    BKod(BKod),
    Flagga(Flagga),
    FNamn(FNamn),
    Format(Format),
    Gen(Gen),
    Ib(Ib),
    Konto(Konto),
    KpTyp(KpTyp),
    Orgnr(Orgnr),
    Program(Program),
    Rar(Rar),
    Res(Res),
    SieTyp(SieTyp),
    Trans(Trans),
    Ub(Ub),
    Valuta(Valuta),
    Ver(Ver),
}

impl View for Item {
    type V = (Kind, Seq<Value>);

    open spec fn view(&self) -> (Kind, Seq<Value>) {
        match self {
            Item::Adress(r) => (Kind::Adress, r@),
            Item::BKod(r) => (Kind::BKod, r@),
            Item::Flagga(r) => (Kind::Flagga, r@),
            Item::FNamn(r) => (Kind::FNamn, r@),
            Item::Format(r) => (Kind::Format, r@),
            Item::Gen(r) => (Kind::Gen, r@),
            Item::Ib(r) => (Kind::Ib, r@),
            Item::Konto(r) => (Kind::Konto, r@),
            Item::KpTyp(r) => (Kind::KpTyp, r@),
            Item::Orgnr(r) => (Kind::Orgnr, r@),
            Item::Program(r) => (Kind::Program, r@),
            Item::Rar(r) => (Kind::Rar, r@),
            Item::Res(r) => (Kind::Res, r@),
            Item::SieTyp(r) => (Kind::SieTyp, r@),
            Item::Trans(r) => (Kind::Trans, r@),
            Item::Ub(r) => (Kind::Ub, r@),
            Item::Valuta(r) => (Kind::Valuta, r@),
            Item::Ver(r) => (Kind::Ver, r@),
        }
    }
}

} // verus!
