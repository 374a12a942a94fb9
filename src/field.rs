//! Field decoders: one token or region to one value, or a typed absence.
use vstd::prelude::*;

use crate::bytes::{
    boundary, braces, find_run_end, in_curly_braces, in_run, lemma_run_end, nothing, nothing_of,
    quoted, quoted_text, run_end, tag, take_tag, token_boundary, unquoted, unquoted_text, Blame,
    Outcome, Parsed, Run, Span,
};
use crate::codecs::{
    calendar_date_exists, cp437, decimal_value, decode_cp437, is_currency_code, iso_currency_code,
    parse_decimal, valid_date,
};
use crate::item::Trans;

verus! {

pub const MINUS: u8 = 45;

/// A calendar date.
#[derive(Clone, Copy, PartialEq, Eq, Debug)]
pub struct Date {
    pub year: i32,
    pub month: u8,
    pub day: u8,
}

/// A decimal amount: `mantissa` divided by ten to the power `scale`.
#[derive(Clone, Copy, PartialEq, Eq, Debug)]
pub struct Amount {
    pub mantissa: i128,
    pub scale: u32,
}

/// An ISO 4217 alphabetic currency code.
#[derive(PartialEq, Eq, Debug)]
pub struct Currency {
    code: String,
}

impl View for Currency {
    type V = Seq<char>;

    closed spec fn view(&self) -> Seq<char> {
        self.code@
    }
}

impl Currency {
    /// Only codes that ISO 4217 lists are held.
    #[verifier::type_invariant]
    spec fn listed(self) -> bool {
        iso_currency_code(self.code@)
    }

    /// The alphabetic code, which ISO 4217 lists.
    pub fn code(&self) -> (r: &str)
        ensures
            r@ == self@,
            iso_currency_code(r@),
    {
        proof {
            use_type_invariant(self);
        }
        self.code.as_str()
    }
}

#[derive(Clone, Copy, PartialEq, Eq, Debug)]
pub enum FormatType {
    PC8,
}

#[derive(Clone, Copy, PartialEq, Eq, Debug)]
pub enum TypeNo {
    SIE4,
}

#[derive(Clone, Copy, PartialEq, Eq, Debug)]
pub enum ChartAccountsType {
    Bas95,
    Bas96,
    EuBas97,
    Ne2007,
}

/// A brace-delimited list of field values, in file order.
#[derive(Debug, Default, PartialEq, Eq)]
pub struct List<T>(pub Vec<T>);

impl<T> List<T> {
    pub fn from(value: Vec<T>) -> (r: Self)
        ensures
            r.0@ == value@,
    {
        List(value)
    }
}

/// The nested records of one kind inside a brace-delimited region.
#[derive(Debug, PartialEq, Eq)]
pub struct SubItems<T>(pub Vec<T>);

/// The kinds of single-token fields.
#[derive(Clone, Copy, PartialEq, Eq, Debug)]
pub enum Scalar {
    Flag,
    Int,
    Uint,
    Text,
    Date,
    Currency,
    Amount,
    Format,
    TypeNo,
    Chart,
}

/// The kinds of fields that a record is made of.
#[derive(Clone, Copy, PartialEq, Eq, Debug)]
pub enum FieldKind {
    One(Scalar),
    /// Absent when the next token does not even begin like the scalar.
    Maybe(Scalar),
    /// A list of strings in braces.
    List,
    /// A brace-delimited region of `#TRANS` records.
    Transactions,
}

/// The value of a single-token field, in spec terms.
pub enum Atom {
    Flag(bool),
    Int(int),
    Text(Seq<char>),
    Date(Date),
    Currency(Seq<char>),
    Amount(int, int),
    Format(FormatType),
    TypeNo(TypeNo),
    Chart(ChartAccountsType),
}

/// The value of a field, in spec terms.
pub enum Value {
    One(Atom),
    Maybe(Option<Atom>),
    List(Seq<Seq<char>>),
    Records(Seq<Seq<Value>>),
}

/// The value of a single-token field.
#[derive(Debug, PartialEq, Eq)]
pub enum AtomVal {
    Flag(bool),
    Int(i32),
    Uint(u32),
    Text(String),
    Date(Date),
    Currency(Currency),
    Amount(Amount),
    Format(FormatType),
    TypeNo(TypeNo),
    Chart(ChartAccountsType),
}

impl View for AtomVal {
    type V = Atom;

    open spec fn view(&self) -> Atom {
        match self {
            AtomVal::Flag(b) => Atom::Flag(*b),
            AtomVal::Int(i) => Atom::Int(*i as int),
            AtomVal::Uint(u) => Atom::Int(*u as int),
            AtomVal::Text(s) => Atom::Text(s@),
            AtomVal::Date(d) => Atom::Date(*d),
            AtomVal::Currency(c) => Atom::Currency(c@),
            AtomVal::Amount(a) => Atom::Amount(a.mantissa as int, a.scale as int),
            AtomVal::Format(f) => Atom::Format(*f),
            AtomVal::TypeNo(t) => Atom::TypeNo(*t),
            AtomVal::Chart(c) => Atom::Chart(*c),
        }
    }
}

pub open spec fn atom_view(o: Option<AtomVal>) -> Option<Atom> {
    match o {
        Some(a) => Some(a@),
        None => None,
    }
}

/// The value of a field.
#[derive(Debug, PartialEq, Eq)]
pub enum FieldVal {
    One(AtomVal),
    Maybe(Option<AtomVal>),
    List(Vec<String>),
    Records(Vec<Trans>),
}

impl View for FieldVal {
    type V = Value;

    open spec fn view(&self) -> Value {
        match self {
            FieldVal::One(a) => Value::One(a@),
            FieldVal::Maybe(o) => Value::Maybe(atom_view(*o)),
            FieldVal::List(v) => Value::List(v@.map_values(|s: String| s@)),
            FieldVal::Records(v) => Value::Records(v@.map_values(|t: Trans| t@)),
        }
    }
}

/// The same failure or shortfall, with another value type.
pub open spec fn fail_as<A, B>(o: Outcome<A>) -> Outcome<B> {
    match o {
        Outcome::Done(_, _) => Outcome::Failure(Blame::none()),
        Outcome::Incomplete => Outcome::Incomplete,
        Outcome::Error(b) => Outcome::Error(b),
        Outcome::Failure(b) => Outcome::Failure(b),
    }
}

pub(crate) fn recast<A: View, B: View>(r: Parsed<A>) -> (s: Parsed<B>)
    requires
        !(r is Done),
    ensures
        s@ == fail_as::<A::V, B::V>(r@),
{
    match r {
        Parsed::Done(_, _) => Parsed::Failure(Blame::unknown()),
        Parsed::Incomplete => Parsed::Incomplete,
        Parsed::Error(b) => Parsed::Error(b),
        Parsed::Failure(b) => Parsed::Failure(b),
    }
}

/// The text of a token span through code page 437.
pub open spec fn span_text(w: Seq<u8>, a: int, b: int) -> Seq<char> {
    cp437(w.subrange(a, b))
}

fn decode_span(w: &[u8], s: Span) -> (r: String)
    requires
        s.start <= s.end <= w@.len(),
    ensures
        r@ == span_text(w@, s.start as int, s.end as int),
        ascii_kept(r@, w@, s.start as int, s.end as int),
{
    let part = &w[s.start..s.end];
    let r = decode_cp437(part);
    assert(r@ =~= cp437(w@.subrange(s.start as int, s.end as int)));
    assert forall|i: int| 0 <= i < s.end - s.start && w@[s.start + i] < 128 implies r@[i] as u32
        == w@[s.start + i] as u32 by {
        assert(part@[i] == w@[s.start + i]);
    }
    r
}

/// Each ASCII byte of `w[a..b]` stands unchanged in `t`.
pub open spec fn ascii_kept(t: Seq<char>, w: Seq<u8>, a: int, b: int) -> bool {
    forall|i: int| 0 <= i < b - a && w[a + i] < 128 ==> t[i] as u32 == w[a + i] as u32
}

/// A quoted string, or else an unquoted token.
pub open spec fn text_span(w: Seq<u8>, p: int, fin: bool) -> Outcome<(int, int)> {
    match quoted(w, p, fin) {
        Outcome::Error(_) => unquoted(w, p, fin),
        o => o,
    }
}

fn take_text_span(w: &[u8], p: usize, fin: bool) -> (r: Parsed<Span>)
    requires
        p <= w@.len(),
    ensures
        r@ == text_span(w@, p as int, fin),
        r matches Parsed::Done(s, e) ==> p <= s.start <= s.end < e <= w@.len() || (p <= s.start
            <= s.end == e <= w@.len() && p < e),
{
    match quoted_text(w, p, fin) {
        Parsed::Error(_) => unquoted_text(w, p, fin),
        r => r,
    }
}

pub open spec fn text_at(w: Seq<u8>, p: int, fin: bool) -> Outcome<Seq<char>> {
    match text_span(w, p, fin) {
        Outcome::Done((a, b), e) => Outcome::Done(span_text(w, a, b), e),
        o => fail_as(o),
    }
}

/// Decode a string field: a double-quoted string, or else an unquoted
/// token, through code page 437.
pub fn text(w: &[u8], p: usize, fin: bool) -> (r: Parsed<String>)
    requires
        p <= w@.len(),
    ensures
        r@ == text_at(w@, p as int, fin),
        r matches Parsed::Done(_, e) ==> p < e <= w@.len(),
        r matches Parsed::Done(t, _) ==> (text_span(w@, p as int, fin) matches Outcome::Done(
            (a, b),
            _,
        ) && ascii_kept(t@, w@, a, b)),
{
    match take_text_span(w, p, fin) {
        Parsed::Done(s, e) => Parsed::Done(decode_span(w, s), e),
        r => recast(r),
    }
}

/// The one-byte token `0` or `1`.
pub open spec fn flag_at(w: Seq<u8>, p: int, fin: bool) -> Outcome<Atom> {
    if p >= w.len() {
        nothing(fin)
    } else if w[p] == 48 || w[p] == 49 {
        match boundary(w, p + 1, fin) {
            Outcome::Done(_, e) => Outcome::Done(Atom::Flag(w[p] == 49), e),
            o => fail_as(o),
        }
    } else {
        Outcome::Error(Blame::none())
    }
}

/// The number that the decimal digits in `w[a..b]` spell.
pub open spec fn digits_value(w: Seq<u8>, a: int, b: int) -> int
    decreases b - a,
{
    if b <= a {
        0
    } else {
        digits_value(w, a, b - 1) * 10 + (w[b - 1] - 48)
    }
}

/// An optional `-` and one or more digits; the value must fit an `i32`
/// (`signed`) or a `u32`, which takes no sign. A token without digits does
/// not have the shape of a number, a mismatch; a number that does not fit
/// is a hard error.
pub open spec fn int_at(w: Seq<u8>, p: int, fin: bool, signed: bool) -> Outcome<Atom> {
    if p >= w.len() {
        nothing(fin)
    } else {
        let s = if w[p] == MINUS {
            p + 1
        } else {
            p
        };
        let q = run_end(w, s, Run::Digit);
        if q == w.len() && !fin {
            Outcome::Incomplete
        } else if q == s {
            Outcome::Error(Blame::none())
        } else {
            let m = digits_value(w, s, q);
            let v = if s > p {
                -m
            } else {
                m
            };
            if (signed && i32::MIN <= v <= i32::MAX) || (!signed && s == p && v <= u32::MAX) {
                Outcome::Done(Atom::Int(v), q)
            } else {
                Outcome::Failure(Blame::none())
            }
        }
    }
}

const BEYOND_U32: u64 = 0x1_0000_0001;

fn parse_int(w: &[u8], p: usize, fin: bool, signed: bool) -> (r: Parsed<AtomVal>)
    requires
        p <= w@.len(),
    ensures
        r@ == int_at(w@, p as int, fin, signed),
        r matches Parsed::Done(v, e) ==> p < e <= w@.len() && (if signed {
            v is Int
        } else {
            v is Uint
        }),
{
    if p >= w.len() {
        return nothing_of(fin);
    }
    let s = if w[p] == MINUS {
        p + 1
    } else {
        p
    };
    let q = find_run_end(w, s, Run::Digit);
    if q == w.len() && !fin {
        return Parsed::Incomplete;
    }
    if q == s {
        return Parsed::Error(Blame::unknown());
    }
    proof {
        lemma_run_end(w@, s as int, Run::Digit);
    }
    let mut acc: u64 = 0;
    let mut big = false;
    let mut i = s;
    while i < q
        invariant
            s <= i <= q <= w@.len(),
            forall|j: int| s <= j < q ==> in_run(#[trigger] w@[j], Run::Digit),
            digits_value(w@, s as int, i as int) >= 0,
            !big ==> acc == digits_value(w@, s as int, i as int) && acc < BEYOND_U32,
            big ==> digits_value(w@, s as int, i as int) >= BEYOND_U32,
        decreases q - i,
    {
        assert(in_run(w@[i as int], Run::Digit));
        let d = (w[i] - 48) as u64;
        assert(digits_value(w@, s as int, i + 1) == digits_value(w@, s as int, i as int) * 10 + d);
        if !big {
            if acc * 10 + d >= BEYOND_U32 {
                big = true;
            } else {
                acc = acc * 10 + d;
            }
        }
        i = i + 1;
    }
    let neg = s > p;
    if signed {
        if !big && neg && acc <= 0x8000_0000 {
            Parsed::Done(AtomVal::Int((0 - (acc as i64)) as i32), q)
        } else if !big && !neg && acc <= 0x7fff_ffff {
            Parsed::Done(AtomVal::Int(acc as i32), q)
        } else {
            Parsed::Failure(Blame::unknown())
        }
    } else if !big && !neg && acc <= 0xffff_ffff {
        Parsed::Done(AtomVal::Uint(acc as u32), q)
    } else {
        Parsed::Failure(Blame::unknown())
    }
}

pub open spec fn digit(t: Seq<u8>, i: int) -> int {
    t[i] - 48
}

/// The date that an eight-digit token `YYYYMMDD` names, if it names one.
pub open spec fn date_of(t: Seq<u8>) -> Option<Date> {
    if t.len() == 8 && forall|i: int| 0 <= i < 8 ==> 48 <= #[trigger] t[i] <= 57 {
        let y = 1000 * digit(t, 0) + 100 * digit(t, 1) + 10 * digit(t, 2) + digit(t, 3);
        let m = 10 * digit(t, 4) + digit(t, 5);
        let d = 10 * digit(t, 6) + digit(t, 7);
        if valid_date(y, m, d) {
            Some(Date { year: y as i32, month: m as u8, day: d as u8 })
        } else {
            None
        }
    } else {
        None
    }
}

/// Read a token as a date in the layout `YYYYMMDD`.
pub fn date(t: &[u8]) -> (r: Option<Date>)
    ensures
        r == date_of(t@),
{
    if t.len() != 8 {
        return None;
    }
    let mut i: usize = 0;
    while i < 8
        invariant
            i <= 8,
            t@.len() == 8,
            forall|j: int| 0 <= j < i ==> 48 <= #[trigger] t@[j] <= 57,
        decreases 8 - i,
    {
        if t[i] < 48 || t[i] > 57 {
            return None;
        }
        i = i + 1;
    }
    let y = 1000 * (t[0] - 48) as i32 + 100 * (t[1] - 48) as i32 + 10 * (t[2] - 48) as i32 + (t[3]
        - 48) as i32;
    let m = 10 * (t[4] - 48) + (t[5] - 48);
    let d = 10 * (t[6] - 48) + (t[7] - 48);
    if calendar_date_exists(y, m, d) {
        Some(Date { year: y, month: m, day: d })
    } else {
        None
    }
}

/// A date token. A token that does not begin with a digit does not have the
/// shape of a date: that is a mismatch, which leaves an optional date
/// absent; a digit-shaped token that is no date is a hard error.
pub open spec fn date_at(w: Seq<u8>, p: int, fin: bool) -> Outcome<Atom> {
    if 0 <= p < w.len() && !in_run(w[p], Run::Digit) {
        Outcome::Error(Blame::none())
    } else {
        date_token_at(w, p, fin)
    }
}

pub open spec fn date_token_at(w: Seq<u8>, p: int, fin: bool) -> Outcome<Atom> {
    match unquoted(w, p, fin) {
        Outcome::Done((a, b), e) => match date_of(w.subrange(a, b)) {
            Some(d) => Outcome::Done(Atom::Date(d), e),
            None => Outcome::Failure(Blame::none()),
        },
        o => fail_as(o),
    }
}

fn parse_date(w: &[u8], p: usize, fin: bool) -> (r: Parsed<AtomVal>)
    requires
        p <= w@.len(),
    ensures
        r@ == date_at(w@, p as int, fin),
        r matches Parsed::Done(v, e) ==> p < e <= w@.len() && v is Date,
{
    if p < w.len() && (w[p] < 48 || w[p] > 57) {
        return Parsed::Error(Blame::unknown());
    }
    match unquoted_text(w, p, fin) {
        Parsed::Done(s, e) => match date(&w[s.start..s.end]) {
            Some(d) => Parsed::Done(AtomVal::Date(d), e),
            None => Parsed::Failure(Blame::unknown()),
        },
        r => recast(r),
    }
}

/// Read a token as an ISO 4217 currency code.
pub fn currency_code(t: &[u8]) -> (r: Option<Currency>)
    ensures
        match r {
            Some(c) => iso_currency_code(cp437(t@)) && c@ == cp437(t@),
            None => !iso_currency_code(cp437(t@)),
        },
{
    let s = decode_cp437(t);
    assert(s@ =~= cp437(t@));
    if is_currency_code(s.as_str()) {
        Some(Currency { code: s })
    } else {
        None
    }
}

pub open spec fn currency_at(w: Seq<u8>, p: int, fin: bool) -> Outcome<Atom> {
    match unquoted(w, p, fin) {
        Outcome::Done((a, b), e) => if iso_currency_code(span_text(w, a, b)) {
            Outcome::Done(Atom::Currency(span_text(w, a, b)), e)
        } else {
            Outcome::Failure(Blame::none())
        },
        o => fail_as(o),
    }
}

fn parse_currency(w: &[u8], p: usize, fin: bool) -> (r: Parsed<AtomVal>)
    requires
        p <= w@.len(),
    ensures
        r@ == currency_at(w@, p as int, fin),
        r matches Parsed::Done(v, e) ==> p < e <= w@.len() && v is Currency,
{
    match unquoted_text(w, p, fin) {
        Parsed::Done(s, e) => match currency_code(&w[s.start..s.end]) {
            Some(c) => Parsed::Done(AtomVal::Currency(c), e),
            None => Parsed::Failure(Blame::unknown()),
        },
        r => recast(r),
    }
}

/// Read a token as a decimal amount with `.` as radix point.
pub fn amount(t: &[u8]) -> (r: Option<Amount>)
    ensures
        decimal_value(cp437(t@)) == (match r {
            Some(a) => Some((a.mantissa as int, a.scale as int)),
            None => None,
        }),
{
    let s = decode_cp437(t);
    assert(s@ =~= cp437(t@));
    match parse_decimal(s.as_str()) {
        Some((m, e)) => Some(Amount { mantissa: m, scale: e }),
        None => None,
    }
}

pub open spec fn amount_at(w: Seq<u8>, p: int, fin: bool) -> Outcome<Atom> {
    match unquoted(w, p, fin) {
        Outcome::Done((a, b), e) => match decimal_value(span_text(w, a, b)) {
            Some((m, s)) => Outcome::Done(Atom::Amount(m, s), e),
            None => Outcome::Failure(Blame::none()),
        },
        o => fail_as(o),
    }
}

fn parse_amount(w: &[u8], p: usize, fin: bool) -> (r: Parsed<AtomVal>)
    requires
        p <= w@.len(),
    ensures
        r@ == amount_at(w@, p as int, fin),
        r matches Parsed::Done(v, e) ==> p < e <= w@.len() && v is Amount,
{
    match unquoted_text(w, p, fin) {
        Parsed::Done(s, e) => match amount(&w[s.start..s.end]) {
            Some(a) => Parsed::Done(AtomVal::Amount(a), e),
            None => Parsed::Failure(Blame::unknown()),
        },
        r => recast(r),
    }
}


/// The token `lit`: the literal, and then a byte that ends a token.
pub open spec fn lit_at(w: Seq<u8>, p: int, fin: bool, lit: Seq<u8>, a: Atom) -> Outcome<Atom> {
    match tag(w, p, lit, fin) {
        Outcome::Done(_, e) => match boundary(w, e, fin) {
            Outcome::Done(_, f) => Outcome::Done(a, f),
            o => fail_as(o),
        },
        o => fail_as(o),
    }
}

pub open spec fn pc8() -> Seq<u8> {
    seq![80u8, 67, 56]
}

pub open spec fn type_four() -> Seq<u8> {
    seq![52u8]
}

pub open spec fn chart_label(c: ChartAccountsType) -> Seq<u8> {
    match c {
        ChartAccountsType::Bas95 => seq![66u8, 65, 83, 57, 53],
        ChartAccountsType::Bas96 => seq![66u8, 65, 83, 57, 54],
        ChartAccountsType::EuBas97 => seq![69u8, 85, 66, 65, 83, 57, 55],
        ChartAccountsType::Ne2007 => seq![78u8, 69, 50, 48, 48, 55],
    }
}

/// The chart identifiers are tried in order; the first that is not a
/// mismatch decides.
pub open spec fn chart_at(w: Seq<u8>, p: int, fin: bool) -> Outcome<Atom> {
    let c = ChartAccountsType::Bas95;
    match lit_at(w, p, fin, chart_label(c), Atom::Chart(c)) {
        Outcome::Error(_) => {
            let c = ChartAccountsType::Bas96;
            match lit_at(w, p, fin, chart_label(c), Atom::Chart(c)) {
                Outcome::Error(_) => {
                    let c = ChartAccountsType::EuBas97;
                    match lit_at(w, p, fin, chart_label(c), Atom::Chart(c)) {
                        Outcome::Error(_) => {
                            let c = ChartAccountsType::Ne2007;
                            lit_at(w, p, fin, chart_label(c), Atom::Chart(c))
                        },
                        o => o,
                    }
                },
                o => o,
            }
        },
        o => o,
    }
}

fn label_of_chart(c: ChartAccountsType) -> (r: Vec<u8>)
    ensures
        r@ == chart_label(c),
{
    let mut v: Vec<u8> = Vec::new();
    match c {
        ChartAccountsType::Bas95 => {
            v.push(66);
            v.push(65);
            v.push(83);
            v.push(57);
            v.push(53);
        },
        ChartAccountsType::Bas96 => {
            v.push(66);
            v.push(65);
            v.push(83);
            v.push(57);
            v.push(54);
        },
        ChartAccountsType::EuBas97 => {
            v.push(69);
            v.push(85);
            v.push(66);
            v.push(65);
            v.push(83);
            v.push(57);
            v.push(55);
        },
        ChartAccountsType::Ne2007 => {
            v.push(78);
            v.push(69);
            v.push(50);
            v.push(48);
            v.push(48);
            v.push(55);
        },
    }
    assert(v@ =~= chart_label(c));
    v
}

fn parse_literal(w: &[u8], p: usize, fin: bool, lit: &[u8], a: AtomVal) -> (r: Parsed<AtomVal>)
    requires
        p <= w@.len(),
    ensures
        r@ == lit_at(w@, p as int, fin, lit@, a@),
        r matches Parsed::Done(v, e) ==> p <= e <= w@.len() && v == a,
{
    match take_tag(w, p, lit, fin) {
        Parsed::Done(_, e) => match token_boundary(w, e, fin) {
            Parsed::Done(_, f) => Parsed::Done(a, f),
            r => recast(r),
        },
        r => recast(r),
    }
}

fn parse_chart(w: &[u8], p: usize, fin: bool) -> (r: Parsed<AtomVal>)
    requires
        p <= w@.len(),
    ensures
        r@ == chart_at(w@, p as int, fin),
        r matches Parsed::Done(v, e) ==> p <= e <= w@.len() && v is Chart,
{
    let c = ChartAccountsType::Bas95;
    let r = parse_literal(w, p, fin, label_of_chart(c).as_slice(), AtomVal::Chart(c));
    if !matches!(r, Parsed::Error(_)) {
        return r;
    }
    let c = ChartAccountsType::Bas96;
    let r = parse_literal(w, p, fin, label_of_chart(c).as_slice(), AtomVal::Chart(c));
    if !matches!(r, Parsed::Error(_)) {
        return r;
    }
    let c = ChartAccountsType::EuBas97;
    let r = parse_literal(w, p, fin, label_of_chart(c).as_slice(), AtomVal::Chart(c));
    if !matches!(r, Parsed::Error(_)) {
        return r;
    }
    let c = ChartAccountsType::Ne2007;
    parse_literal(w, p, fin, label_of_chart(c).as_slice(), AtomVal::Chart(c))
}

/// A single-token field of kind `k`.
pub open spec fn scalar_at(k: Scalar, w: Seq<u8>, p: int, fin: bool) -> Outcome<Atom> {
    match k {
        Scalar::Flag => flag_at(w, p, fin),
        Scalar::Int => int_at(w, p, fin, true),
        Scalar::Uint => int_at(w, p, fin, false),
        Scalar::Text => match text_at(w, p, fin) {
            Outcome::Done(t, e) => Outcome::Done(Atom::Text(t), e),
            o => fail_as(o),
        },
        Scalar::Date => date_at(w, p, fin),
        Scalar::Currency => currency_at(w, p, fin),
        Scalar::Amount => amount_at(w, p, fin),
        Scalar::Format => lit_at(w, p, fin, pc8(), Atom::Format(FormatType::PC8)),
        Scalar::TypeNo => lit_at(w, p, fin, type_four(), Atom::TypeNo(TypeNo::SIE4)),
        Scalar::Chart => chart_at(w, p, fin),
    }
}

/// The executable value agrees in variant with the scalar kind.
pub open spec fn scalar_fits(k: Scalar, a: AtomVal) -> bool {
    match k {
        Scalar::Flag => a is Flag,
        Scalar::Int => a is Int,
        Scalar::Uint => a is Uint,
        Scalar::Text => a is Text,
        Scalar::Date => a is Date,
        Scalar::Currency => a is Currency,
        Scalar::Amount => a is Amount,
        Scalar::Format => a is Format,
        Scalar::TypeNo => a is TypeNo,
        Scalar::Chart => a is Chart,
    }
}

/// Decode a single-token field of kind `k`.
pub fn parse_scalar(k: Scalar, w: &[u8], p: usize, fin: bool) -> (r: Parsed<AtomVal>)
    requires
        p <= w@.len(),
    ensures
        r@ == scalar_at(k, w@, p as int, fin),
        r matches Parsed::Done(v, e) ==> p <= e <= w@.len() && scalar_fits(k, v),
{
    match k {
        Scalar::Flag => {
            if p >= w.len() {
                nothing_of(fin)
            } else if w[p] == 48 || w[p] == 49 {
                match token_boundary(w, p + 1, fin) {
                    Parsed::Done(_, e) => Parsed::Done(AtomVal::Flag(w[p] == 49), e),
                    r => recast(r),
                }
            } else {
                Parsed::Error(Blame::unknown())
            }
        },
        Scalar::Int => parse_int(w, p, fin, true),
        Scalar::Uint => parse_int(w, p, fin, false),
        Scalar::Text => match text(w, p, fin) {
            Parsed::Done(t, e) => Parsed::Done(AtomVal::Text(t), e),
            r => recast(r),
        },
        Scalar::Date => parse_date(w, p, fin),
        Scalar::Currency => parse_currency(w, p, fin),
        Scalar::Amount => parse_amount(w, p, fin),
        Scalar::Format => {
            let lit: [u8; 3] = [80, 67, 56];
            assert(lit@ =~= pc8());
            parse_literal(w, p, fin, &lit, AtomVal::Format(FormatType::PC8))
        },
        Scalar::TypeNo => {
            let lit: [u8; 1] = [52];
            assert(lit@ =~= type_four());
            parse_literal(w, p, fin, &lit, AtomVal::TypeNo(TypeNo::SIE4))
        },
        Scalar::Chart => parse_chart(w, p, fin),
    }
}

/// The strings of a closed region `w` from `q` on, separated by spaces,
/// tabs and line breaks. Anything that is not a string is a hard error.
pub open spec fn list_items(w: Seq<u8>, q: int, acc: Seq<Seq<char>>) -> Outcome<Seq<Seq<char>>>
    decreases w.len() - q,
{
    let s = run_end(w, q, Run::Separator);
    if q < 0 || s >= w.len() {
        Outcome::Done(acc, w.len() as int)
    } else {
        match text_span(w, s, true) {
            Outcome::Done((a, b), e) => if q < e <= w.len() {
                list_items(w, e, acc.push(span_text(w, a, b)))
            } else {
                Outcome::Failure(Blame::none())
            },
            Outcome::Failure(b) => Outcome::Failure(b),
            _ => Outcome::Failure(Blame::none()),
        }
    }
}

/// A list of strings in braces.
pub open spec fn list_at(w: Seq<u8>, p: int, fin: bool) -> Outcome<Value> {
    match braces(w, p, fin) {
        Outcome::Done((a, c), e) => if 0 <= a <= c <= w.len() {
            match list_items(w.subrange(0, c), a, seq![]) {
                Outcome::Done(items, _) => Outcome::Done(Value::List(items), e),
                Outcome::Failure(b) => Outcome::Failure(b),
                _ => Outcome::Failure(Blame::none()),
            }
        } else {
            Outcome::Failure(Blame::none())
        },
        o => fail_as(o),
    }
}

/// Decode a list of strings in braces.
pub fn parse_list(w: &[u8], p: usize, fin: bool) -> (r: Parsed<FieldVal>)
    requires
        p <= w@.len(),
    ensures
        r@ == list_at(w@, p as int, fin),
        r matches Parsed::Done(v, e) ==> p <= e <= w@.len() && v is List,
{
    let (span, e) = match in_curly_braces(w, p, fin) {
        Parsed::Done(s, e) => (s, e),
        r => return recast(r),
    };
    let inner = &w[0..span.end];
    assert(inner@ == w@.subrange(0, span.end as int));
    let mut items: Vec<String> = Vec::new();
    let mut q = span.start;
    assert(items@.map_values(|s: String| s@) =~= Seq::<Seq<char>>::empty());
    loop
        invariant
            span.start <= q <= inner@.len(),
            span.start <= span.end < e <= w@.len(),
            p < span.start,
            inner@ == w@.subrange(0, span.end as int),
            braces(w@, p as int, fin) == Outcome::Done((span.start as int, span.end as int), e as int),
            list_items(inner@, span.start as int, seq![]) == list_items(
                inner@,
                q as int,
                items@.map_values(|s: String| s@),
            ),
        decreases inner@.len() - q,
    {
        let s = find_run_end(inner, q, Run::Separator);
        if s >= inner.len() {
            return Parsed::Done(FieldVal::List(items), e);
        }
        match take_text_span(inner, s, true) {
            Parsed::Done(sp, e2) => {
                let t = decode_span(inner, sp);
                proof {
                    assert(items@.push(t).map_values(|s: String| s@) =~= items@.map_values(
                        |s: String| s@,
                    ).push(t@));
                }
                items.push(t);
                q = e2;
            },
            Parsed::Failure(b) => {
                return Parsed::Failure(b);
            },
            _ => {
                return Parsed::Failure(Blame::unknown());
            },
        }
    }
}

/// A field that is not a region of nested records.
pub open spec fn leaf_at(k: FieldKind, w: Seq<u8>, p: int, fin: bool) -> Outcome<Value> {
    match k {
        FieldKind::One(s) => match scalar_at(s, w, p, fin) {
            Outcome::Done(a, e) => Outcome::Done(Value::One(a), e),
            o => fail_as(o),
        },
        FieldKind::Maybe(s) => match scalar_at(s, w, p, fin) {
            Outcome::Done(a, e) => Outcome::Done(Value::Maybe(Some(a)), e),
            Outcome::Error(_) => Outcome::Done(Value::Maybe(None), p),
            o => fail_as(o),
        },
        FieldKind::List => list_at(w, p, fin),
        FieldKind::Transactions => Outcome::Failure(Blame::none()),
    }
}

/// The executable value agrees in shape with the field kind.
pub open spec fn fits(k: FieldKind, f: FieldVal) -> bool {
    match k {
        FieldKind::One(s) => f matches FieldVal::One(a) && scalar_fits(s, a),
        FieldKind::Maybe(s) => f matches FieldVal::Maybe(o) && (o matches Some(a) ==> scalar_fits(
            s,
            a,
        )),
        FieldKind::List => f is List,
        FieldKind::Transactions => f is Records,
    }
}

/// Decode a field that is not a region of nested records.
pub fn parse_leaf(k: FieldKind, w: &[u8], p: usize, fin: bool) -> (r: Parsed<FieldVal>)
    requires
        p <= w@.len(),
    ensures
        r@ == leaf_at(k, w@, p as int, fin),
        r matches Parsed::Done(v, e) ==> p <= e <= w@.len() && fits(k, v),
{
    match k {
        FieldKind::One(s) => match parse_scalar(s, w, p, fin) {
            Parsed::Done(a, e) => Parsed::Done(FieldVal::One(a), e),
            r => recast(r),
        },
        FieldKind::Maybe(s) => match parse_scalar(s, w, p, fin) {
            Parsed::Done(a, e) => Parsed::Done(FieldVal::Maybe(Some(a)), e),
            Parsed::Error(_) => Parsed::Done(FieldVal::Maybe(None), p),
            r => recast(r),
        },
        FieldKind::List => parse_list(w, p, fin),
        FieldKind::Transactions => Parsed::Failure(Blame::unknown()),
    }
}


pub open spec fn text_value(s: String) -> Value {
    Value::One(Atom::Text(s@))
}

pub open spec fn opt_text_value(o: Option<String>) -> Value {
    Value::Maybe(
        match o {
            Some(s) => Some(Atom::Text(s@)),
            None => None,
        },
    )
}

pub open spec fn int_value(i: int) -> Value {
    Value::One(Atom::Int(i))
}

pub open spec fn date_value(d: Date) -> Value {
    Value::One(Atom::Date(d))
}

pub open spec fn opt_date_value(o: Option<Date>) -> Value {
    Value::Maybe(
        match o {
            Some(d) => Some(Atom::Date(d)),
            None => None,
        },
    )
}

pub open spec fn amount_value(a: Amount) -> Value {
    Value::One(Atom::Amount(a.mantissa as int, a.scale as int))
}

pub open spec fn list_value(l: List<String>) -> Value {
    Value::List(l.0@.map_values(|s: String| s@))
}

pub open spec fn records_value(s: SubItems<Trans>) -> Value {
    Value::Records(s.0@.map_values(|t: Trans| t@))
}

impl FieldVal {
    pub(crate) fn into_text(self) -> (r: String)
        requires
            self matches FieldVal::One(a) && a is Text,
        ensures
            self@ == text_value(r),
    {
        match self {
            FieldVal::One(AtomVal::Text(s)) => s,
            _ => String::new(),
        }
    }

    pub(crate) fn into_opt_text(self) -> (r: Option<String>)
        requires
            self matches FieldVal::Maybe(o) && (o matches Some(a) ==> a is Text),
        ensures
            self@ == opt_text_value(r),
    {
        match self {
            FieldVal::Maybe(Some(AtomVal::Text(s))) => Some(s),
            _ => None,
        }
    }

    pub(crate) fn into_int(self) -> (r: i32)
        requires
            self matches FieldVal::One(a) && a is Int,
        ensures
            self@ == int_value(r as int),
    {
        match self {
            FieldVal::One(AtomVal::Int(i)) => i,
            _ => 0,
        }
    }

    pub(crate) fn into_uint(self) -> (r: u32)
        requires
            self matches FieldVal::One(a) && a is Uint,
        ensures
            self@ == int_value(r as int),
    {
        match self {
            FieldVal::One(AtomVal::Uint(u)) => u,
            _ => 0,
        }
    }

    pub(crate) fn into_flag(self) -> (r: bool)
        requires
            self matches FieldVal::One(a) && a is Flag,
        ensures
            self@ == Value::One(Atom::Flag(r)),
    {
        match self {
            FieldVal::One(AtomVal::Flag(b)) => b,
            _ => false,
        }
    }

    pub(crate) fn into_date(self) -> (r: Date)
        requires
            self matches FieldVal::One(a) && a is Date,
        ensures
            self@ == date_value(r),
    {
        match self {
            FieldVal::One(AtomVal::Date(d)) => d,
            _ => Date { year: 0, month: 0, day: 0 },
        }
    }

    pub(crate) fn into_opt_date(self) -> (r: Option<Date>)
        requires
            self matches FieldVal::Maybe(o) && (o matches Some(a) ==> a is Date),
        ensures
            self@ == opt_date_value(r),
    {
        match self {
            FieldVal::Maybe(Some(AtomVal::Date(d))) => Some(d),
            _ => None,
        }
    }

    pub(crate) fn into_amount(self) -> (r: Amount)
        requires
            self matches FieldVal::One(a) && a is Amount,
        ensures
            self@ == amount_value(r),
    {
        match self {
            FieldVal::One(AtomVal::Amount(a)) => a,
            _ => Amount { mantissa: 0, scale: 0 },
        }
    }

    pub(crate) fn into_currency(self) -> (r: Currency)
        requires
            self matches FieldVal::One(a) && a is Currency,
        ensures
            self@ == Value::One(Atom::Currency(r@)),
    {
        match self {
            FieldVal::One(AtomVal::Currency(c)) => c,
            _ => Currency { code: String::new() },
        }
    }

    pub(crate) fn into_format(self) -> (r: FormatType)
        requires
            self matches FieldVal::One(a) && a is Format,
        ensures
            self@ == Value::One(Atom::Format(r)),
    {
        match self {
            FieldVal::One(AtomVal::Format(f)) => f,
            _ => FormatType::PC8,
        }
    }

    pub(crate) fn into_type_no(self) -> (r: TypeNo)
        requires
            self matches FieldVal::One(a) && a is TypeNo,
        ensures
            self@ == Value::One(Atom::TypeNo(r)),
    {
        match self {
            FieldVal::One(AtomVal::TypeNo(t)) => t,
            _ => TypeNo::SIE4,
        }
    }

    pub(crate) fn into_chart(self) -> (r: ChartAccountsType)
        requires
            self matches FieldVal::One(a) && a is Chart,
        ensures
            self@ == Value::One(Atom::Chart(r)),
    {
        match self {
            FieldVal::One(AtomVal::Chart(c)) => c,
            _ => ChartAccountsType::Bas95,
        }
    }

    pub(crate) fn into_list(self) -> (r: List<String>)
        requires
            self is List,
        ensures
            self@ == list_value(r),
    {
        match self {
            FieldVal::List(v) => List(v),
            _ => List(Vec::new()),
        }
    }

    pub(crate) fn into_records(self) -> (r: SubItems<Trans>)
        requires
            self is Records,
        ensures
            self@ == records_value(r),
    {
        match self {
            FieldVal::Records(v) => SubItems(v),
            _ => SubItems(Vec::new()),
        }
    }
}

} // verus!
