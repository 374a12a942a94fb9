//! What holds of the decoders and the reader across inputs and calls.
use vstd::prelude::*;

use crate::bytes::{
    lemma_unbalanced_close, quote_end, quoted, run_end, skip_to, tag, token_end, unbalanced_close,
    Outcome, QuoteEnd, Run, BACKSLASH, HASH, QUOTE,
};
use crate::codecs::cp437;
use crate::decode::{dispatch, record};
use crate::bytes::{in_run, unquoted, LF, SPACE};
use crate::field::{
    date_of, digits_value, int_at, leaf_at, scalar_at, span_text, text_at, text_span, Atom,
    FieldKind, Scalar, Value,
};
use crate::item::{body, field_at, fields, group_of, kind_at, label, schema, Kind, KINDS};
use crate::reader::{fed, pull, Pulled, ReaderState};
use crate::stable::{
    lemma_field_stable, lemma_record_stable, lemma_skip_stable, lemma_tag_stable,
    lemma_text_span_stable,
};

verus! {

/// Once the stream has ended, every pull hands out `End` and changes
/// nothing.
pub proof fn law_ended_is_final(s: ReaderState)
    requires
        s.ended,
    ensures
        pull(s) == (s, Pulled::End),
{
}

/// While the buffered bytes do not settle the next record and the source
/// may still deliver, a pull hands out nothing but a request for bytes.
pub proof fn law_unsettled_asks_for_bytes(s: ReaderState)
    requires
        !s.ended,
        !s.source_done,
        record(s.pending) is Incomplete,
    ensures
        pull(s) == (s, Pulled::NeedBytes),
{
}

/// How the stream is cut into chunks does not matter: once the buffered
/// bytes settle what the next pull hands out, feeding a chunk before the
/// pull instead of after it changes neither what the pull hands out nor
/// the state it leaves, but for the chunk itself.
pub proof fn law_feed_commutes_with_settled_pull(s: ReaderState, chunk: Seq<u8>)
    requires
        s.ended || !(record(s.pending) is Incomplete),
    ensures
        pull(fed(s, chunk)).1 == pull(s).1,
        pull(fed(s, chunk)).0 == fed(pull(s).0, chunk),
{
    if !s.ended {
        lemma_record_stable(s.pending, chunk);
        if let Outcome::Done(_, n) = record(s.pending) {
            let all = s.pending + chunk;
            assert(all.subrange(n, all.len() as int) =~= s.pending.subrange(
                n,
                s.pending.len() as int,
            ) + chunk);
        }
    }
}

/// A record whose group is below that of the record before it ends the
/// stream: the first record is handed out, then the ordering failure, and
/// nothing after it.
pub proof fn law_group_regression_ends_stream(s: ReaderState)
    requires
        !s.ended,
        record(s.pending) matches Outcome::Done((k1, _), n1) && s.watermark.rank() <= group_of(
            k1,
        ).rank() && (record(s.pending.subrange(n1, s.pending.len() as int)) matches Outcome::Done(
            (k2, _),
            _,
        ) && group_of(k2).rank() < group_of(k1).rank()),
    ensures
        pull(s).1 is Item,
        pull(pull(s).0).1 is OutOfOrder,
        pull(pull(s).0).0.ended,
        pull(pull(pull(s).0).0).1 is End,
{
}

/// When the source is done and the bytes left do not make a whole record,
/// the stream ends cleanly: no partial record and no failure.
pub proof fn law_truncated_tail_ends_cleanly(s: ReaderState)
    requires
        !s.ended,
        s.source_done,
        record(s.pending) is Incomplete,
    ensures
        pull(s) == (ReaderState { ended: true, ..s }, Pulled::End),
{
}

/// A backslash hides the byte after it from the delimiter scanner: that
/// byte never closes the region, and the scan goes on after the pair as if
/// it were not there.
pub proof fn law_escape_hides_next_byte(w: Seq<u8>, i: int, open: u8, close: u8, depth: nat)
    requires
        0 <= i,
        i + 1 < w.len(),
        w[i] == BACKSLASH,
    ensures
        unbalanced_close(w, i, open, close, depth) == unbalanced_close(w, i + 2, open, close, depth),
        unbalanced_close(w, i, open, close, depth) != Some(i + 1),
{
    lemma_unbalanced_close(w, i + 2, open, close, depth);
}

proof fn lemma_quote_end_plain(w: Seq<u8>, j: int, c: int)
    requires
        1 <= j <= c < w.len(),
        w[c] == QUOTE,
        forall|i: int| j <= i < c ==> #[trigger] w[i] != QUOTE && w[i] != BACKSLASH,
    ensures
        quote_end(w, j) == QuoteEnd::Close(c),
    decreases c - j,
{
    if j < c {
        lemma_quote_end_plain(w, j + 1, c);
    }
}

/// A string written in quotes, with neither quote nor backslash inside,
/// decodes to the adapter's text of exactly its bytes, and the closing
/// quote is the last byte consumed.
pub proof fn law_quoted_text_round_trip(c: Seq<u8>, rest: Seq<u8>, fin: bool)
    requires
        forall|i: int| 0 <= i < c.len() ==> #[trigger] c[i] != QUOTE && c[i] != BACKSLASH,
    ensures
        text_at(seq![QUOTE] + c + seq![QUOTE] + rest, 0, fin) == Outcome::Done(
            cp437(c),
            c.len() + 2int,
        ),
{
    let w = seq![QUOTE] + c + seq![QUOTE] + rest;
    let n = c.len() as int;
    assert forall|i: int| 1 <= i < n + 1 implies #[trigger] w[i] != QUOTE && w[i] != BACKSLASH by {
        assert(w[i] == c[i - 1]);
    }
    assert(w[n + 1] == QUOTE);
    lemma_quote_end_plain(w, 1, n + 1);
    assert(quoted(w, 0, fin) == Outcome::Done((1int, n + 1), n + 2));
    assert(w.subrange(1, n + 1) =~= c);
}

proof fn lemma_run_end_token(w: Seq<u8>, j: int, n: int)
    requires
        0 <= j <= n < w.len(),
        token_end(w[n]),
        forall|i: int| j <= i < n ==> !token_end(#[trigger] w[i]),
    ensures
        run_end(w, j, Run::Token) == n,
    decreases n - j,
{
    if j < n {
        lemma_run_end_token(w, j + 1, n);
    }
}

/// A bare token, followed by a byte that ends it, decodes to the adapter's
/// text of exactly its bytes, and nothing after it is consumed.
pub proof fn law_bare_text_round_trip(c: Seq<u8>, rest: Seq<u8>, fin: bool)
    requires
        c.len() > 0,
        c[0] != QUOTE,
        forall|i: int| 0 <= i < c.len() ==> !token_end(#[trigger] c[i]),
        rest.len() > 0,
        token_end(rest[0]),
    ensures
        text_at(c + rest, 0, fin) == Outcome::Done(cp437(c), c.len() as int),
{
    let w = c + rest;
    let n = c.len() as int;
    assert forall|i: int| 0 <= i < n implies !token_end(#[trigger] w[i]) by {
        assert(w[i] == c[i]);
    }
    assert(w[n] == rest[0]);
    lemma_run_end_token(w, 0, n);
    assert(w.subrange(0, n) =~= c);
}

/// An optional date is absent, with nothing consumed, when the next token
/// does not begin with a digit; a digit-shaped token that names no date is
/// a hard error, not an absence.
pub proof fn law_optional_date_shape(w: Seq<u8>, p: int, fin: bool)
    requires
        0 <= p < w.len(),
    ensures
        !in_run(w[p], Run::Digit) ==> leaf_at(FieldKind::Maybe(Scalar::Date), w, p, fin)
            == Outcome::Done(Value::Maybe(None), p),
        in_run(w[p], Run::Digit) && (unquoted(w, p, fin) matches Outcome::Done((a, b), _)
            && date_of(w.subrange(a, b)) is None) ==> leaf_at(
            FieldKind::Maybe(Scalar::Date),
            w,
            p,
            fin,
        ) is Failure,
{
}

/// The text that a field's value holds, if it is a string field.
pub open spec fn text_of(v: Value) -> Option<Seq<char>> {
    match v {
        Value::One(Atom::Text(t)) => Some(t),
        Value::Maybe(Some(Atom::Text(t))) => Some(t),
        _ => None,
    }
}

/// `t` is the adapter's text of some bytes of `w`.
pub open spec fn decoded_from(t: Seq<char>, w: Seq<u8>) -> bool {
    exists|a: int, b: int| 0 <= a <= b <= w.len() && t == cp437(w.subrange(a, b))
}

/// Each string among `vals` is the adapter's text of some bytes of `w`.
pub open spec fn strings_from(vals: Seq<Value>, w: Seq<u8>) -> bool {
    forall|i: int|
        0 <= i < vals.len() && (#[trigger] text_of(vals[i])) is Some ==> decoded_from(
            text_of(vals[i])->0,
            w,
        )
}

proof fn lemma_scalar_not_text(s: Scalar, w: Seq<u8>, p: int)
    requires
        s != Scalar::Text,
    ensures
        scalar_at(s, w, p, false) matches Outcome::Done(a, _) ==> !(a is Text),
{
    match s {
        Scalar::Flag => {},
        Scalar::Int => {},
        Scalar::Uint => {},
        Scalar::Text => {},
        Scalar::Date => {},
        Scalar::Currency => {},
        Scalar::Amount => {},
        Scalar::Format => {},
        Scalar::TypeNo => {},
        Scalar::Chart => {},
    }
}

proof fn lemma_text_strings(w: Seq<u8>, p: int)
    requires
        0 <= p <= w.len(),
    ensures
        scalar_at(Scalar::Text, w, p, false) matches Outcome::Done(Atom::Text(t), _)
            ==> decoded_from(t, w),
{
    if let Outcome::Done((a, b), e) = text_span(w, p, false) {
        lemma_text_span_stable(w, w, p);
        assert(0 <= a <= b <= w.len() && span_text(w, a, b) == cp437(w.subrange(a, b)));
    }
}

proof fn lemma_field_strings(k: FieldKind, w: Seq<u8>, p: int)
    requires
        0 <= p <= w.len(),
        field_at(k, w, p, false) is Done,
    ensures
        field_at(k, w, p, false) matches Outcome::Done(v, e) ==> p <= e <= w.len() && (text_of(
            v,
        ) matches Some(t) ==> decoded_from(t, w)),
{
    lemma_field_stable(k, w, w, p);
    match k {
        FieldKind::One(s) => {
            if s == Scalar::Text {
                lemma_text_strings(w, p);
            } else {
                lemma_scalar_not_text(s, w, p);
            }
        },
        FieldKind::Maybe(s) => {
            if s == Scalar::Text {
                lemma_text_strings(w, p);
            } else {
                lemma_scalar_not_text(s, w, p);
            }
        },
        _ => {},
    }
}

proof fn lemma_fields_strings(
    ks: Seq<FieldKind>,
    i: int,
    w: Seq<u8>,
    p: int,
    acc: Seq<Value>,
)
    requires
        0 <= p <= w.len(),
        strings_from(acc, w),
        fields(ks, i, w, p, false, acc) is Done,
    ensures
        fields(ks, i, w, p, false, acc) matches Outcome::Done(vals, _) ==> strings_from(vals, w),
    decreases ks.len() - i,
{
    if 0 <= i < ks.len() {
        lemma_skip_stable(w, w, p, Run::Blank);
        let q = skip_to(w, p, Run::Blank, false)->0;
        lemma_field_strings(ks[i], w, q);
        if let Outcome::Done(v, e) = field_at(ks[i], w, q, false) {
            let next = acc.push(v);
            assert forall|j: int|
                0 <= j < next.len() && (#[trigger] text_of(next[j])) is Some implies decoded_from(
                text_of(next[j])->0,
                w,
            ) by {
                if j < acc.len() {
                    assert(next[j] == acc[j]);
                }
            }
            lemma_fields_strings(ks, i + 1, w, e, next);
        }
    }
}

proof fn lemma_dispatch_strings(w: Seq<u8>, t: int, i: int)
    requires
        0 <= t <= w.len(),
        dispatch(w, t, i) is Done,
    ensures
        dispatch(w, t, i) matches Outcome::Done((_, vals), _) ==> strings_from(vals, w),
    decreases KINDS - i,
{
    if 0 <= i < KINDS {
        let k = kind_at(i);
        lemma_tag_stable(w, w, t, label(k));
        match tag(w, t, label(k), false) {
            Outcome::Done(_, e) => {
                lemma_fields_strings(schema(k), 0, w, e, seq![]);
            },
            Outcome::Error(_) => {
                lemma_dispatch_strings(w, t, i + 1);
            },
            _ => {},
        }
    }
}

/// Decoding substitutes nothing beyond the code page: every string value
/// of a decoded record, of any kind, is the adapter's text of bytes of the
/// input.
pub proof fn law_record_strings_come_from_input(w: Seq<u8>)
    requires
        record(w) is Done,
    ensures
        record(w) matches Outcome::Done((_, vals), _) ==> strings_from(vals, w),
{
    reveal(record);
    lemma_skip_stable(w, w, 0, Run::Separator);
    let q = skip_to(w, 0, Run::Separator, false)->0;
    if w[q] == HASH {
        lemma_dispatch_strings(w, q + 1, 0);
    }
}

proof fn lemma_digit_run(w: Seq<u8>, j: int, n: int)
    requires
        0 <= j <= n < w.len(),
        !in_run(w[n], Run::Digit),
        forall|i: int| j <= i < n ==> in_run(#[trigger] w[i], Run::Digit),
    ensures
        run_end(w, j, Run::Digit) == n,
    decreases n - j,
{
    if j < n {
        lemma_digit_run(w, j + 1, n);
    }
}

proof fn lemma_digits_shift(w: Seq<u8>, d: Seq<u8>, o: int, j: int)
    requires
        0 <= o,
        0 <= j <= d.len(),
        o + d.len() <= w.len(),
        forall|i: int| 0 <= i < d.len() ==> w[o + i] == #[trigger] d[i],
    ensures
        digits_value(w, o, o + j) == digits_value(d, 0, j),
    decreases j,
{
    if j > 0 {
        lemma_digits_shift(w, d, o, j - 1);
        assert(w[o + j - 1] == d[j - 1]);
    }
}

/// The bytes of an account record: `#KONTO`, the number's digits, and the
/// name in quotes, then a line break.
pub open spec fn account_record(d: Seq<u8>, c: Seq<u8>) -> Seq<u8> {
    seq![HASH] + label(Kind::Konto) + seq![SPACE] + d + seq![SPACE, QUOTE] + c + seq![QUOTE, LF]
}

/// Where the parts of an account record stand in its bytes.
spec fn account_layout(w: Seq<u8>, d: Seq<u8>, c: Seq<u8>) -> bool {
    let n = d.len() as int;
    let m = c.len() as int;
    &&& w.len() == 11 + n + m
    &&& w[0] == HASH
    &&& w.subrange(1, 6) == label(Kind::Konto)
    &&& w[6] == SPACE
    &&& (forall|i: int| 0 <= i < n ==> w[7 + i] == #[trigger] d[i])
    &&& w[7 + n] == SPACE
    &&& w[8 + n] == QUOTE
    &&& (forall|i: int| 0 <= i < m ==> w[9 + n + i] == #[trigger] c[i])
    &&& w[9 + n + m] == QUOTE
    &&& w[10 + n + m] == LF
}

proof fn lemma_account_layout(d: Seq<u8>, c: Seq<u8>)
    ensures
        account_layout(account_record(d, c), d, c),
{
    let w = account_record(d, c);
    let n = d.len() as int;
    let m = c.len() as int;
    assert(w.subrange(1, 6) =~= label(Kind::Konto));
    assert forall|i: int| 0 <= i < n implies w[7 + i] == #[trigger] d[i] by {}
    assert forall|i: int| 0 <= i < m implies w[9 + n + i] == #[trigger] c[i] by {}
}

/// The values an account record is written with: the number its digits
/// spell, and the name through the adapter.
pub open spec fn account_values(d: Seq<u8>, c: Seq<u8>) -> Seq<Value> {
    seq![
        Value::One(Atom::Int(digits_value(d, 0, d.len() as int))),
        Value::One(Atom::Text(cp437(c))),
    ]
}

proof fn lemma_tag_mismatch(w: Seq<u8>, lit: Seq<u8>)
    requires
        0 < lit.len(),
        1 + lit.len() <= w.len(),
        w[1] != lit[0],
    ensures
        tag(w, 1, lit, false) is Error,
{
    assert(w.subrange(1int, 1int + lit.len())[0] != lit[0]);
}

proof fn lemma_dispatch_skip(w: Seq<u8>, t: int, i: int)
    requires
        0 <= i < KINDS,
        tag(w, t, label(kind_at(i)), false) is Error,
    ensures
        dispatch(w, t, i) == dispatch(w, t, i + 1),
{
}

proof fn lemma_dispatch_hit(w: Seq<u8>, t: int, i: int, e: int, vals: Seq<Value>, f: int)
    requires
        0 <= i < KINDS,
        tag(w, t, label(kind_at(i)), false) == Outcome::<()>::Done((), e),
        body(kind_at(i), w, e, false) == Outcome::Done(vals, f),
    ensures
        dispatch(w, t, i) == Outcome::Done((kind_at(i), vals), f),
{
}

proof fn lemma_fields_step(
    ks: Seq<FieldKind>,
    i: int,
    w: Seq<u8>,
    p: int,
    acc: Seq<Value>,
    q: int,
    v: Value,
    e: int,
)
    requires
        0 <= i < ks.len(),
        skip_to(w, p, Run::Blank, false) == Some(q),
        field_at(ks[i], w, q, false) == Outcome::Done(v, e),
    ensures
        fields(ks, i, w, p, false, acc) == fields(ks, i + 1, w, e, false, acc.push(v)),
{
}

proof fn lemma_account_number(w: Seq<u8>, d: Seq<u8>, c: Seq<u8>)
    requires
        account_layout(w, d, c),
        d.len() > 0,
        forall|i: int| 0 <= i < d.len() ==> in_run(#[trigger] d[i], Run::Digit),
        digits_value(d, 0, d.len() as int) <= u32::MAX,
    ensures
        field_at(FieldKind::One(Scalar::Uint), w, 7, false) == Outcome::Done(
            account_values(d, c)[0],
            7 + d.len() as int,
        ),
{
    let n = d.len() as int;
    assert(w[7] == d[0]);
    assert forall|i: int| 7 <= i < 7 + n implies in_run(#[trigger] w[i], Run::Digit) by {
        assert(w[7 + (i - 7)] == d[i - 7]);
    }
    lemma_digit_run(w, 7, 7 + n);
    lemma_digits_shift(w, d, 7, n);
    assert(int_at(w, 7, false, false) == Outcome::Done(Atom::Int(digits_value(d, 0, n)), 7 + n));
}

proof fn lemma_account_name(w: Seq<u8>, d: Seq<u8>, c: Seq<u8>)
    requires
        account_layout(w, d, c),
        forall|i: int| 0 <= i < c.len() ==> #[trigger] c[i] != QUOTE && c[i] != BACKSLASH,
    ensures
        field_at(FieldKind::One(Scalar::Text), w, 8 + d.len() as int, false) == Outcome::Done(
            account_values(d, c)[1],
            10 + d.len() as int + c.len() as int,
        ),
{
    let n = d.len() as int;
    let m = c.len() as int;
    assert forall|i: int| 9 + n <= i < 9 + n + m implies #[trigger] w[i] != QUOTE && w[i]
        != BACKSLASH by {
        assert(w[9 + n + (i - 9 - n)] == c[i - 9 - n]);
    }
    lemma_quote_end_plain(w, 9 + n, 9 + n + m);
    assert(w.subrange(9 + n, 9 + n + m) =~= c);
    assert(quoted(w, 8 + n, false) == Outcome::Done((9 + n, 9 + n + m), 10 + n + m));
    assert(text_at(w, 8 + n, false) == Outcome::Done(cp437(c), 10 + n + m));
}

proof fn lemma_account_body(w: Seq<u8>, d: Seq<u8>, c: Seq<u8>)
    requires
        account_layout(w, d, c),
        d.len() > 0,
        forall|i: int| 0 <= i < d.len() ==> in_run(#[trigger] d[i], Run::Digit),
        digits_value(d, 0, d.len() as int) <= u32::MAX,
        forall|i: int| 0 <= i < c.len() ==> #[trigger] c[i] != QUOTE && c[i] != BACKSLASH,
    ensures
        body(Kind::Konto, w, 6, false) == Outcome::Done(
            account_values(d, c),
            d.len() + c.len() + 10int,
        ),
{
    let n = d.len() as int;
    let m = c.len() as int;
    let vals = account_values(d, c);
    let ks = schema(Kind::Konto);
    assert(w[7] == d[0]);
    assert(run_end(w, 7, Run::Blank) == 7);
    assert(run_end(w, 6, Run::Blank) == 7);
    assert(run_end(w, 8 + n, Run::Blank) == 8 + n);
    assert(run_end(w, 7 + n, Run::Blank) == 8 + n);
    lemma_account_number(w, d, c);
    lemma_account_name(w, d, c);
    lemma_fields_step(ks, 0, w, 6, seq![], 7, vals[0], 7 + n);
    lemma_fields_step(ks, 1, w, 7 + n, seq![vals[0]], 8 + n, vals[1], 10 + n + m);
    assert(Seq::<Value>::empty().push(vals[0]).push(vals[1]) =~= vals);
    assert(seq![vals[0]] =~= Seq::<Value>::empty().push(vals[0]));
}

/// A whole account record decodes to exactly what it was written with: the
/// number its digits spell, and the name through the adapter, with nothing
/// consumed after the closing quote.
pub proof fn law_account_record_round_trip(d: Seq<u8>, c: Seq<u8>)
    requires
        d.len() > 0,
        forall|i: int| 0 <= i < d.len() ==> in_run(#[trigger] d[i], Run::Digit),
        digits_value(d, 0, d.len() as int) <= u32::MAX,
        forall|i: int| 0 <= i < c.len() ==> #[trigger] c[i] != QUOTE && c[i] != BACKSLASH,
    ensures
        record(account_record(d, c)) == Outcome::Done(
            (Kind::Konto, account_values(d, c)),
            d.len() + c.len() + 10int,
        ),
{
    reveal(record);
    let w = account_record(d, c);
    lemma_account_layout(d, c);
    lemma_account_body(w, d, c);
    lemma_account_dispatch(w, account_values(d, c), d.len() + c.len() + 10int);
    assert(run_end(w, 0, Run::Separator) == 0);
}

proof fn lemma_account_first_tags(w: Seq<u8>)
    requires
        w.len() > 8,
        w[1] == 75u8,
    ensures
        forall|i: int| 0 <= i < 7 ==> tag(w, 1, label(#[trigger] kind_at(i)), false) is Error,
{
    lemma_tag_mismatch(w, label(Kind::Adress));
    lemma_tag_mismatch(w, label(Kind::BKod));
    lemma_tag_mismatch(w, label(Kind::Flagga));
    lemma_tag_mismatch(w, label(Kind::FNamn));
    lemma_tag_mismatch(w, label(Kind::Format));
    lemma_tag_mismatch(w, label(Kind::Gen));
    lemma_tag_mismatch(w, label(Kind::Ib));
    assert forall|i: int| 0 <= i < 7 implies tag(w, 1, label(#[trigger] kind_at(i)), false)
        is Error by {
        if i == 0 {
        } else if i == 1 {
        } else if i == 2 {
        } else if i == 3 {
        } else if i == 4 {
        } else if i == 5 {
        } else {
        }
    }
}

proof fn lemma_account_dispatch(w: Seq<u8>, vals: Seq<Value>, f: int)
    requires
        w.len() > 8,
        w.subrange(1, 6) == label(Kind::Konto),
        body(Kind::Konto, w, 6, false) == Outcome::Done(vals, f),
    ensures
        dispatch(w, 1, 0) == Outcome::Done((Kind::Konto, vals), f),
{
    assert(w[1] == 75u8) by {
        assert(w.subrange(1, 6)[0] == w[1]);
    }
    lemma_account_first_tags(w);
    assert(tag(w, 1, label(Kind::Konto), false) == Outcome::<()>::Done((), 6));
    assert(kind_at(7) == Kind::Konto);
    lemma_dispatch_hit(w, 1, 7, 6, vals, f);
    lemma_dispatch_skips(w, 0);
}

proof fn lemma_dispatch_skips(w: Seq<u8>, i: int)
    requires
        0 <= i <= 7,
        forall|j: int| 0 <= j < 7 ==> tag(w, 1, label(#[trigger] kind_at(j)), false) is Error,
    ensures
        dispatch(w, 1, i) == dispatch(w, 1, 7),
    decreases 7 - i,
{
    if i < 7 {
        lemma_dispatch_skip(w, 1, i);
        lemma_dispatch_skips(w, i + 1);
    }
}

/// The chunks one after the other.
pub open spec fn concat(chunks: Seq<Seq<u8>>) -> Seq<u8>
    decreases chunks.len(),
{
    if chunks.len() == 0 {
        seq![]
    } else {
        chunks[0] + concat(chunks.drop_first())
    }
}

/// What a caller sees from state `s` who answers each request for bytes
/// with the next of `chunks`, and with an empty chunk once they run out:
/// every value pulled but the requests, up to the end, over at most `fuel`
/// pulls that hand something out.
pub open spec fn session(s: ReaderState, chunks: Seq<Seq<u8>>, fuel: nat) -> Seq<Pulled>
    decreases fuel, chunks.len(), if s.source_done {
        0int
    } else {
        1int
    },
{
    if fuel == 0 {
        seq![]
    } else {
        let (t, p) = pull(s);
        match p {
            Pulled::End => seq![],
            Pulled::NeedBytes => if chunks.len() == 0 {
                if s.source_done {
                    seq![]
                } else {
                    session(fed(s, seq![]), chunks, fuel)
                }
            } else {
                session(fed(s, chunks[0]), chunks.drop_first(), fuel)
            },
            _ => seq![p] + session(t, chunks, (fuel - 1) as nat),
        }
    }
}

/// The state that holds the rest of the stream at once, with the source
/// done.
pub open spec fn all_at_once(s: ReaderState, chunks: Seq<Seq<u8>>) -> ReaderState {
    ReaderState { pending: s.pending + concat(chunks), source_done: true, ..s }
}

/// How the stream is cut into chunks does not change what the caller sees:
/// handing the reader the bytes in any non-empty chunks, as it asks for
/// them, yields the same records and failures, in the same order, as
/// handing it the whole rest of the stream at once.
pub proof fn law_chunking_does_not_matter(s: ReaderState, chunks: Seq<Seq<u8>>, fuel: nat)
    requires
        !s.source_done,
        forall|i: int| 0 <= i < chunks.len() ==> (#[trigger] chunks[i]).len() > 0,
    ensures
        session(s, chunks, fuel) == session(all_at_once(s, chunks), seq![], fuel),
    decreases fuel, chunks.len(),
{
    let big = all_at_once(s, chunks);
    if fuel == 0 || s.ended {
        return;
    }
    if record(s.pending) is Incomplete {
        assert(pull(s) == (s, Pulled::NeedBytes));
        if chunks.len() > 0 {
            assert(session(s, chunks, fuel) == session(
                fed(s, chunks[0]),
                chunks.drop_first(),
                fuel,
            ));
            let c0 = chunks[0];
            let rest = chunks.drop_first();
            assert forall|i: int| 0 <= i < rest.len() implies (#[trigger] rest[i]).len() > 0 by {
                assert(rest[i] == chunks[i + 1]);
            }
            law_chunking_does_not_matter(fed(s, c0), rest, fuel);
            assert(all_at_once(fed(s, c0), rest).pending =~= big.pending);
            assert(all_at_once(fed(s, c0), rest) == big);
        } else {
            assert(concat(chunks) =~= seq![]);
            assert(fed(s, seq![]) == big);
            assert(session(s, chunks, fuel) == session(fed(s, seq![]), chunks, fuel));
            assert(chunks =~= seq![]);
        }
    } else {
        lemma_record_stable(s.pending, concat(chunks));
        let (t, p) = pull(s);
        if let Outcome::Done(_, n) = record(s.pending) {
            let all = s.pending + concat(chunks);
            assert(all.subrange(n, all.len() as int) =~= s.pending.subrange(
                n,
                s.pending.len() as int,
            ) + concat(chunks));
        }
        assert(pull(big).1 == p);
        assert(pull(big).0 == all_at_once(t, chunks));
        assert(!(p is End) && !(p is NeedBytes));
        law_chunking_does_not_matter(t, chunks, (fuel - 1) as nat);
        assert(session(s, chunks, fuel) == seq![p] + session(t, chunks, (fuel - 1) as nat));
        assert(session(big, seq![], fuel) == seq![p] + session(
            all_at_once(t, chunks),
            seq![],
            (fuel - 1) as nat,
        ));
    }
}

} // verus!
