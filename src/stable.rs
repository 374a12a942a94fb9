//! Decoding is stable under more input: once the bytes at hand settle a
//! decoder's outcome (anything but `Incomplete`), bytes appended to the
//! window change neither the outcome nor where it ends.
use vstd::prelude::*;

use crate::bytes::{
    braces, lemma_quote_end, lemma_run_end, lemma_unbalanced_close, quote_end, quoted, run_end,
    skip_to, tag, unbalanced_close, unquoted, Outcome, Run, CLOSE_BRACE, OPEN_BRACE,
};
use crate::decode::{dispatch, record};
use crate::field::{
    chart_at, chart_label, digits_value, int_at, leaf_at, scalar_at, text_at, text_span,
    ChartAccountsType, FieldKind, Scalar,
};
use crate::item::{field_at, fields, kind_at, label, KINDS};

verus! {

/// `w2` begins with `w`.
pub open spec fn prefix_of(w: Seq<u8>, w2: Seq<u8>) -> bool {
    w.len() <= w2.len() && forall|i: int| 0 <= i < w.len() ==> w2[i] == #[trigger] w[i]
}

proof fn lemma_run_end_stable(w: Seq<u8>, w2: Seq<u8>, p: int, k: Run)
    requires
        prefix_of(w, w2),
        0 <= p,
        run_end(w, p, k) < w.len(),
    ensures
        run_end(w2, p, k) == run_end(w, p, k),
    decreases w.len() - p,
{
    if p < w.len() && in_run_at(w, p, k) {
        lemma_run_end_stable(w, w2, p + 1, k);
    }
}

spec fn in_run_at(w: Seq<u8>, p: int, k: Run) -> bool {
    crate::bytes::in_run(w[p], k)
}

pub(crate) proof fn lemma_skip_stable(w: Seq<u8>, w2: Seq<u8>, p: int, k: Run)
    requires
        prefix_of(w, w2),
        0 <= p <= w.len(),
        skip_to(w, p, k, false) is Some,
    ensures
        skip_to(w2, p, k, false) == skip_to(w, p, k, false),
        skip_to(w, p, k, false) matches Some(q) ==> p <= q < w.len(),
{
    lemma_run_end(w, p, k);
    lemma_run_end_stable(w, w2, p, k);
}

proof fn lemma_subrange_stable(w: Seq<u8>, w2: Seq<u8>, a: int, b: int)
    requires
        prefix_of(w, w2),
        0 <= a <= b <= w.len(),
    ensures
        w2.subrange(a, b) == w.subrange(a, b),
{
    assert(w2.subrange(a, b) =~= w.subrange(a, b));
}

proof fn lemma_unquoted_stable(w: Seq<u8>, w2: Seq<u8>, p: int)
    requires
        prefix_of(w, w2),
        0 <= p <= w.len(),
        !(unquoted(w, p, false) is Incomplete),
    ensures
        unquoted(w2, p, false) == unquoted(w, p, false),
        unquoted(w, p, false) matches Outcome::Done((a, b), e) ==> p == a < b == e < w.len(),
{
    lemma_run_end(w, p, Run::Token);
    lemma_run_end_stable(w, w2, p, Run::Token);
}

proof fn lemma_quote_end_stable(w: Seq<u8>, w2: Seq<u8>, i: int)
    requires
        prefix_of(w, w2),
        0 <= i,
        !(quote_end(w, i) is Short),
    ensures
        quote_end(w2, i) == quote_end(w, i),
    decreases w.len() - i,
{
    if i < w.len() && w[i] != crate::bytes::QUOTE {
        if w[i] == crate::bytes::BACKSLASH {
            if i + 1 < w.len() && w[i + 1] == crate::bytes::QUOTE {
                lemma_quote_end_stable(w, w2, i + 2);
            }
        } else {
            lemma_quote_end_stable(w, w2, i + 1);
        }
    }
}

proof fn lemma_quoted_stable(w: Seq<u8>, w2: Seq<u8>, p: int)
    requires
        prefix_of(w, w2),
        0 <= p <= w.len(),
        !(quoted(w, p, false) is Incomplete),
    ensures
        quoted(w2, p, false) == quoted(w, p, false),
        quoted(w, p, false) matches Outcome::Done((a, b), e) ==> p < a <= b < e <= w.len(),
{
    if p < w.len() && w[p] == crate::bytes::QUOTE {
        lemma_quote_end(w, p + 1);
        if !(quote_end(w, p + 1) is Short) {
            lemma_quote_end_stable(w, w2, p + 1);
        }
    }
}

pub(crate) proof fn lemma_text_span_stable(w: Seq<u8>, w2: Seq<u8>, p: int)
    requires
        prefix_of(w, w2),
        0 <= p <= w.len(),
        !(text_span(w, p, false) is Incomplete),
    ensures
        text_span(w2, p, false) == text_span(w, p, false),
        text_span(w, p, false) matches Outcome::Done((a, b), e) ==> p <= a <= b <= e <= w.len()
            && p < e,
{
    lemma_quoted_stable(w, w2, p);
    if quoted(w, p, false) is Error {
        lemma_unquoted_stable(w, w2, p);
    }
}

proof fn lemma_text_stable(w: Seq<u8>, w2: Seq<u8>, p: int)
    requires
        prefix_of(w, w2),
        0 <= p <= w.len(),
        !(text_at(w, p, false) is Incomplete),
    ensures
        text_at(w2, p, false) == text_at(w, p, false),
        text_at(w, p, false) matches Outcome::Done(_, e) ==> p < e <= w.len(),
{
    lemma_text_span_stable(w, w2, p);
    if let Outcome::Done((a, b), e) = text_span(w, p, false) {
        lemma_subrange_stable(w, w2, a, b);
    }
}

proof fn lemma_digits_stable(w: Seq<u8>, w2: Seq<u8>, a: int, b: int)
    requires
        prefix_of(w, w2),
        0 <= a,
        b <= w.len(),
    ensures
        digits_value(w2, a, b) == digits_value(w, a, b),
    decreases b - a,
{
    if a < b {
        lemma_digits_stable(w, w2, a, b - 1);
    }
}

proof fn lemma_int_stable(w: Seq<u8>, w2: Seq<u8>, p: int, signed: bool)
    requires
        prefix_of(w, w2),
        0 <= p <= w.len(),
        !(int_at(w, p, false, signed) is Incomplete),
    ensures
        int_at(w2, p, false, signed) == int_at(w, p, false, signed),
        int_at(w, p, false, signed) matches Outcome::Done(_, e) ==> p < e <= w.len(),
{
    if p < w.len() {
        let s = if w[p] == crate::field::MINUS {
            p + 1
        } else {
            p
        };
        lemma_run_end(w, s, Run::Digit);
        let q = run_end(w, s, Run::Digit);
        if q < w.len() {
            lemma_run_end_stable(w, w2, s, Run::Digit);
            lemma_digits_stable(w, w2, s, q);
        }
    }
}

pub(crate) proof fn lemma_tag_stable(w: Seq<u8>, w2: Seq<u8>, p: int, lit: Seq<u8>)
    requires
        prefix_of(w, w2),
        0 <= p <= w.len(),
        !(tag(w, p, lit, false) is Incomplete),
    ensures
        tag(w2, p, lit, false) == tag(w, p, lit, false),
        tag(w, p, lit, false) matches Outcome::Done(_, e) ==> p <= e <= w.len(),
{
    if p + lit.len() <= w.len() {
        lemma_subrange_stable(w, w2, p, p + lit.len());
    } else {
        if forall|j: int| 0 <= j < w.len() - p ==> w[p + j] == lit[j] {
            assert(w.subrange(p, w.len() as int) =~= lit.subrange(0, w.len() - p));
        }
        let j = choose|j: int| 0 <= j < w.len() - p && w[p + j] != lit[j];
        assert(w2[p + j] == w[p + j]);
        if p + lit.len() <= w2.len() {
            assert(w2.subrange(p, p + lit.len())[j] != lit[j]);
        } else {
            assert(w2.subrange(p, w2.len() as int)[j] != lit.subrange(0, w2.len() - p)[j]);
        }
    }
}

proof fn lemma_chart_stable(w: Seq<u8>, w2: Seq<u8>, p: int)
    requires
        prefix_of(w, w2),
        0 <= p <= w.len(),
        !(chart_at(w, p, false) is Incomplete),
    ensures
        chart_at(w2, p, false) == chart_at(w, p, false),
        chart_at(w, p, false) matches Outcome::Done(_, e) ==> p <= e <= w.len(),
{
    let c1 = ChartAccountsType::Bas95;
    let c2 = ChartAccountsType::Bas96;
    let c3 = ChartAccountsType::EuBas97;
    let c4 = ChartAccountsType::Ne2007;
    lemma_tag_stable(w, w2, p, chart_label(c1));
    if tag(w, p, chart_label(c1), false) is Error {
        lemma_tag_stable(w, w2, p, chart_label(c2));
        if tag(w, p, chart_label(c2), false) is Error {
            lemma_tag_stable(w, w2, p, chart_label(c3));
            if tag(w, p, chart_label(c3), false) is Error {
                lemma_tag_stable(w, w2, p, chart_label(c4));
            }
        }
    }
}

proof fn lemma_scalar_stable(k: Scalar, w: Seq<u8>, w2: Seq<u8>, p: int)
    requires
        prefix_of(w, w2),
        0 <= p <= w.len(),
        !(scalar_at(k, w, p, false) is Incomplete),
    ensures
        scalar_at(k, w2, p, false) == scalar_at(k, w, p, false),
        scalar_at(k, w, p, false) matches Outcome::Done(_, e) ==> p <= e <= w.len(),
{
    match k {
        Scalar::Flag => {},
        Scalar::Int => lemma_int_stable(w, w2, p, true),
        Scalar::Uint => lemma_int_stable(w, w2, p, false),
        Scalar::Text => lemma_text_stable(w, w2, p),
        Scalar::Date => {
            if !(0 <= p < w.len() && !crate::bytes::in_run(w[p], Run::Digit)) {
                lemma_unquoted_stable(w, w2, p);
                if let Outcome::Done((a, b), e) = unquoted(w, p, false) {
                    lemma_subrange_stable(w, w2, a, b);
                }
            }
        },
        Scalar::Currency | Scalar::Amount => {
            lemma_unquoted_stable(w, w2, p);
            if let Outcome::Done((a, b), e) = unquoted(w, p, false) {
                lemma_subrange_stable(w, w2, a, b);
            }
        },
        Scalar::Format => lemma_tag_stable(w, w2, p, crate::field::pc8()),
        Scalar::TypeNo => lemma_tag_stable(w, w2, p, crate::field::type_four()),
        Scalar::Chart => lemma_chart_stable(w, w2, p),
    }
}

proof fn lemma_unbalanced_stable(w: Seq<u8>, w2: Seq<u8>, i: int, open: u8, close: u8, depth: nat)
    requires
        prefix_of(w, w2),
        0 <= i,
        unbalanced_close(w, i, open, close, depth) is Some,
    ensures
        unbalanced_close(w2, i, open, close, depth) == unbalanced_close(w, i, open, close, depth),
    decreases w.len() - i,
{
    if i < w.len() {
        if w[i] == crate::bytes::BACKSLASH {
            if i + 1 < w.len() {
                lemma_unbalanced_stable(w, w2, i + 2, open, close, depth);
            }
        } else if w[i] == open {
            lemma_unbalanced_stable(w, w2, i + 1, open, close, depth + 1);
        } else if w[i] == close {
            if depth > 0 {
                lemma_unbalanced_stable(w, w2, i + 1, open, close, (depth - 1) as nat);
            }
        } else {
            lemma_unbalanced_stable(w, w2, i + 1, open, close, depth);
        }
    }
}

proof fn lemma_braces_stable(w: Seq<u8>, w2: Seq<u8>, p: int)
    requires
        prefix_of(w, w2),
        0 <= p <= w.len(),
        !(braces(w, p, false) is Incomplete),
    ensures
        braces(w2, p, false) == braces(w, p, false),
        braces(w, p, false) matches Outcome::Done((a, c), e) ==> p < a <= c < e <= w.len() && e
            == c + 1,
{
    if p < w.len() && w[p] == OPEN_BRACE {
        lemma_unbalanced_close(w, p + 1, OPEN_BRACE, CLOSE_BRACE, 0);
        if unbalanced_close(w, p + 1, OPEN_BRACE, CLOSE_BRACE, 0) is Some {
            lemma_unbalanced_stable(w, w2, p + 1, OPEN_BRACE, CLOSE_BRACE, 0);
        }
    }
}

proof fn lemma_leaf_stable(k: FieldKind, w: Seq<u8>, w2: Seq<u8>, p: int)
    requires
        prefix_of(w, w2),
        0 <= p <= w.len(),
        !(leaf_at(k, w, p, false) is Incomplete),
    ensures
        leaf_at(k, w2, p, false) == leaf_at(k, w, p, false),
        leaf_at(k, w, p, false) matches Outcome::Done(_, e) ==> p <= e <= w.len(),
{
    match k {
        FieldKind::One(s) => lemma_scalar_stable(s, w, w2, p),
        FieldKind::Maybe(s) => lemma_scalar_stable(s, w, w2, p),
        FieldKind::List => {
            lemma_braces_stable(w, w2, p);
            if let Outcome::Done((a, c), e) = braces(w, p, false) {
                lemma_subrange_stable(w, w2, 0, c);
            }
        },
        FieldKind::Transactions => {},
    }
}

pub(crate) proof fn lemma_field_stable(k: FieldKind, w: Seq<u8>, w2: Seq<u8>, p: int)
    requires
        prefix_of(w, w2),
        0 <= p <= w.len(),
        !(field_at(k, w, p, false) is Incomplete),
    ensures
        field_at(k, w2, p, false) == field_at(k, w, p, false),
        field_at(k, w, p, false) matches Outcome::Done(_, e) ==> p <= e <= w.len(),
{
    if k is Transactions {
        lemma_skip_stable(w, w2, p, Run::Separator);
        let q = skip_to(w, p, Run::Separator, false)->0;
        lemma_braces_stable(w, w2, q);
        if let Outcome::Done((a, c), e) = braces(w, q, false) {
            lemma_subrange_stable(w, w2, 0, c);
        }
    } else {
        lemma_leaf_stable(k, w, w2, p);
    }
}

proof fn lemma_fields_stable(
    ks: Seq<FieldKind>,
    i: int,
    w: Seq<u8>,
    w2: Seq<u8>,
    p: int,
    acc: Seq<crate::field::Value>,
)
    requires
        prefix_of(w, w2),
        0 <= p <= w.len(),
        !(fields(ks, i, w, p, false, acc) is Incomplete),
    ensures
        fields(ks, i, w2, p, false, acc) == fields(ks, i, w, p, false, acc),
        fields(ks, i, w, p, false, acc) matches Outcome::Done(_, e) ==> p <= e <= w.len(),
    decreases ks.len() - i,
{
    if 0 <= i < ks.len() {
        lemma_skip_stable(w, w2, p, Run::Blank);
        let q = skip_to(w, p, Run::Blank, false)->0;
        lemma_field_stable(ks[i], w, w2, q);
        if let Outcome::Done(v, e) = field_at(ks[i], w, q, false) {
            lemma_fields_stable(ks, i + 1, w, w2, e, acc.push(v));
        }
    }
}

proof fn lemma_dispatch_stable(w: Seq<u8>, w2: Seq<u8>, t: int, i: int)
    requires
        prefix_of(w, w2),
        0 <= t <= w.len(),
        !(dispatch(w, t, i) is Incomplete),
    ensures
        dispatch(w2, t, i) == dispatch(w, t, i),
        dispatch(w, t, i) matches Outcome::Done(_, e) ==> t <= e <= w.len(),
    decreases KINDS - i,
{
    if 0 <= i < KINDS {
        let k = kind_at(i);
        lemma_tag_stable(w, w2, t, label(k));
        match tag(w, t, label(k), false) {
            Outcome::Done(_, e) => {
                lemma_fields_stable(crate::item::schema(k), 0, w, w2, e, seq![]);
            },
            Outcome::Error(_) => {
                lemma_dispatch_stable(w, w2, t, i + 1);
            },
            _ => {},
        }
    }
}

/// Once the bytes at hand settle the next record, or a failure, bytes that
/// arrive later change neither the outcome nor how much it consumes.
pub proof fn lemma_record_stable(w: Seq<u8>, more: Seq<u8>)
    requires
        !(record(w) is Incomplete),
    ensures
        record(w + more) == record(w),
        record(w) matches Outcome::Done(_, e) ==> 0 < e <= w.len(),
{
    let w2 = w + more;
    assert(prefix_of(w, w2));
    reveal(record);
    lemma_skip_stable(w, w2, 0, Run::Separator);
    let q = skip_to(w, 0, Run::Separator, false)->0;
    if w[q] == crate::bytes::HASH {
        lemma_dispatch_stable(w, w2, q + 1, 0);
    }
}

} // verus!
