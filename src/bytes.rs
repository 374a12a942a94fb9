//! Byte classes, spans, the three-way parse result, and the scanners that
//! find where a token or a delimited region ends.
use vstd::prelude::*;

use crate::codecs::first_of_three;
use crate::item::Kind;

verus! {

pub const SPACE: u8 = 32;

pub const TAB: u8 = 9;

pub const LF: u8 = 10;

pub const CR: u8 = 13;

pub const HASH: u8 = 35;

pub const QUOTE: u8 = 34;

pub const BACKSLASH: u8 = 92;

pub const OPEN_BRACE: u8 = 123;

pub const CLOSE_BRACE: u8 = 125;

pub open spec fn blank(c: u8) -> bool {
    c == SPACE || c == TAB
}

pub open spec fn line_break(c: u8) -> bool {
    c == LF || c == CR
}

/// A byte that ends an unquoted token.
pub open spec fn token_end(c: u8) -> bool {
    blank(c) || line_break(c) || c == HASH || c == OPEN_BRACE || c == CLOSE_BRACE
}

/// Space or tab.
pub fn is_whitespace(c: u8) -> (r: bool)
    ensures
        r == blank(c),
{
    c == SPACE || c == TAB
}

/// Line feed or carriage return.
pub fn is_line_break(c: u8) -> (r: bool)
    ensures
        r == line_break(c),
{
    c == LF || c == CR
}

/// The kinds of byte runs that the grammar skips or takes.
#[derive(Clone, Copy, PartialEq, Eq, Debug)]
pub enum Run {
    /// Spaces and tabs.
    Blank,
    /// Spaces, tabs and line breaks.
    Separator,
    /// Bytes of an unquoted token.
    Token,
    /// ASCII decimal digits.
    Digit,
    /// Anything but `#`.
    NotHash,
}

pub open spec fn in_run(c: u8, k: Run) -> bool {
    match k {
        Run::Blank => blank(c),
        Run::Separator => blank(c) || line_break(c),
        Run::Token => !token_end(c),
        Run::Digit => 48 <= c <= 57,
        Run::NotHash => c != HASH,
    }
}

fn byte_in_run(c: u8, k: Run) -> (r: bool)
    ensures
        r == in_run(c, k),
{
    match k {
        Run::Blank => is_whitespace(c),
        Run::Separator => is_whitespace(c) || is_line_break(c),
        Run::Token => !(is_whitespace(c) || is_line_break(c) || c == HASH || c == OPEN_BRACE
            || c == CLOSE_BRACE),
        Run::Digit => 48 <= c && c <= 57,
        Run::NotHash => c != HASH,
    }
}

/// The first index at or after `p` whose byte is not in run `k`, or the
/// window's length when the run reaches its end.
pub open spec fn run_end(w: Seq<u8>, p: int, k: Run) -> int
    decreases w.len() - p,
{
    if p >= w.len() {
        w.len() as int
    } else if !in_run(w[p], k) {
        p
    } else {
        run_end(w, p + 1, k)
    }
}

pub proof fn lemma_run_end(w: Seq<u8>, p: int, k: Run)
    requires
        0 <= p <= w.len(),
    ensures
        p <= run_end(w, p, k) <= w.len(),
        forall|j: int| p <= j < run_end(w, p, k) ==> in_run(#[trigger] w[j], k),
        run_end(w, p, k) < w.len() ==> !in_run(w[run_end(w, p, k)], k),
    decreases w.len() - p,
{
    if p < w.len() && in_run(w[p], k) {
        lemma_run_end(w, p + 1, k);
    }
}

/// Who is to blame for a decode that failed: the record kind and the index
/// of the field, where known.
#[derive(Clone, Copy, PartialEq, Eq, Debug)]
pub struct Blame {
    pub record: Option<Kind>,
    pub field: Option<usize>,
}

impl Blame {
    pub open spec fn none() -> Blame {
        Blame { record: None, field: None }
    }

    /// Name the field, unless a field is named already.
    pub open spec fn at_field(self, i: int) -> Blame {
        if self.field is Some {
            self
        } else {
            Blame { field: Some(i as usize), ..self }
        }
    }

    /// Name the record, unless a record is named already.
    pub open spec fn in_record(self, k: Kind) -> Blame {
        if self.record is Some {
            self
        } else {
            Blame { record: Some(k), ..self }
        }
    }

    pub fn unknown() -> (r: Blame)
        ensures
            r == Blame::none(),
    {
        Blame { record: None, field: None }
    }

    pub fn with_field(self, i: usize) -> (r: Blame)
        ensures
            r == self.at_field(i as int),
    {
        if self.field.is_some() {
            self
        } else {
            Blame { record: self.record, field: Some(i) }
        }
    }

    /// The name of the field to blame, where the record and the field are
    /// known.
    pub fn field_name(&self) -> (r: Option<&'static str>)
        ensures
            r is Some <==> (self.record matches Some(k) && (self.field matches Some(i) && i
                < crate::item::schema(k).len())),
            r matches Some(n) ==> (self.record matches Some(k) && (self.field matches Some(i)
                && crate::item::field_label(k, i as int) == Some(n@))),
    {
        match (self.record, self.field) {
            (Some(k), Some(i)) => k.field_name(i),
            _ => None,
        }
    }

    pub fn with_record(self, k: Kind) -> (r: Blame)
        ensures
            r == self.in_record(k),
    {
        if self.record.is_some() {
            self
        } else {
            Blame { record: Some(k), field: self.field }
        }
    }
}

/// What a decoder makes of the bytes it was given, in spec terms. `Done`
/// holds the value and the position just past what was consumed.
/// `Incomplete` means the window ended before the decoder could decide.
/// `Error` is a mismatch that lets an optional field be absent; `Failure`
/// is a hard error.
pub enum Outcome<V> {
    Done(V, int),
    Incomplete,
    Error(Blame),
    Failure(Blame),
}

/// The executable counterpart of [`Outcome`].
#[derive(Debug, PartialEq, Eq)]
pub enum Parsed<T> {
    Done(T, usize),
    Incomplete,
    Error(Blame),
    Failure(Blame),
}

impl<T: View> View for Parsed<T> {
    type V = Outcome<T::V>;

    open spec fn view(&self) -> Outcome<T::V> {
        match self {
            Parsed::Done(v, e) => Outcome::Done(v@, *e as int),
            Parsed::Incomplete => Outcome::Incomplete,
            Parsed::Error(b) => Outcome::Error(*b),
            Parsed::Failure(b) => Outcome::Failure(*b),
        }
    }
}

impl<T> Parsed<T> {
    /// The decoded value, if decoding succeeded.
    pub fn value(self) -> (r: Option<T>)
        ensures
            r == (match self {
                Parsed::Done(u, _) => Some(u),
                _ => None,
            }),
    {
        match self {
            Parsed::Done(v, _) => Some(v),
            _ => None,
        }
    }

    /// The position just past the consumed bytes, if decoding succeeded.
    pub fn end(&self) -> (r: Option<usize>)
        ensures
            r == (match self {
                Parsed::Done(_, f) => Some(*f),
                _ => None,
            }),
    {
        match self {
            Parsed::Done(_, e) => Some(*e),
            _ => None,
        }
    }
}

/// What a window that ran out means: more bytes may come (`fin` false), or
/// the window is a closed region and the construct is broken.
pub open spec fn short<V>(fin: bool) -> Outcome<V> {
    if fin {
        Outcome::Failure(Blame::none())
    } else {
        Outcome::Incomplete
    }
}

/// What an empty rest of the window means: more bytes may come, or, in a
/// closed region, the construct is simply not there.
pub open spec fn nothing<V>(fin: bool) -> Outcome<V> {
    if fin {
        Outcome::Error(Blame::none())
    } else {
        Outcome::Incomplete
    }
}

pub(crate) fn nothing_of<T: View>(fin: bool) -> (r: Parsed<T>)
    ensures
        r@ == nothing::<T::V>(fin),
{
    if fin {
        Parsed::Error(Blame::unknown())
    } else {
        Parsed::Incomplete
    }
}

pub(crate) fn short_of<T: View>(fin: bool) -> (r: Parsed<T>)
    ensures
        r@ == short::<T::V>(fin),
{
    if fin {
        Parsed::Failure(Blame::unknown())
    } else {
        Parsed::Incomplete
    }
}

/// A half-open range of positions in the input.
#[derive(Clone, Copy, PartialEq, Eq, Debug)]
pub struct Span {
    pub start: usize,
    pub end: usize,
}

impl View for Span {
    type V = (int, int);

    open spec fn view(&self) -> (int, int) {
        (self.start as int, self.end as int)
    }
}

/// The window `w` from `p` on starts with a run of `k`; the position where
/// it ends, or `None` when the run reaches the end of an open window.
pub open spec fn skip_to(w: Seq<u8>, p: int, k: Run, fin: bool) -> Option<int> {
    let q = run_end(w, p, k);
    if q == w.len() && !fin {
        None
    } else {
        Some(q)
    }
}

pub fn find_run_end(w: &[u8], p: usize, k: Run) -> (r: usize)
    requires
        p <= w@.len(),
    ensures
        r == run_end(w@, p as int, k),
        p <= r <= w@.len(),
{
    proof {
        lemma_run_end(w@, p as int, k);
    }
    let mut i = p;
    while i < w.len() && byte_in_run(w[i], k)
        invariant
            p <= i <= w@.len(),
            run_end(w@, p as int, k) == run_end(w@, i as int, k),
        decreases w@.len() - i,
    {
        i = i + 1;
    }
    i
}

pub fn skip_run(w: &[u8], p: usize, k: Run, fin: bool) -> (r: Option<usize>)
    requires
        p <= w@.len(),
    ensures
        skip_to(w@, p as int, k, fin) == (match r {
            Some(q) => Some(q as int),
            None => None,
        }),
{
    let q = find_run_end(w, p, k);
    if q == w.len() && !fin {
        None
    } else {
        Some(q)
    }
}

/// A run of one or more token bytes.
pub open spec fn unquoted(w: Seq<u8>, p: int, fin: bool) -> Outcome<(int, int)> {
    let q = run_end(w, p, Run::Token);
    if q == w.len() && !fin {
        Outcome::Incomplete
    } else if q == p {
        Outcome::Error(Blame::none())
    } else {
        Outcome::Done((p, q), q)
    }
}

/// Take an unquoted token: one or more bytes up to a space, tab, line
/// break, `#`, `{` or `}`.
pub fn unquoted_text(w: &[u8], p: usize, fin: bool) -> (r: Parsed<Span>)
    requires
        p <= w@.len(),
    ensures
        r@ == unquoted(w@, p as int, fin),
        r matches Parsed::Done(s, e) ==> p == s.start < s.end == e <= w@.len(),
{
    let q = find_run_end(w, p, Run::Token);
    if q == w.len() && !fin {
        Parsed::Incomplete
    } else if q == p {
        Parsed::Error(Blame::unknown())
    } else {
        Parsed::Done(Span { start: p, end: q }, q)
    }
}

/// Where a quoted string that has content from `i` on ends.
pub enum QuoteEnd {
    /// The closing quote is at this index.
    Close(int),
    /// The window ended first.
    Short,
    /// A backslash that is not followed by a quote.
    BadEscape,
}

pub open spec fn quote_end(w: Seq<u8>, i: int) -> QuoteEnd
    decreases w.len() - i,
{
    if i < 0 || i >= w.len() {
        QuoteEnd::Short
    } else if w[i] == QUOTE {
        QuoteEnd::Close(i)
    } else if w[i] == BACKSLASH {
        if i + 1 >= w.len() {
            QuoteEnd::Short
        } else if w[i + 1] == QUOTE {
            quote_end(w, i + 2)
        } else {
            QuoteEnd::BadEscape
        }
    } else {
        quote_end(w, i + 1)
    }
}

pub proof fn lemma_quote_end(w: Seq<u8>, i: int)
    requires
        0 <= i,
    ensures
        quote_end(w, i) matches QuoteEnd::Close(c) ==> i <= c < w.len() && w[c] == QUOTE,
    decreases w.len() - i,
{
    if i < w.len() && w[i] != QUOTE {
        if w[i] == BACKSLASH {
            if i + 1 < w.len() && w[i + 1] == QUOTE {
                lemma_quote_end(w, i + 2);
            }
        } else {
            lemma_quote_end(w, i + 1);
        }
    }
}

/// A double-quoted string; the span is its content, escapes kept as they
/// stand, and the quotes are consumed.
pub open spec fn quoted(w: Seq<u8>, p: int, fin: bool) -> Outcome<(int, int)> {
    if p >= w.len() {
        nothing(fin)
    } else if w[p] != QUOTE {
        Outcome::Error(Blame::none())
    } else {
        match quote_end(w, p + 1) {
            QuoteEnd::Close(c) => Outcome::Done((p + 1, c), c + 1),
            QuoteEnd::Short => short(fin),
            QuoteEnd::BadEscape => Outcome::Error(Blame::none()),
        }
    }
}

/// Take a double-quoted string. Inside it a backslash must be followed by
/// a quote, which then does not end the string.
pub fn quoted_text(w: &[u8], p: usize, fin: bool) -> (r: Parsed<Span>)
    requires
        p <= w@.len(),
    ensures
        r@ == quoted(w@, p as int, fin),
        r matches Parsed::Done(s, e) ==> p < s.start <= s.end < e <= w@.len(),
{
    if p >= w.len() {
        return nothing_of(fin);
    }
    if w[p] != QUOTE {
        return Parsed::Error(Blame::unknown());
    }
    let mut i = p + 1;
    while i < w.len()
        invariant
            p < i <= w@.len(),
            w@[p as int] == QUOTE,
            quote_end(w@, p + 1) == quote_end(w@, i as int),
        decreases w@.len() - i,
    {
        let c = w[i];
        if c == QUOTE {
            return Parsed::Done(Span { start: p + 1, end: i }, i + 1);
        } else if c == BACKSLASH {
            if i + 1 >= w.len() {
                return short_of(fin);
            } else if w[i + 1] == QUOTE {
                i = i + 2;
            } else {
                return Parsed::Error(Blame::unknown());
            }
        } else {
            i = i + 1;
        }
    }
    short_of(fin)
}

/// The index of the closing byte that brings the nesting depth below zero,
/// scanning from `i` at depth `depth`. A backslash hides the byte after it.
/// `None` when the window ends first.
pub open spec fn unbalanced_close(w: Seq<u8>, i: int, open: u8, close: u8, depth: nat) -> Option<
    int,
>
    decreases w.len() - i,
{
    if i < 0 || i >= w.len() {
        None
    } else if w[i] == BACKSLASH {
        if i + 1 >= w.len() {
            None
        } else {
            unbalanced_close(w, i + 2, open, close, depth)
        }
    } else if w[i] == open {
        unbalanced_close(w, i + 1, open, close, depth + 1)
    } else if w[i] == close {
        if depth == 0 {
            Some(i)
        } else {
            unbalanced_close(w, i + 1, open, close, (depth - 1) as nat)
        }
    } else {
        unbalanced_close(w, i + 1, open, close, depth)
    }
}

pub open spec fn notable(c: u8, open: u8, close: u8) -> bool {
    c == open || c == close || c == BACKSLASH
}

/// Bytes that are neither delimiter nor backslash do not change the scan.
proof fn lemma_unbalanced_skip(w: Seq<u8>, i: int, j: int, open: u8, close: u8, depth: nat)
    requires
        0 <= i <= j <= w.len(),
        forall|k: int| i <= k < j ==> !notable(#[trigger] w[k], open, close),
    ensures
        unbalanced_close(w, i, open, close, depth) == unbalanced_close(w, j, open, close, depth),
    decreases j - i,
{
    if i < j {
        assert(!notable(w[i], open, close));
        lemma_unbalanced_skip(w, i + 1, j, open, close, depth);
    }
}

pub proof fn lemma_unbalanced_close(w: Seq<u8>, i: int, open: u8, close: u8, depth: nat)
    requires
        0 <= i,
    ensures
        unbalanced_close(w, i, open, close, depth) matches Some(c) ==> i <= c < w.len() && w[c]
            == close,
    decreases w.len() - i,
{
    if 0 <= i < w.len() {
        if w[i] == BACKSLASH {
            if i + 1 < w.len() {
                lemma_unbalanced_close(w, i + 2, open, close, depth);
            }
        } else if w[i] == open {
            lemma_unbalanced_close(w, i + 1, open, close, depth + 1);
        } else if w[i] == close {
            if depth > 0 {
                lemma_unbalanced_close(w, i + 1, open, close, (depth - 1) as nat);
            }
        } else {
            lemma_unbalanced_close(w, i + 1, open, close, depth);
        }
    }
}

/// The content of a region whose opening byte stands just before `p`: the
/// span up to the closing byte that is not balanced, which is left
/// unconsumed.
pub open spec fn until_unbalanced(w: Seq<u8>, p: int, open: u8, close: u8) -> Outcome<(int, int)> {
    match unbalanced_close(w, p, open, close, 0) {
        Some(c) => Outcome::Done((p, c), c),
        None => Outcome::Incomplete,
    }
}

/// Find the end of a region that an already consumed `opening` byte began:
/// the content runs up to, not including, the first `closing` byte that
/// balances nothing. Nested pairs are counted, and a backslash hides the
/// byte after it. When the input ends first, more bytes are needed.
pub fn take_until_unbalanced(w: &[u8], p: usize, opening: u8, closing: u8) -> (r: Parsed<Span>)
    requires
        p <= w@.len(),
    ensures
        r@ == until_unbalanced(w@, p as int, opening, closing),
        r matches Parsed::Done(s, e) ==> p == s.start <= s.end == e < w@.len(),
{
    let mut i: usize = p;
    let mut depth: usize = 0;
    while i < w.len()
        invariant
            p <= i,
            depth <= i,
            unbalanced_close(w@, p as int, opening, closing, 0) == unbalanced_close(
                w@,
                i as int,
                opening,
                closing,
                depth as nat,
            ),
        decreases w@.len() - i,
    {
        let rest = &w[i..w.len()];
        match first_of_three(opening, closing, BACKSLASH, rest) {
            None => {
                proof {
                    assert forall|k: int| i <= k < w@.len() implies !notable(
                        #[trigger] w@[k],
                        opening,
                        closing,
                    ) by {
                        assert(w@[k] == rest@[k - i]);
                    }
                    lemma_unbalanced_skip(w@, i as int, w@.len() as int, opening, closing, depth as nat);
                }
                return Parsed::Incomplete;
            },
            Some(n) => {
                let j = i + n;
                proof {
                    assert forall|k: int| i <= k < j implies !notable(
                        #[trigger] w@[k],
                        opening,
                        closing,
                    ) by {
                        assert(w@[k] == rest@[k - i]);
                    }
                    lemma_unbalanced_skip(w@, i as int, j as int, opening, closing, depth as nat);
                    assert(w@[j as int] == rest@[n as int]);
                }
                let c = w[j];
                if c == BACKSLASH {
                    if j + 1 >= w.len() {
                        return Parsed::Incomplete;
                    }
                    i = j + 2;
                } else if c == opening {
                    depth = depth + 1;
                    i = j + 1;
                } else {
                    if depth == 0 {
                        return Parsed::Done(Span { start: p, end: j }, j);
                    }
                    depth = depth - 1;
                    i = j + 1;
                }
            },
        }
    }
    Parsed::Incomplete
}

/// A region in curly braces; the span is its content and both braces are
/// consumed.
pub open spec fn braces(w: Seq<u8>, p: int, fin: bool) -> Outcome<(int, int)> {
    if p >= w.len() {
        nothing(fin)
    } else if w[p] != OPEN_BRACE {
        Outcome::Error(Blame::none())
    } else {
        match unbalanced_close(w, p + 1, OPEN_BRACE, CLOSE_BRACE, 0) {
            Some(c) => Outcome::Done((p + 1, c), c + 1),
            None => short(fin),
        }
    }
}

/// Take a region in curly braces, nested braces included.
pub fn in_curly_braces(w: &[u8], p: usize, fin: bool) -> (r: Parsed<Span>)
    requires
        p <= w@.len(),
    ensures
        r@ == braces(w@, p as int, fin),
        r matches Parsed::Done(s, e) ==> p < s.start <= s.end < e <= w@.len() && s.end + 1 == e,
{
    if p >= w.len() {
        return nothing_of(fin);
    }
    if w[p] != OPEN_BRACE {
        return Parsed::Error(Blame::unknown());
    }
    match take_until_unbalanced(w, p + 1, OPEN_BRACE, CLOSE_BRACE) {
        Parsed::Done(s, c) => {
            proof {
                lemma_unbalanced_close(w@, p + 1, OPEN_BRACE, CLOSE_BRACE, 0);
            }
            Parsed::Done(s, c + 1)
        },
        _ => short_of(fin),
    }
}

/// A token must end at `e`: with a byte that ends tokens, or with the end
/// of a closed window. An open window that ends there may still go on.
pub open spec fn boundary(w: Seq<u8>, e: int, fin: bool) -> Outcome<()> {
    if e >= w.len() {
        if fin {
            Outcome::Done((), e)
        } else {
            Outcome::Incomplete
        }
    } else if token_end(w[e]) {
        Outcome::Done((), e)
    } else {
        Outcome::Error(Blame::none())
    }
}

/// Check that a token ends at `e`; nothing is consumed.
pub fn token_boundary(w: &[u8], e: usize, fin: bool) -> (r: Parsed<()>)
    requires
        e <= w@.len(),
    ensures
        r@ == boundary(w@, e as int, fin),
{
    if e >= w.len() {
        if fin {
            Parsed::Done((), e)
        } else {
            Parsed::Incomplete
        }
    } else if is_whitespace(w[e]) || is_line_break(w[e]) || w[e] == HASH || w[e] == OPEN_BRACE
        || w[e] == CLOSE_BRACE {
        Parsed::Done((), e)
    } else {
        Parsed::Error(Blame::unknown())
    }
}

/// The literal `lit` at `p`: a mismatch is an error; a window that ends
/// while what is there still agrees with `lit` is short.
pub open spec fn tag(w: Seq<u8>, p: int, lit: Seq<u8>, fin: bool) -> Outcome<()> {
    if p + lit.len() <= w.len() {
        if w.subrange(p, p + lit.len()) == lit {
            Outcome::Done((), p + lit.len())
        } else {
            Outcome::Error(Blame::none())
        }
    } else if w.subrange(p, w.len() as int) == lit.subrange(0, w.len() - p) {
        short(fin)
    } else {
        Outcome::Error(Blame::none())
    }
}

pub fn take_tag(w: &[u8], p: usize, lit: &[u8], fin: bool) -> (r: Parsed<()>)
    requires
        p <= w@.len(),
    ensures
        r@ == tag(w@, p as int, lit@, fin),
{
    let n = if w.len() - p < lit.len() {
        w.len() - p
    } else {
        lit.len()
    };
    let mut i: usize = 0;
    while i < n
        invariant
            i <= n,
            n <= lit@.len(),
            p + n <= w@.len(),
            w@.len() == w.len(),
            forall|k: int| 0 <= k < i ==> w@[p + k] == lit@[k],
        decreases n - i,
    {
        if w[p + i] != lit[i] {
            proof {
                if p + lit@.len() <= w@.len() {
                    assert(w@.subrange(p as int, p + lit@.len())[i as int] != lit@[i as int]);
                } else {
                    assert(w@.subrange(p as int, w@.len() as int)[i as int] != lit@.subrange(
                        0,
                        w@.len() - p,
                    )[i as int]);
                }
            }
            return Parsed::Error(Blame::unknown());
        }
        i = i + 1;
    }
    if n == lit.len() {
        assert(w@.subrange(p as int, p + lit@.len()) =~= lit@);
        Parsed::Done((), p + n)
    } else {
        assert(w@.subrange(p as int, w@.len() as int) =~= lit@.subrange(0, w@.len() - p));
        short_of(fin)
    }
}

} // verus!
