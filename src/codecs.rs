//! The calls into outside crates, each behind a contract.
use codepage_437::BorrowFromCp437;
use vstd::prelude::*;

verus! {

/// Relies on memchr::memchr3: the index of the first byte of `haystack`
/// that equals one of the three needles, or `None` when there is none.
#[verifier::external_body]
pub(crate) fn first_of_three(a: u8, b: u8, c: u8, haystack: &[u8]) -> (r: Option<usize>)
    ensures
        r matches Some(n) ==> n < haystack@.len() && (haystack@[n as int] == a || haystack@[n as int]
            == b || haystack@[n as int] == c),
        r matches Some(n) ==> forall|k: int|
            0 <= k < n ==> #[trigger] haystack@[k] != a && haystack@[k] != b && haystack@[k] != c,
        r is None ==> forall|k: int|
            0 <= k < haystack@.len() ==> #[trigger] haystack@[k] != a && haystack@[k] != b
                && haystack@[k] != c,
{
    memchr::memchr3(a, b, c, haystack)
}

/// The character that code page 437, in its variant with control
/// characters, gives a byte.
pub uninterp spec fn cp437_char(b: u8) -> char;

/// The text that code page 437 gives a byte sequence: one character per
/// byte.
pub open spec fn cp437(b: Seq<u8>) -> Seq<char> {
    Seq::new(b.len(), |i: int| cp437_char(b[i]))
}

/// Relies on codepage_437's `BorrowFromCp437` for `String` with the
/// `CP437_CONTROL` dialect: each byte becomes the one character of the
/// dialect's table, and a byte below 128 becomes the ASCII character of
/// the same value.
#[verifier::external_body]
pub(crate) fn decode_cp437(b: &[u8]) -> (r: String)
    ensures
        r@.len() == b@.len(),
        forall|i: int| 0 <= i < b@.len() ==> r@[i] == cp437_char(#[trigger] b@[i]),
        forall|i: int| 0 <= i < b@.len() && b@[i] < 128 ==> r@[i] as u32 == b@[i] as u32,
{
    String::borrow_from_cp437(b, &codepage_437::CP437_CONTROL)
}

pub open spec fn leap_year(y: int) -> bool {
    y % 4 == 0 && (y % 100 != 0 || y % 400 == 0)
}

pub open spec fn days_in_month(y: int, m: int) -> int {
    if m == 2 {
        if leap_year(y) {
            29
        } else {
            28
        }
    } else if m == 4 || m == 6 || m == 9 || m == 11 {
        30
    } else {
        31
    }
}

/// A day of the proleptic Gregorian calendar.
pub open spec fn valid_date(y: int, m: int, d: int) -> bool {
    1 <= m <= 12 && 1 <= d <= days_in_month(y, m)
}

/// Relies on time's `Month::try_from(u8)` and `Date::from_calendar_date`:
/// for a year within -9999..=9999 the date exists exactly when the month is
/// 1 to 12 and the day lies within that month.
#[verifier::external_body]
pub(crate) fn calendar_date_exists(year: i32, month: u8, day: u8) -> (r: bool)
    requires
        -9999 <= year <= 9999,
    ensures
        r == valid_date(year as int, month as int, day as int),
{
    match time::Month::try_from(month) {
        Ok(m) => time::Date::from_calendar_date(year, m, day).is_ok(),
        Err(_) => false,
    }
}

/// Whether ISO 4217 lists the text as an alphabetic currency code.
pub uninterp spec fn iso_currency_code(s: Seq<char>) -> bool;

/// Relies on iso_currency's `FromStr for Currency`, which looks the text up
/// among the alphabetic codes of ISO 4217.
#[verifier::external_body]
pub(crate) fn is_currency_code(s: &str) -> (r: bool)
    ensures
        r == iso_currency_code(s@),
{
    s.parse::<iso_currency::Currency>().is_ok()
}

/// The mantissa and scale of the decimal number that a text denotes, if it
/// denotes one.
pub uninterp spec fn decimal_value(s: Seq<char>) -> Option<(int, int)>;

/// Relies on rust_decimal's `FromStr for Decimal`, read back through
/// `Decimal::mantissa` and `Decimal::scale`: the result depends on the text
/// alone.
#[verifier::external_body]
pub(crate) fn parse_decimal(s: &str) -> (r: Option<(i128, u32)>)
    ensures
        decimal_value(s@) == (match r {
            Some((m, e)) => Some((m as int, e as int)),
            None => None,
        }),
{
    match s.parse::<rust_decimal::Decimal>() {
        Ok(d) => Some((d.mantissa(), d.scale())),
        Err(_) => None,
    }
}

} // verus!
