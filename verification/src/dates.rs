//! Calendar dates attached to database releases.
//!
//! A release's `added` field is kept as text; what matters to the library is
//! whether the text names a real calendar date and how two such texts order.
//! The parse itself is done by the date library; its result is named by
//! [`date_of`] so that contracts can speak about it exactly.

use std::str::FromStr;
use vstd::prelude::*;

verus! {

/// The calendar date a text names, as (year, month, day), by the rules of
/// the date library; `None` when the text is not a date.
pub uninterp spec fn date_of(s: Seq<char>) -> Option<(int, int, int)>;

/// Relies on jiff's `civil::Date::from_str` together with the accessors
/// `year`, `month` and `day`: the parse depends on the characters alone, and
/// the accessors are documented to return the year in -9999..=9999, the
/// month in 1..=12 and the day in 1..=31.
#[verifier::external_body]
fn parse_date_parts(s: &str) -> (r: Option<(i16, u8, u8)>)
    ensures
        r matches Some(t) ==> date_of(s@) == Some((t.0 as int, t.1 as int, t.2 as int)) && -9999
            <= t.0 <= 9999 && 1 <= t.1 <= 12 && 1 <= t.2 <= 31,
        r is None ==> date_of(s@) is None,
{
    match jiff::civil::Date::from_str(s) {
        Ok(d) => Some((d.year(), d.month() as u8, d.day() as u8)),
        Err(_) => None,
    }
}

/// A release date in a form that compares: year, month, day. Texts that do
/// not parse as dates sort as the epoch date.
#[derive(Clone, Copy, Debug, PartialEq, Eq, Structural)]
pub struct DateKey {
    pub year: i16,
    pub month: u8,
    pub day: u8,
}

impl View for DateKey {
    type V = (int, int, int);

    open spec fn view(&self) -> (int, int, int) {
        (self.year as int, self.month as int, self.day as int)
    }
}

/// Where an `added` text sorts: its date, or the epoch when it is no date.
pub open spec fn spec_sort_key(s: Seq<char>) -> (int, int, int) {
    match date_of(s) {
        Some(t) => t,
        None => (1970, 1, 1),
    }
}

/// Strictly earlier, in the year-month-day lexicographic order.
pub open spec fn key_lt(x: (int, int, int), y: (int, int, int)) -> bool {
    ||| x.0 < y.0
    ||| (x.0 == y.0 && x.1 < y.1)
    ||| (x.0 == y.0 && x.1 == y.1 && x.2 < y.2)
}

/// Not later: the complement of strictly-later.
pub open spec fn key_le(x: (int, int, int), y: (int, int, int)) -> bool {
    !key_lt(y, x)
}

/// Sort key of an `added` text: the parsed date, or the epoch.
pub fn date_sort_key(s: &str) -> (k: DateKey)
    ensures
        k@ == spec_sort_key(s@),
{
    match parse_date_parts(s) {
        Some((y, m, d)) => DateKey { year: y, month: m, day: d },
        None => DateKey { year: 1970, month: 1, day: 1 },
    }
}

/// True when `a` sorts strictly earlier than `b`.
pub fn key_before(a: &DateKey, b: &DateKey) -> (r: bool)
    ensures
        r == key_lt(a@, b@),
{
    a.year < b.year || (a.year == b.year && (a.month < b.month || (a.month == b.month && a.day
        < b.day)))
}

/// Whether a text names a real calendar date.
pub fn is_valid_date(s: &str) -> (r: bool)
    ensures
        r == (date_of(s@) is Some),
{
    parse_date_parts(s).is_some()
}

} // verus!
