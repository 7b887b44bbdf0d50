//! Calendar dates as day numbers: a date is the number of days since
//! January 1 of year 1 in the proleptic Gregorian calendar, that day being
//! day 1 (chrono's `num_days_from_ce`). January 1, 1970 is day 719 163.
use chrono::Datelike;
use vstd::prelude::*;
use crate::text::views;

verus! {

/// Day number of January 1, 1970.
pub const UNIX_EPOCH_DAY: i64 = 719163;

/// Day number of January 1, 2025: the expiration given to a contract whose
/// timestamp cannot be read.
pub const FALLBACK_EXPIRATION_DAY: i32 = 739252;

/// An optional day number, widened to a mathematical integer.
pub open spec fn widen_day(d: Option<i32>) -> Option<int> {
    match d {
        Some(x) => Some(x as int),
        None => None,
    }
}

/// Day number of chrono's earliest date (`NaiveDate::MIN`).
pub const MIN_DAY: i32 = -95746129;

/// Day number of chrono's latest date (`NaiveDate::MAX`).
pub const MAX_DAY: i32 = 95745399;

/// The UTC date of a UNIX timestamp (in seconds): the day `ts` divided by
/// 86 400 (rounded down) days after January 1, 1970, when chrono can
/// represent that date.
pub open spec fn utc_day_of_timestamp(ts: int) -> Option<int> {
    let d = ts / 86400 + UNIX_EPOCH_DAY;
    if MIN_DAY <= d <= MAX_DAY {
        Some(d)
    } else {
        None
    }
}

/// The date written as `YYYY-MM-DD`, as chrono's `%Y-%m-%d` format reads it.
pub uninterp spec fn ymd_day(text: Seq<char>) -> Option<int>;

/// The UTC date of a UNIX timestamp.
///
/// Calls `chrono::DateTime::from_timestamp(ts, 0)` and takes the day number of
/// its date. The contract states what chrono's source does: the day is
/// `ts.div_euclid(86_400)` days after January 1, 1970, and the result is
/// `None` exactly when that day lies outside `NaiveDate::MIN ..= NaiveDate::MAX`.
#[verifier::external_body]
pub(crate) fn timestamp_day(ts: i64) -> (r: Option<i32>)
    ensures
        widen_day(r) == utc_day_of_timestamp(ts as int),
{
    match chrono::DateTime::from_timestamp(ts, 0) {
        Some(dt) => Some(dt.date_naive().num_days_from_ce()),
        None => None,
    }
}

/// A date written as `YYYY-MM-DD`.
///
/// Calls `chrono::NaiveDate::parse_from_str(text, "%Y-%m-%d")` and takes the day
/// number of the date it reads; the contract only names the outcome.
#[verifier::external_body]
fn parse_ymd(text: &str) -> (r: Option<i32>)
    ensures
        widen_day(r) == ymd_day(text@),
{
    match chrono::NaiveDate::parse_from_str(text, "%Y-%m-%d") {
        Ok(d) => Some(d.num_days_from_ce()),
        Err(_) => None,
    }
}

/// Days from `today` until `expiration`, or 0 when it has passed.
pub open spec fn days_left(expiration: int, today: int) -> int {
    if expiration > today {
        expiration - today
    } else {
        0
    }
}

/// Days from `today` until a contract's expiration, 0 once it has passed.
pub fn days_to_expiration(expiration: i32, today: i32) -> (r: u32)
    ensures
        r == days_left(expiration as int, today as int),
        expiration > today ==> r == expiration - today,
        expiration <= today ==> r == 0,
{
    let diff: i64 = expiration as i64 - today as i64;
    if diff > 0 {
        diff as u32
    } else {
        0
    }
}

/// Whether a known earnings date falls before an expiration.
pub fn is_earnings_before_expiration(earnings: Option<i32>, expiration: i32) -> (r: bool)
    ensures
        r == (match earnings {
            Some(e) => e < expiration,
            None => false,
        }),
{
    match earnings {
        Some(e) => e < expiration,
        None => false,
    }
}

/// The expiration of a quoted contract: the UTC date of its timestamp, or
/// January 1, 2025 when the timestamp is out of range.
pub fn contract_expiration_day(ts: i64) -> (r: i32)
    ensures
        r as int == (match utc_day_of_timestamp(ts as int) {
            Some(d) => d,
            None => FALLBACK_EXPIRATION_DAY as int,
        }),
        utc_day_of_timestamp(ts as int) is None ==> r == 739252,
        utc_day_of_timestamp(ts as int) is Some ==> (r - 719163) * 86400 <= ts < (r - 719162) * 86400,
{
    proof {
        lemma_utc_day_brackets_timestamp(ts as int);
    }
    match timestamp_day(ts) {
        Some(d) => d,
        None => FALLBACK_EXPIRATION_DAY,
    }
}

/// A timestamp's UTC date is the day whose 86 400 seconds contain it,
/// counted from January 1, 1970 (day 719 163), and only dates from day
/// -95 746 129 to day 95 745 399 are represented.
pub proof fn lemma_utc_day_brackets_timestamp(ts: int)
    ensures
        utc_day_of_timestamp(ts) matches Some(d) ==> (d - 719163) * 86400 <= ts < (d - 719162) * 86400
            && -95746129 <= d <= 95745399,
        utc_day_of_timestamp(ts) is None <==> !(-95746129 <= ts / 86400 + 719163 <= 95745399),
{
    let q = ts / 86400;
    assert(q * 86400 <= ts < (q + 1) * 86400) by (nonlinear_arith)
        requires
            q == ts / 86400,
    ;
}

/// The dates of the timestamps that are in range, in order.
pub open spec fn timestamp_days(ts: Seq<i64>) -> Seq<int>
    decreases ts.len(),
{
    if ts.len() == 0 {
        Seq::empty()
    } else {
        let rest = timestamp_days(ts.drop_last());
        match utc_day_of_timestamp(ts.last() as int) {
            Some(d) => rest.push(d),
            None => rest,
        }
    }
}

/// The dates that parse, in order.
pub open spec fn ymd_days(texts: Seq<Seq<char>>) -> Seq<int>
    decreases texts.len(),
{
    if texts.len() == 0 {
        Seq::empty()
    } else {
        let rest = ymd_days(texts.drop_last());
        match ymd_day(texts.last()) {
            Some(d) => rest.push(d),
            None => rest,
        }
    }
}

/// The dates listed for a list of timestamps are those of the timestamps in
/// range, in the order of the timestamps.
pub proof fn lemma_timestamp_days_filter_map(ts: Seq<i64>)
    ensures
        timestamp_days(ts) == ts.filter_map(|t: i64| utc_day_of_timestamp(t as int)),
    decreases ts.len(),
{
    if ts.len() > 0 {
        lemma_timestamp_days_filter_map(ts.drop_last());
        let rest = timestamp_days(ts.drop_last());
        match utc_day_of_timestamp(ts.last() as int) {
            Some(d) => {
                assert(rest.push(d) =~= rest + seq![d]);
            },
            None => {},
        }
    }
}

/// The dates read from a list of texts are those of the texts that parse, in
/// the order of the texts.
pub proof fn lemma_ymd_days_filter_map(texts: Seq<Seq<char>>)
    ensures
        ymd_days(texts) == texts.filter_map(|t: Seq<char>| ymd_day(t)),
    decreases texts.len(),
{
    if texts.len() > 0 {
        lemma_ymd_days_filter_map(texts.drop_last());
        let rest = ymd_days(texts.drop_last());
        match ymd_day(texts.last()) {
            Some(d) => {
                assert(rest.push(d) =~= rest + seq![d]);
            },
            None => {},
        }
    }
}

/// Day numbers widened to mathematical integers.
pub open spec fn day_values(v: Seq<i32>) -> Seq<int> {
    v.map_values(|d: i32| d as int)
}

/// The UTC dates of a list of expiration timestamps; those out of range are dropped.
pub fn expiration_days(ts: &Vec<i64>) -> (r: Vec<i32>)
    ensures
        day_values(r@) == timestamp_days(ts@),
{
    let mut r: Vec<i32> = Vec::new();
    let mut i: usize = 0;
    while i < ts.len()
        invariant
            i <= ts.len(),
            day_values(r@) == timestamp_days(ts@.take(i as int)),
        decreases ts.len() - i,
    {
        let ghost before = r@;
        assert(ts@.take(i + 1).drop_last() == ts@.take(i as int));
        match timestamp_day(ts[i]) {
            Some(d) => {
                r.push(d);
                assert(day_values(r@) =~= day_values(before).push(d as int));
            },
            None => {},
        }
        i = i + 1;
    }
    assert(ts@.take(i as int) == ts@);
    r
}

/// The expiration dates written as `YYYY-MM-DD`; those that do not parse are dropped.
pub fn parse_expiration_dates(texts: &Vec<String>) -> (r: Vec<i32>)
    ensures
        day_values(r@) == ymd_days(views(texts@)),
{
    let mut r: Vec<i32> = Vec::new();
    let mut i: usize = 0;
    while i < texts.len()
        invariant
            i <= texts.len(),
            day_values(r@) == ymd_days(views(texts@.take(i as int))),
        decreases texts.len() - i,
    {
        let ghost before = r@;
        assert(views(texts@.take(i + 1)).drop_last() == views(texts@.take(i as int)));
        assert(views(texts@.take(i + 1)).last() == texts@[i as int]@);
        match parse_ymd(texts[i].as_str()) {
            Some(d) => {
                r.push(d);
                assert(day_values(r@) =~= day_values(before).push(d as int));
            },
            None => {},
        }
        i = i + 1;
    }
    assert(texts@.take(i as int) == texts@);
    r
}

} // verus!
