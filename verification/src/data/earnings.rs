//! Earnings dates: reading them from a Yahoo Finance reply, and the table of
//! dates known so far, by ticker.
use vstd::prelude::*;
use vstd::hash_map::StringHashMap;
use crate::dates::{timestamp_day, utc_day_of_timestamp, widen_day};

verus! {

/// The integer found at a JSON Pointer in a JSON text: `None` when the text is
/// not JSON, nothing is found there, or what is found is not an `i64`.
pub uninterp spec fn json_int_at(text: Seq<char>, pointer: Seq<char>) -> Option<i64>;

/// Whether the value found at a JSON Pointer in a JSON text is an array.
pub uninterp spec fn json_array_at(text: Seq<char>, pointer: Seq<char>) -> bool;

/// The integer at a JSON Pointer.
///
/// Calls `serde_json::from_str::<serde_json::Value>`, then `Value::pointer`
/// and `Value::as_i64`; a parse error or a missing value gives `None`. The
/// contract only names the outcome.
#[verifier::external_body]
fn json_int_at_pointer(text: &str, pointer: &str) -> (r: Option<i64>)
    ensures
        r == json_int_at(text@, pointer@),
{
    match serde_json::from_str::<serde_json::Value>(text) {
        Ok(v) => match v.pointer(pointer) {
            Some(x) => x.as_i64(),
            None => None,
        },
        Err(_) => None,
    }
}

/// Whether there is an array at a JSON Pointer.
///
/// Calls `serde_json::from_str::<serde_json::Value>`, then `Value::pointer`
/// and `Value::is_array`; a parse error or a missing value gives `false`. The
/// contract only names the outcome.
#[verifier::external_body]
fn json_array_at_pointer(text: &str, pointer: &str) -> (r: bool)
    ensures
        r == json_array_at(text@, pointer@),
{
    match serde_json::from_str::<serde_json::Value>(text) {
        Ok(v) => match v.pointer(pointer) {
            Some(x) => x.is_array(),
            None => false,
        },
        Err(_) => false,
    }
}

/// Where the list of results sits in a quote-summary reply.
pub open spec fn results_pointer() -> Seq<char> {
    "/quoteSummary/result"@
}

/// Where the list of earnings timestamps sits, in the first result.
pub open spec fn earnings_dates_pointer() -> Seq<char> {
    "/quoteSummary/result/0/calendarEvents/earnings/earningsDate"@
}

/// Where the first earnings timestamp sits.
pub open spec fn first_earnings_pointer() -> Seq<char> {
    "/quoteSummary/result/0/calendarEvents/earnings/earningsDate/0"@
}

/// The first earnings timestamp of a quote-summary reply: the first element
/// of `earningsDate` in the `calendarEvents.earnings` of the first element of
/// `quoteSummary.result`, when both lists are arrays and that element is an
/// integer. (A pointer step `0` reads an array's first element, or an object's
/// member named `0`; requiring arrays leaves only the first.)
pub open spec fn earnings_reply_timestamp(text: Seq<char>) -> Option<i64> {
    if json_array_at(text, results_pointer()) && json_array_at(text, earnings_dates_pointer()) {
        json_int_at(text, first_earnings_pointer())
    } else {
        None
    }
}

/// The next earnings date named in a Yahoo Finance quote-summary reply, when
/// the reply names one and it is a date chrono can represent.
pub fn earnings_date_of_reply(text: &str) -> (r: Option<i32>)
    ensures
        widen_day(r) == (match earnings_reply_timestamp(text@) {
            Some(ts) => utc_day_of_timestamp(ts as int),
            None => None,
        }),
        !json_array_at(text@, "/quoteSummary/result"@) ==> r is None,
        !json_array_at(text@, "/quoteSummary/result/0/calendarEvents/earnings/earningsDate"@) ==> r is None,
        json_array_at(text@, "/quoteSummary/result"@) && json_array_at(
            text@,
            "/quoteSummary/result/0/calendarEvents/earnings/earningsDate"@,
        ) ==> widen_day(r) == (match json_int_at(
            text@,
            "/quoteSummary/result/0/calendarEvents/earnings/earningsDate/0"@,
        ) {
            Some(ts) => utc_day_of_timestamp(ts as int),
            None => None,
        }),
{
    if !json_array_at_pointer(text, "/quoteSummary/result") {
        return None;
    }
    if !json_array_at_pointer(text, "/quoteSummary/result/0/calendarEvents/earnings/earningsDate") {
        return None;
    }
    match json_int_at_pointer(text, "/quoteSummary/result/0/calendarEvents/earnings/earningsDate/0") {
        Some(ts) => timestamp_day(ts),
        None => None,
    }
}

/// Earnings dates looked up so far: for each ticker, the date found, or
/// `None` when the lookup found no date. Tickers never looked up are absent.
pub struct EarningsTable {
    inner: StringHashMap<Option<i32>>,
}

impl View for EarningsTable {
    type V = Map<Seq<char>, Option<i32>>;

    closed spec fn view(&self) -> Map<Seq<char>, Option<i32>> {
        self.inner@
    }
}

impl EarningsTable {
    /// A table with no ticker looked up.
    pub fn new() -> (r: Self)
        ensures
            r@ == Map::<Seq<char>, Option<i32>>::empty(),
    {
        EarningsTable { inner: StringHashMap::new() }
    }

    /// The stored lookup for a ticker: `None` when it was never looked up,
    /// `Some(result)` otherwise.
    pub fn get(&self, ticker: &str) -> (r: Option<Option<i32>>)
        ensures
            r == (if self@.contains_key(ticker@) {
                Some(self@[ticker@])
            } else {
                None
            }),
    {
        match self.inner.get(ticker) {
            Some(d) => Some(*d),
            None => None,
        }
    }

    /// Records the result of looking up a ticker, replacing any earlier one.
    pub fn set(&mut self, ticker: &str, date: Option<i32>)
        ensures
            final(self)@ == old(self)@.insert(ticker@, date),
    {
        self.inner.insert(String::from_str(ticker), date);
    }
}

/// A lookup reads back the last result recorded for that ticker, and
/// recording one ticker leaves the others as they were.
pub proof fn lemma_get_after_set(
    before: Map<Seq<char>, Option<i32>>,
    ticker: Seq<char>,
    date: Option<i32>,
    other: Seq<char>,
)
    ensures
        before.insert(ticker, date).contains_key(ticker),
        before.insert(ticker, date)[ticker] == date,
        other != ticker ==> before.insert(ticker, date).contains_key(other) == before.contains_key(other),
        other != ticker ==> before.insert(ticker, date)[other] == before[other],
{
}

} // verus!
