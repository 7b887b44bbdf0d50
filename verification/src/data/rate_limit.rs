use vstd::prelude::*;

verus! {

/// The smallest whole number of requests per second that covers an hourly budget.
pub open spec fn ceil_per_second(requests_per_hour: int) -> int {
    (requests_per_hour + 3599) / 3600
}

/// Requests allowed per second for an hourly budget: the budget divided by
/// 3600 and rounded up, but at least one.
///
/// For a `u32` budget this equals `(requests_per_hour as f64 / 3600.0).ceil()`:
/// the quotient is below 2^21 and, when it is not whole, at least 1/3600 away
/// from the next integer, far more than the rounding error of an `f64`.
pub fn permits_per_second(requests_per_hour: u32) -> (r: u32)
    ensures
        r == (if ceil_per_second(requests_per_hour as int) < 1 {
            1
        } else {
            ceil_per_second(requests_per_hour as int)
        }),
{
    let per_second = ((requests_per_hour as u64 + 3599) / 3600) as u32;
    if per_second < 1 {
        1
    } else {
        per_second
    }
}


/// The allowed rate covers the hourly budget, is at least one request per
/// second, and is the smallest such rate.
pub proof fn lemma_rate_covers_budget(requests_per_hour: nat)
    ensures
        ({
            let r = if ceil_per_second(requests_per_hour as int) < 1 {
                1
            } else {
                ceil_per_second(requests_per_hour as int)
            };
            &&& r >= 1
            &&& r * 3600 >= requests_per_hour
            &&& r == 1 || (r - 1) * 3600 < requests_per_hour
        }),
{
    let c = ceil_per_second(requests_per_hour as int);
    assert(c * 3600 <= requests_per_hour + 3599 < (c + 1) * 3600);
}

} // verus!
