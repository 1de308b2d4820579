//! The time stamp of a JSON report.

use vstd::prelude::*;
use vstd::string::*;
use crate::text::{decimal_digits, push_decimal};

verus! {

/// The year of a time, roughly: 1970 and one more for every 365 days since.
pub open spec fn rough_year(secs: u64) -> nat {
    (1970 + secs / 86400 / 365) as nat
}

/// The time stamp of a time in seconds since 1970: the first instant of its
/// rough year, in the notation of ISO 8601.
pub fn timestamp_for(secs: u64) -> (r: String)
    ensures
        r@ == decimal_digits(rough_year(secs)) + "-01-01T00:00:00Z"@,
{
    let days_since_epoch: u64 = secs / 86400;
    let years: u64 = 1970 + days_since_epoch / 365;
    let mut stamp = String::new();
    push_decimal(&mut stamp, years);
    stamp.append("-01-01T00:00:00Z");
    assert(stamp@ =~= decimal_digits(rough_year(secs)) + "-01-01T00:00:00Z"@);
    stamp
}

} // verus!
