//! Trusted boundary to the system clock and the id generator.

use crate::dates::{days_in_month, Date};
use vstd::prelude::*;

verus! {

/// Relies on chrono's `Utc::now().timestamp_millis()`: the current time in
/// milliseconds since the Unix epoch. The clock is outside the model, so
/// nothing is assumed of the value.
#[verifier::external_body]
pub(crate) fn now_millis() -> i64 {
    chrono::Utc::now().timestamp_millis()
}

/// Relies on chrono's `Utc::now().date_naive()` and the `Datelike` accessors:
/// `month()` is documented to range over 1..=12 and `day()` over 1..=31. The
/// year is the proleptic Gregorian year as an `i32`.
#[verifier::external_body]
fn today_parts() -> (r: (i64, u32, u32))
    ensures
        1 <= r.1 <= 12,
        1 <= r.2 <= 31,
{
    let d = chrono::Utc::now().date_naive();
    (chrono::Datelike::year(&d) as i64, chrono::Datelike::month(&d), chrono::Datelike::day(&d))
}

/// The current UTC calendar date, when it falls inside the representable
/// range of [`Date`].
pub fn today() -> (r: Option<Date>)
    ensures
        r is Some ==> r->0.valid(),
{
    let (y, m, d) = today_parts();
    if 0 <= y && y <= 9999 {
        let day_max = days_in_month(y as u32, m);
        if d <= day_max {
            Some(Date { year: y as u32, month: m, day: d })
        } else {
            None
        }
    } else {
        None
    }
}

/// Relies on uuid's `Uuid::new_v4().to_string()`: a fresh random (version 4)
/// identifier in the hyphenated form, which is always 36 ASCII characters.
/// The value is random, so nothing more is assumed of it.
#[verifier::external_body]
pub(crate) fn new_uuid() -> (r: String)
    ensures
        r@.len() == 36,
{
    uuid::Uuid::new_v4().to_string()
}

} // verus!
