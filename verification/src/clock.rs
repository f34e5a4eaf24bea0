//! The one place where the system clock is read. Everything else in the
//! crate takes "today" as an explicit argument.

use vstd::prelude::*;

use crate::date::{days_in_month, Date};

verus! {

/// Relies on `chrono::Utc::now` together with `DateTime::date_naive` and the
/// `Datelike` accessors `year`, `month` and `day`: the current UTC date is an
/// existing calendar day no earlier than 1970. Panics only if the system
/// clock reads before the Unix epoch.
#[verifier::external_body]
pub fn today_utc() -> (d: Date)
    ensures
        1 <= d.month <= 12,
        1 <= d.day <= days_in_month(d.year as int, d.month as int),
        d.year >= 1970,
{
    let now = chrono::Utc::now().date_naive();
    Date {
        year: chrono::Datelike::year(&now),
        month: chrono::Datelike::month(&now) as i32,
        day: chrono::Datelike::day(&now) as i32,
    }
}

} // verus!
