//! The current local calendar date, which seeds the running date before
//! the first page arrives.
use vstd::prelude::*;
use chrono::Datelike;
use crate::dates::YearMonth;

verus! {

/// Relies on chrono's `Local::now` and the `Datelike` accessors `year` and
/// `month`: `month` is documented to range from 1 to 12; nothing else can
/// be promised of the clock.
#[verifier::external_body]
fn local_now_parts() -> (r: (u32, u32))
    ensures
        1 <= r.1 <= 12,
{
    let now = chrono::Local::now();
    (now.year() as u32, now.month())
}

/// The current local year and month, the seed of the running date: items
/// that name no date of their own inherit it until one does.
pub fn current_year_month() -> (r: YearMonth)
    ensures
        1 <= r.month <= 12,
{
    let (year, month) = local_now_parts();
    YearMonth { year, month }
}

} // verus!
