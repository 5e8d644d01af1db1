//! Year/month values, the inclusive date range the crawl filters by, and the
//! `YYYY/MM` form in which a range bound is written.
use vstd::prelude::*;
use crate::numbers::{all_digits, dec_value, parse_u32};

verus! {

/// A calendar position: a year and a month, compared lexicographically
/// (year first, then month).
#[derive(Clone, Copy, Debug, PartialEq, Eq, Structural)]
pub struct YearMonth {
    pub year: u32,
    pub month: u32,
}

/// `a` is strictly earlier than `b`: smaller year, or same year and
/// smaller month.
pub open spec fn ym_lt(a: YearMonth, b: YearMonth) -> bool {
    a.year < b.year || (a.year == b.year && a.month < b.month)
}

/// `a` is no later than `b`.
pub open spec fn ym_le(a: YearMonth, b: YearMonth) -> bool {
    !ym_lt(b, a)
}

impl YearMonth {
    /// Strictly-earlier test, by year then month.
    pub fn lt(&self, other: &YearMonth) -> (r: bool)
        ensures
            r == ym_lt(*self, *other),
    {
        self.year < other.year || (self.year == other.year && self.month < other.month)
    }
}

/// An inclusive year/month window; a missing bound leaves that side open.
#[derive(Clone, Copy, Debug)]
pub struct DateRange {
    pub start: Option<YearMonth>,
    pub end: Option<YearMonth>,
}

/// The date sits strictly before the configured start bound.
pub open spec fn below_start(range: DateRange, d: YearMonth) -> bool {
    match range.start {
        Some(s) => ym_lt(d, s),
        None => false,
    }
}

/// The date sits strictly after the configured end bound.
pub open spec fn above_end(range: DateRange, d: YearMonth) -> bool {
    match range.end {
        Some(e) => ym_lt(e, d),
        None => false,
    }
}

/// The date falls inside the inclusive window.
pub open spec fn in_range(range: DateRange, d: YearMonth) -> bool {
    !below_start(range, d) && !above_end(range, d)
}

/// What the producer does with one item, given the running date after the
/// item's own date fields were applied.
#[derive(Clone, Copy, Debug, PartialEq, Eq, Structural)]
pub enum ItemAction {
    /// The running date crossed below the start bound: terminate the whole
    /// crawl (items arrive newest-first, so nothing later can qualify).
    Stop,
    /// The running date is still above the end bound: skip this item only.
    Skip,
    /// The item qualifies and is enqueued for download.
    Enqueue,
}

/// The decision the filter takes on a date: stop below the start bound,
/// skip above the end bound, enqueue otherwise.
pub open spec fn spec_decision(range: DateRange, d: YearMonth) -> ItemAction {
    if below_start(range, d) {
        ItemAction::Stop
    } else if above_end(range, d) {
        ItemAction::Skip
    } else {
        ItemAction::Enqueue
    }
}

/// An item is enqueued exactly when its running date lies in the window.
pub proof fn lemma_enqueue_means_in_range(range: DateRange, d: YearMonth)
    ensures
        spec_decision(range, d) is Enqueue <==> in_range(range, d),
{
}

impl DateRange {
    /// Applies the date-range policy to a running date.
    pub fn classify(&self, d: YearMonth) -> (r: ItemAction)
        ensures
            r == spec_decision(*self, d),
    {
        if let Some(s) = self.start {
            if d.lt(&s) {
                return ItemAction::Stop;
            }
        }
        if let Some(e) = self.end {
            if e.lt(&d) {
                return ItemAction::Skip;
            }
        }
        ItemAction::Enqueue
    }
}

/// `i` is the position of the first `'/'` in `s`.
pub open spec fn is_first_slash(s: Seq<char>, i: int) -> bool {
    &&& 0 <= i < s.len()
    &&& s[i] == '/'
    &&& forall|j: int| 0 <= j < i ==> s[j] != '/'
}

/// The string parses as an unsigned decimal that fits in `u32`.
pub open spec fn u32_parses(s: Seq<char>) -> bool {
    s.len() > 0 && all_digits(s) && dec_value(s) <= u32::MAX
}

/// A range bound in `YYYY/MM` form: digits, one slash, digits.
pub open spec fn spec_parse_ym(s: Seq<char>) -> Option<YearMonth> {
    if exists|i: int| is_first_slash(s, i) {
        let i = choose|i: int| is_first_slash(s, i);
        let y = s.subrange(0, i);
        let m = s.subrange(i + 1, s.len() as int);
        if u32_parses(y) && u32_parses(m) {
            Some(YearMonth { year: dec_value(y) as u32, month: dec_value(m) as u32 })
        } else {
            None
        }
    } else {
        None
    }
}

/// Parses a `YYYY/MM` range bound: the digits before the first slash are
/// the year, the digits after it the month.
pub fn parse_year_month(s: &str) -> (r: Option<YearMonth>)
    ensures
        r == spec_parse_ym(s@),
{
    let n = s.unicode_len();
    let mut i: usize = 0;
    while i < n
        invariant
            n == s@.len(),
            0 <= i <= n,
            forall|j: int| 0 <= j < i ==> s@[j] != '/',
        decreases n - i,
    {
        if s.get_char(i) == '/' {
            proof {
                assert(is_first_slash(s@, i as int));
                let w = choose|w: int| is_first_slash(s@, w);
                assert(s@[w] == '/');
                assert(w == i as int);
            }
            let y = match parse_u32(s.substring_char(0, i)) {
                Some(v) => v,
                None => {
                    return None;
                },
            };
            let m = match parse_u32(s.substring_char(i + 1, n)) {
                Some(v) => v,
                None => {
                    return None;
                },
            };
            return Some(YearMonth { year: y, month: m });
        }
        i = i + 1;
    }
    proof {
        assert(forall|w: int| !is_first_slash(s@, w));
    }
    None
}

} // verus!
