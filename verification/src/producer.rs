//! The crawl producer: it consumes listing pages, carries the running date
//! forward, applies the date-range policy to every item, computes each
//! qualifying item's destination directory, and decides when the crawl is
//! done or must abort.
use vstd::prelude::*;
use crate::dates::{
    in_range, spec_decision, u32_parses, ym_le, ym_lt, DateRange, ItemAction, YearMonth,
};
use crate::numbers::dec_value;
use crate::paths::{build_dir_path, dir_path};
use crate::types::{
    views_of, ImageItem, ImageWallRes, ItemView, UserInfo, UserInfoRes, WallResView,
};

verus! {

/// Why a run aborted or a startup step failed.
#[derive(Clone, Copy, Debug, PartialEq, Eq, Structural)]
pub enum CrawlError {
    /// A listing page answered with a status flag other than success.
    ListingFailed,
    /// A listing page claimed success but carried no payload.
    MissingPayload,
    /// Every attempt to fetch one listing page failed.
    ListingExhausted,
    /// The user-info endpoint answered with a failure status.
    UserFetchFailed,
    /// The user-info endpoint carried no payload.
    UserMissing,
}

/// Where the producer stands.
#[derive(Clone, Copy, Debug, PartialEq, Eq, Structural)]
pub enum Phase {
    /// Another page is wanted.
    Fetching,
    /// The crawl ended normally: terminal cursor, or the start bound was
    /// crossed.
    Done,
    /// The crawl ended with a fatal error.
    Aborted,
}

/// Checks the user-info response: the status flag must be the success
/// value and the payload must be present.
pub fn check_user_info(res: UserInfoRes) -> (r: Result<UserInfo, CrawlError>)
    ensures
        match r {
            Ok(u) => res.ok == 1 && res.data is Some && u.screen_name@ == res.data->0.user.screen_name@,
            Err(e) => (res.ok != 1 && e == CrawlError::UserFetchFailed) || (res.ok == 1
                && res.data is None && e == CrawlError::UserMissing),
        },
{
    if res.ok != 1 {
        return Err(CrawlError::UserFetchFailed);
    }
    match res.data {
        Some(d) => Ok(d.user),
        None => Err(CrawlError::UserMissing),
    }
}

/// A cursor that ends the crawl: the empty string, or the sentinel `"0"`
/// that the API uses interchangeably with it.
pub open spec fn cursor_terminal(s: Seq<char>) -> bool {
    s.len() == 0 || s == "0"@
}

/// Terminal-cursor test: empty or the literal `"0"`.
pub fn cursor_is_terminal(s: &str) -> (r: bool)
    ensures
        r == cursor_terminal(s@),
{
    proof {
        reveal_strlit("0");
    }
    let n = s.unicode_len();
    if n == 0 {
        true
    } else if n == 1 {
        let c = s.get_char(0);
        proof {
            if c == '0' {
                assert(s@ =~= "0"@);
            }
        }
        c == '0'
    } else {
        false
    }
}

/// A date field's effect on the running value: a non-empty field that
/// parses replaces it, anything else leaves it unchanged.
pub open spec fn field_update(prev: u32, s: Seq<char>) -> u32 {
    if u32_parses(s) {
        dec_value(s) as u32
    } else {
        prev
    }
}

/// A non-empty field that does not parse is reported, while the running
/// value keeps its last good state.
pub open spec fn field_bad(s: Seq<char>) -> bool {
    s.len() > 0 && !u32_parses(s)
}

/// The running date after one item's fields are applied.
pub open spec fn spec_effective(d: YearMonth, it: ItemView) -> YearMonth {
    YearMonth {
        year: field_update(d.year, it.timeline_year),
        month: field_update(d.month, it.timeline_month),
    }
}

/// The unparseable date fields of one item, month first as they are
/// examined.
pub open spec fn item_bad(it: ItemView) -> Seq<Seq<char>> {
    (if field_bad(it.timeline_month) {
        seq![it.timeline_month]
    } else {
        Seq::empty()
    }) + (if field_bad(it.timeline_year) {
        seq![it.timeline_year]
    } else {
        Seq::empty()
    })
}

/// Applies one date field to a running value; also reports whether the
/// field was present but unparseable.
pub fn update_field(prev: u32, s: &str) -> (r: (u32, bool))
    ensures
        r.0 == field_update(prev, s@),
        r.1 == field_bad(s@),
{
    if s.unicode_len() == 0 {
        (prev, false)
    } else {
        match crate::numbers::parse_u32(s) {
            Some(v) => (v, false),
            None => (prev, true),
        }
    }
}

/// An item as it is enqueued: the destination directory is computed from
/// the output root, the display name, and the running date.
pub open spec fn enq_view(it: ItemView, out: Seq<char>, name: Seq<char>, d: YearMonth) -> ItemView {
    ItemView { mid: dir_path(out, name, d), ..it }
}

/// What filtering the items of one page from position `i` on yields.
#[verifier::ext_equal]
pub struct ItemsSpecResult {
    /// The running date afterwards.
    pub date: YearMonth,
    /// The enqueued items, in arrival order.
    pub enq: Seq<ItemView>,
    /// The unparseable date fields met on the way.
    pub bad: Seq<Seq<char>>,
    /// The start bound was crossed: the whole crawl ends here.
    pub stopped: bool,
}

/// Folds the per-item policy over the items of one page from position `i`:
/// each item first moves the running date, then is stopped on, skipped, or
/// enqueued with its destination directory.
pub open spec fn spec_run_items(
    range: DateRange,
    d: YearMonth,
    items: Seq<ItemView>,
    i: int,
    out: Seq<char>,
    name: Seq<char>,
) -> ItemsSpecResult
    decreases items.len() - i,
{
    if i < 0 || i >= items.len() {
        ItemsSpecResult { date: d, enq: Seq::empty(), bad: Seq::empty(), stopped: false }
    } else {
        let it = items[i];
        let d1 = spec_effective(d, it);
        let b = item_bad(it);
        match spec_decision(range, d1) {
            ItemAction::Stop => ItemsSpecResult { date: d1, enq: Seq::empty(), bad: b, stopped: true },
            ItemAction::Skip => {
                let rest = spec_run_items(range, d1, items, i + 1, out, name);
                ItemsSpecResult { date: rest.date, enq: rest.enq, bad: b + rest.bad, stopped: rest.stopped }
            },
            ItemAction::Enqueue => {
                let rest = spec_run_items(range, d1, items, i + 1, out, name);
                ItemsSpecResult {
                    date: rest.date,
                    enq: seq![enq_view(it, out, name, d1)] + rest.enq,
                    bad: b + rest.bad,
                    stopped: rest.stopped,
                }
            },
        }
    }
}

/// Items arrive newest-first from position `i` on: each item's effective
/// date is no later than the running date before it.
pub open spec fn newest_first(d: YearMonth, items: Seq<ItemView>, i: int) -> bool
    decreases items.len() - i,
{
    if i < 0 || i >= items.len() {
        true
    } else {
        let d1 = spec_effective(d, items[i]);
        ym_le(d1, d) && newest_first(d1, items, i + 1)
    }
}

/// The plain in-range filter from position `i` on, with no stop rule:
/// every item whose effective date falls inside the window, in order.
pub open spec fn spec_filter_all(
    range: DateRange,
    d: YearMonth,
    items: Seq<ItemView>,
    i: int,
    out: Seq<char>,
    name: Seq<char>,
) -> Seq<ItemView>
    decreases items.len() - i,
{
    if i < 0 || i >= items.len() {
        Seq::empty()
    } else {
        let d1 = spec_effective(d, items[i]);
        let rest = spec_filter_all(range, d1, items, i + 1, out, name);
        if in_range(range, d1) {
            seq![enq_view(items[i], out, name, d1)] + rest
        } else {
            rest
        }
    }
}

/// Once the running date sits below the start bound, newest-first ordering
/// keeps it there, so the plain in-range filter takes nothing further.
pub proof fn lemma_below_start_filters_nothing(
    range: DateRange,
    d: YearMonth,
    items: Seq<ItemView>,
    i: int,
    out: Seq<char>,
    name: Seq<char>,
)
    requires
        range.start is Some,
        ym_lt(d, range.start->0),
        newest_first(d, items, i),
    ensures
        spec_filter_all(range, d, items, i, out, name) == Seq::<ItemView>::empty(),
    decreases items.len() - i,
{
    if 0 <= i < items.len() {
        let d1 = spec_effective(d, items[i]);
        assert(ym_lt(d1, range.start->0));
        lemma_below_start_filters_nothing(range, d1, items, i + 1, out, name);
    }
}

/// Given newest-first ordering, the set of enqueued items is exactly the
/// set of items whose effective running date falls inside the inclusive
/// window: the stop rule at the start bound discards nothing that the
/// plain in-range filter would have kept, and keeps nothing it would have
/// dropped.
pub proof fn lemma_enqueued_iff_in_range(
    range: DateRange,
    d: YearMonth,
    items: Seq<ItemView>,
    i: int,
    out: Seq<char>,
    name: Seq<char>,
)
    requires
        newest_first(d, items, i),
    ensures
        spec_run_items(range, d, items, i, out, name).enq == spec_filter_all(
            range,
            d,
            items,
            i,
            out,
            name,
        ),
    decreases items.len() - i,
{
    if 0 <= i < items.len() {
        let d1 = spec_effective(d, items[i]);
        match spec_decision(range, d1) {
            ItemAction::Stop => {
                assert(!in_range(range, d1));
                lemma_below_start_filters_nothing(range, d1, items, i + 1, out, name);
                assert(spec_run_items(range, d, items, i, out, name).enq =~= spec_filter_all(
                    range,
                    d,
                    items,
                    i,
                    out,
                    name,
                ));
            },
            ItemAction::Skip => {
                assert(!in_range(range, d1));
                lemma_enqueued_iff_in_range(range, d1, items, i + 1, out, name);
            },
            ItemAction::Enqueue => {
                assert(in_range(range, d1));
                lemma_enqueued_iff_in_range(range, d1, items, i + 1, out, name);
            },
        }
    }
}

/// Running from position `p` with date `d`, the first start-bound
/// crossing happens at position `i`.
pub open spec fn stops_at(
    range: DateRange,
    d: YearMonth,
    items: Seq<ItemView>,
    p: int,
    i: int,
) -> bool
    decreases i - p,
{
    if p < 0 || p >= items.len() || p > i {
        false
    } else {
        let d1 = spec_effective(d, items[p]);
        if p == i {
            spec_decision(range, d1) is Stop
        } else {
            !(spec_decision(range, d1) is Stop) && stops_at(range, d1, items, p + 1, i)
        }
    }
}

/// Crossing below the start bound terminates enqueuing permanently: when
/// the crossing happens at position `i`, any sequence that agrees with
/// this one up to and including `i` enqueues exactly the same items —
/// whatever stands after the crossing, even items whose dates would fall
/// back inside the window.
pub proof fn lemma_stop_is_permanent(
    range: DateRange,
    d: YearMonth,
    items: Seq<ItemView>,
    items2: Seq<ItemView>,
    p: int,
    i: int,
    out: Seq<char>,
    name: Seq<char>,
)
    requires
        stops_at(range, d, items, p, i),
        i < items2.len(),
        forall|j: int| p <= j <= i ==> items2[j] == items[j],
    ensures
        spec_run_items(range, d, items2, p, out, name).stopped,
        spec_run_items(range, d, items2, p, out, name).enq == spec_run_items(
            range,
            d,
            items,
            p,
            out,
            name,
        ).enq,
    decreases i - p,
{
    let d1 = spec_effective(d, items[p]);
    assert(items2[p] == items[p]);
    if p < i {
        lemma_stop_is_permanent(range, d1, items, items2, p + 1, i, out, name);
    }
}

/// Crossing above the end bound skips that item only: the run continues
/// from the next item with the same running date, the same termination
/// status, and the same enqueued items.
pub proof fn lemma_skip_continues(
    range: DateRange,
    d: YearMonth,
    items: Seq<ItemView>,
    i: int,
    out: Seq<char>,
    name: Seq<char>,
)
    requires
        0 <= i < items.len(),
        spec_decision(range, spec_effective(d, items[i])) is Skip,
    ensures
        ({
            let whole = spec_run_items(range, d, items, i, out, name);
            let rest = spec_run_items(
                range,
                spec_effective(d, items[i]),
                items,
                i + 1,
                out,
                name,
            );
            &&& whole.enq == rest.enq
            &&& whole.stopped == rest.stopped
            &&& whole.date == rest.date
        }),
{
}

/// The mathematical shadow of a [`CrawlState`].
#[verifier::ext_equal]
pub struct StateView {
    pub phase: Phase,
    pub cursor: Seq<char>,
    pub date: YearMonth,
    pub range: DateRange,
    pub output: Seq<char>,
    pub screen_name: Seq<char>,
}

/// The producer's state: the pagination cursor, the running date, the
/// configured range, and the path pieces destinations are computed from.
pub struct CrawlState {
    pub phase: Phase,
    pub cursor: String,
    pub date: YearMonth,
    pub range: DateRange,
    pub output: String,
    pub screen_name: String,
}

impl View for CrawlState {
    type V = StateView;

    open spec fn view(&self) -> StateView {
        StateView {
            phase: self.phase,
            cursor: self.cursor@,
            date: self.date,
            range: self.range,
            output: self.output@,
            screen_name: self.screen_name@,
        }
    }
}

/// What processing one page yields, besides the new producer state.
#[verifier::ext_equal]
pub struct PageSpecOutput {
    pub enq: Seq<ItemView>,
    pub bad: Seq<Seq<char>>,
    pub trailer: Option<Seq<char>>,
    pub error: Option<CrawlError>,
    pub state: StateView,
}

/// One step of the producer on a fetched page: a failed status flag or a
/// missing payload aborts; otherwise the items are filtered, the trailer is
/// surfaced on the first page only, and the cursor advances unless the
/// start bound was crossed. The crawl is done when the start bound was
/// crossed or the new cursor is terminal.
pub open spec fn spec_page_step(st: StateView, page: WallResView) -> PageSpecOutput {
    if page.ok != 1 {
        PageSpecOutput {
            enq: Seq::empty(),
            bad: Seq::empty(),
            trailer: None,
            error: Some(CrawlError::ListingFailed),
            state: StateView { phase: Phase::Aborted, ..st },
        }
    } else if page.data is None {
        PageSpecOutput {
            enq: Seq::empty(),
            bad: Seq::empty(),
            trailer: None,
            error: Some(CrawlError::MissingPayload),
            state: StateView { phase: Phase::Aborted, ..st },
        }
    } else {
        let data = page.data->0;
        let trailer = if st.cursor.len() == 0 && page.bottom_tips_visible {
            Some(page.bottom_tips_text)
        } else {
            None
        };
        let items = spec_run_items(st.range, st.date, data.list, 0, st.output, st.screen_name);
        if items.stopped {
            PageSpecOutput {
                enq: items.enq,
                bad: items.bad,
                trailer,
                error: None,
                state: StateView { phase: Phase::Done, date: items.date, ..st },
            }
        } else {
            PageSpecOutput {
                enq: items.enq,
                bad: items.bad,
                trailer,
                error: None,
                state: StateView {
                    phase: if cursor_terminal(data.since_id) {
                        Phase::Done
                    } else {
                        Phase::Fetching
                    },
                    cursor: data.since_id,
                    date: items.date,
                    ..st
                },
            }
        }
    }
}

/// The views of a sequence of owned strings.
pub open spec fn strs_of(s: Seq<String>) -> Seq<Seq<char>> {
    s.map_values(|x: String| x@)
}

/// The view of an optional owned string.
pub open spec fn opt_str_view(o: Option<String>) -> Option<Seq<char>> {
    match o {
        Some(s) => Some(s@),
        None => None,
    }
}

/// What processing one page hands back to the caller.
pub struct PageOutput {
    /// The items to enqueue, in arrival order.
    pub items: Vec<ImageItem>,
    /// The date fields that failed to parse, for the log.
    pub bad_fields: Vec<String>,
    /// The trailer banner, on the first page when marked visible.
    pub trailer: Option<String>,
    /// The fatal error, when the page aborted the crawl.
    pub error: Option<CrawlError>,
}

impl CrawlState {
    /// A producer about to fetch its first page: empty cursor, the given
    /// seed for the running date.
    pub fn new(seed: YearMonth, range: DateRange, output: String, screen_name: String) -> (r:
        CrawlState)
        ensures
            r@ == (StateView {
                phase: Phase::Fetching,
                cursor: Seq::<char>::empty(),
                date: seed,
                range,
                output: output@,
                screen_name: screen_name@,
            }),
    {
        let r = CrawlState {
            phase: Phase::Fetching,
            cursor: String::new(),
            date: seed,
            range,
            output,
            screen_name,
        };
        proof {
            assert(r@ =~= (StateView {
                phase: Phase::Fetching,
                cursor: Seq::<char>::empty(),
                date: seed,
                range,
                output: r.output@,
                screen_name: r.screen_name@,
            }));
        }
        r
    }

    /// Processes one fetched page: checks the status flag and payload,
    /// filters the items, and advances cursor and phase.
    pub fn process_page(&mut self, page: &ImageWallRes) -> (r: PageOutput)
        requires
            old(self).phase is Fetching,
        ensures
            ({
                let out = spec_page_step(old(self)@, page@);
                &&& final(self)@ == out.state
                &&& views_of(r.items@) == out.enq
                &&& strs_of(r.bad_fields@) == out.bad
                &&& opt_str_view(r.trailer) == out.trailer
                &&& r.error == out.error
            }),
    {
        if page.ok != 1 {
            self.phase = Phase::Aborted;
            proof {
                assert(views_of(Seq::<ImageItem>::empty()) =~= Seq::<ItemView>::empty());
                assert(strs_of(Seq::<String>::empty()) =~= Seq::<Seq<char>>::empty());
            }
            return PageOutput {
                items: Vec::new(),
                bad_fields: Vec::new(),
                trailer: None,
                error: Some(CrawlError::ListingFailed),
            };
        }
        let data = match &page.data {
            Some(d) => d,
            None => {
                self.phase = Phase::Aborted;
                proof {
                    assert(views_of(Seq::<ImageItem>::empty()) =~= Seq::<ItemView>::empty());
                    assert(strs_of(Seq::<String>::empty()) =~= Seq::<Seq<char>>::empty());
                }
                return PageOutput {
                    items: Vec::new(),
                    bad_fields: Vec::new(),
                    trailer: None,
                    error: Some(CrawlError::MissingPayload),
                };
            },
        };
        let trailer: Option<String> = if self.cursor.as_str().unicode_len() == 0
            && page.bottom_tips_visible {
            Some(page.bottom_tips_text.clone())
        } else {
            None
        };
        let ghost d0 = self.date;
        let ghost ivs = views_of(data.list@);
        let ghost full = spec_run_items(self.range, d0, ivs, 0, self.output@, self.screen_name@);
        let mut enq: Vec<ImageItem> = Vec::new();
        let mut bad: Vec<String> = Vec::new();
        let mut stopped = false;
        let mut idx: usize = 0;
        proof {
            assert(views_of(enq@) =~= Seq::<ItemView>::empty());
            assert(strs_of(bad@) =~= Seq::<Seq<char>>::empty());
        }
        while idx < data.list.len() && !stopped
            invariant
                0 <= idx <= ivs.len(),
                ivs == views_of(data.list@),
                data.list@.len() == ivs.len(),
                full == spec_run_items(self.range, d0, ivs, 0, self.output@, self.screen_name@),
                self.range == old(self).range,
                self.output == old(self).output,
                self.screen_name == old(self).screen_name,
                self.cursor == old(self).cursor,
                self.phase == old(self).phase,
                !stopped ==> {
                    let rest = spec_run_items(
                        self.range,
                        self.date,
                        ivs,
                        idx as int,
                        self.output@,
                        self.screen_name@,
                    );
                    &&& full.enq == views_of(enq@) + rest.enq
                    &&& full.bad == strs_of(bad@) + rest.bad
                    &&& full.date == rest.date
                    &&& full.stopped == rest.stopped
                },
                stopped ==> {
                    &&& full.enq == views_of(enq@)
                    &&& full.bad == strs_of(bad@)
                    &&& full.date == self.date
                    &&& full.stopped
                },
            decreases ivs.len() - idx + (if stopped { 0int } else { 1int }),
        {
            let it = &data.list[idx];
            let ghost iv = ivs[idx as int];
            proof {
                assert(iv == it@);
            }
            let (m, mbad) = update_field(self.date.month, it.timeline_month.as_str());
            let (y, ybad) = update_field(self.date.year, it.timeline_year.as_str());
            let ghost dprev = self.date;
            let d1 = YearMonth { year: y, month: m };
            proof {
                assert(d1 == spec_effective(dprev, iv));
            }
            let ghost bad0 = bad@;
            if mbad {
                bad.push(it.timeline_month.clone());
            }
            if ybad {
                bad.push(it.timeline_year.clone());
            }
            proof {
                assert(strs_of(bad@) =~= strs_of(bad0) + item_bad(iv));
            }
            self.date = d1;
            match self.range.classify(d1) {
                ItemAction::Stop => {
                    stopped = true;
                },
                ItemAction::Skip => {
                    idx = idx + 1;
                },
                ItemAction::Enqueue => {
                    let mid = build_dir_path(
                        self.output.as_str(),
                        self.screen_name.as_str(),
                        d1,
                    );
                    let ghost enq0 = enq@;
                    enq.push(
                        ImageItem {
                            pid: it.pid.clone(),
                            mid,
                            timeline_month: it.timeline_month.clone(),
                            timeline_year: it.timeline_year.clone(),
                        },
                    );
                    proof {
                        assert(views_of(enq@) =~= views_of(enq0) + seq![
                            enq_view(iv, self.output@, self.screen_name@, d1),
                        ]);
                    }
                    idx = idx + 1;
                },
            }
        }
        if stopped {
            self.phase = Phase::Done;
        } else {
            self.cursor = data.since_id.clone();
            if cursor_is_terminal(self.cursor.as_str()) {
                self.phase = Phase::Done;
            } else {
                self.phase = Phase::Fetching;
            }
        }
        proof {
            let out = spec_page_step(old(self)@, page@);
            assert(self@ =~= out.state);
        }
        PageOutput { items: enq, bad_fields: bad, trailer, error: None }
    }
}

} // verus!
