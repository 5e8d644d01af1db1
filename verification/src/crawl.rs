//! Driving the producer over a whole sequence of listing pages: the outer
//! crawl loop, its termination conditions, and what the run as a whole
//! enqueues.
use vstd::prelude::*;
use crate::producer::{
    lemma_enqueued_iff_in_range, newest_first, opt_str_view, spec_filter_all, spec_page_step,
    spec_run_items, strs_of, CrawlError, CrawlState, Phase, StateView,
};
use crate::types::{page_views_of, views_of, ImageItem, ImageWallRes, WallResView, ItemView};

verus! {

/// How a crawl over a given page sequence ended.
#[derive(Clone, Copy, Debug, PartialEq, Eq, Structural)]
pub enum CrawlEnd {
    /// Terminal cursor, or the start bound was crossed: the normal end.
    Completed,
    /// A fatal listing error ended the run.
    Aborted(CrawlError),
    /// The producer still wanted a page beyond the given sequence.
    OutOfPages,
}

/// What a whole crawl yields.
#[verifier::ext_equal]
pub struct CrawlSpecResult {
    /// Every enqueued item, in arrival order across pages.
    pub enq: Seq<ItemView>,
    /// Every unparseable date field met, in order.
    pub bad: Seq<Seq<char>>,
    /// The trailer banner, when the first page showed one.
    pub trailer: Option<Seq<char>>,
    /// How many pages were consumed.
    pub pages_used: nat,
    /// How the crawl ended.
    pub end: CrawlEnd,
    /// The producer's final state.
    pub state: StateView,
}

/// The crawl from page `i` on: each page is processed by
/// [`spec_page_step`]; the loop ends on an abort, when the step reports the
/// crawl done, or when the pages run out.
pub open spec fn spec_crawl(st: StateView, pages: Seq<WallResView>, i: int) -> CrawlSpecResult
    decreases pages.len() - i,
{
    if i < 0 || i >= pages.len() {
        CrawlSpecResult {
            enq: Seq::empty(),
            bad: Seq::empty(),
            trailer: None,
            pages_used: 0,
            end: CrawlEnd::OutOfPages,
            state: st,
        }
    } else {
        let out = spec_page_step(st, pages[i]);
        match out.error {
            Some(e) => CrawlSpecResult {
                enq: out.enq,
                bad: out.bad,
                trailer: out.trailer,
                pages_used: 1,
                end: CrawlEnd::Aborted(e),
                state: out.state,
            },
            None => {
                if out.state.phase is Done {
                    CrawlSpecResult {
                        enq: out.enq,
                        bad: out.bad,
                        trailer: out.trailer,
                        pages_used: 1,
                        end: CrawlEnd::Completed,
                        state: out.state,
                    }
                } else {
                    let rest = spec_crawl(out.state, pages, i + 1);
                    CrawlSpecResult {
                        enq: out.enq + rest.enq,
                        bad: out.bad + rest.bad,
                        trailer: if out.trailer is Some {
                            out.trailer
                        } else {
                            rest.trailer
                        },
                        pages_used: 1 + rest.pages_used,
                        end: rest.end,
                        state: rest.state,
                    }
                }
            },
        }
    }
}

/// Once the crawl has ended of its own accord — a terminal cursor (`""`
/// or `"0"`), a start-bound crossing, or an abort — pages beyond that
/// point are never consumed: appending any further pages changes nothing
/// about the run.
pub proof fn lemma_crawl_ignores_later_pages(
    st: StateView,
    pages: Seq<WallResView>,
    more: Seq<WallResView>,
    i: int,
)
    requires
        0 <= i,
        !(spec_crawl(st, pages, i).end is OutOfPages),
    ensures
        spec_crawl(st, pages + more, i) == spec_crawl(st, pages, i),
    decreases pages.len() - i,
{
    assert(i < pages.len());
    assert((pages + more)[i] == pages[i]);
    let out = spec_page_step(st, pages[i]);
    match out.error {
        Some(e) => {
            assert(spec_crawl(st, pages + more, i) =~= spec_crawl(st, pages, i));
        },
        None => {
            if out.state.phase is Done {
                assert(spec_crawl(st, pages + more, i) =~= spec_crawl(st, pages, i));
            } else {
                lemma_crawl_ignores_later_pages(out.state, pages, more, i + 1);
                assert(spec_crawl(st, pages + more, i) =~= spec_crawl(st, pages, i));
            }
        },
    }
}

/// Every consumed page's items arrive newest-first, continuing from the
/// running date the previous pages left.
pub open spec fn crawl_newest_first(st: StateView, pages: Seq<WallResView>, i: int) -> bool
    decreases pages.len() - i,
{
    if i < 0 || i >= pages.len() {
        true
    } else {
        let out = spec_page_step(st, pages[i]);
        &&& (pages[i].ok == 1 && pages[i].data is Some ==> newest_first(
            st.date,
            pages[i].data->0.list,
            0,
        ))
        &&& (out.error is None && out.state.phase is Fetching ==> crawl_newest_first(
            out.state,
            pages,
            i + 1,
        ))
    }
}

/// The plain in-range filter over the pages the crawl consumes: each
/// consumed page contributes the items whose effective date falls inside
/// the window, in order.
pub open spec fn crawl_filter_all(st: StateView, pages: Seq<WallResView>, i: int) -> Seq<ItemView>
    decreases pages.len() - i,
{
    if i < 0 || i >= pages.len() {
        Seq::empty()
    } else {
        let out = spec_page_step(st, pages[i]);
        if pages[i].ok != 1 || pages[i].data is None {
            Seq::empty()
        } else {
            let here = spec_filter_all(
                st.range,
                st.date,
                pages[i].data->0.list,
                0,
                st.output,
                st.screen_name,
            );
            if out.error is None && out.state.phase is Fetching {
                here + crawl_filter_all(out.state, pages, i + 1)
            } else {
                here
            }
        }
    }
}

/// For every sequence of pages whose items arrive newest-first, the crawl
/// enqueues exactly the items whose effective running date falls inside
/// the inclusive window, page by page in arrival order: the stop rule at
/// the start bound — ending a page early and fetching no further pages —
/// drops only items the filter would have dropped anyway.
pub proof fn lemma_crawl_enqueues_exactly_in_range(
    st: StateView,
    pages: Seq<WallResView>,
    i: int,
)
    requires
        crawl_newest_first(st, pages, i),
    ensures
        spec_crawl(st, pages, i).enq == crawl_filter_all(st, pages, i),
    decreases pages.len() - i,
{
    if 0 <= i < pages.len() {
        let out = spec_page_step(st, pages[i]);
        if pages[i].ok == 1 && pages[i].data is Some {
            let data = pages[i].data->0;
            lemma_enqueued_iff_in_range(st.range, st.date, data.list, 0, st.output, st.screen_name);
            assert(out.enq == spec_run_items(
                st.range,
                st.date,
                data.list,
                0,
                st.output,
                st.screen_name,
            ).enq);
            if out.error is None && out.state.phase is Fetching {
                lemma_crawl_enqueues_exactly_in_range(out.state, pages, i + 1);
            }
            assert(spec_crawl(st, pages, i).enq =~= crawl_filter_all(st, pages, i));
        } else {
            assert(spec_crawl(st, pages, i).enq =~= crawl_filter_all(st, pages, i));
        }
    }
}

/// What a crawl over a given page sequence hands back.
pub struct CrawlRun {
    /// Every enqueued item, in arrival order.
    pub items: Vec<ImageItem>,
    /// Every date field that failed to parse, for the log.
    pub bad_fields: Vec<String>,
    /// The trailer banner, when the first page showed one.
    pub trailer: Option<String>,
    /// How many pages were consumed.
    pub pages_used: usize,
    /// How the crawl ended.
    pub end: CrawlEnd,
}

/// Drives the producer over an already-fetched sequence of pages, in
/// order: page `k` stands for what the listing endpoint answers to the
/// `k`-th fetch. Consumes pages until the crawl completes, aborts, or the
/// sequence runs out.
pub fn run_crawl(state: &mut CrawlState, pages: &Vec<ImageWallRes>) -> (r: CrawlRun)
    requires
        old(state).phase is Fetching,
    ensures
        ({
            let res = spec_crawl(old(state)@, page_views_of(pages@), 0);
            &&& final(state)@ == res.state
            &&& views_of(r.items@) == res.enq
            &&& strs_of(r.bad_fields@) == res.bad
            &&& opt_str_view(r.trailer) == res.trailer
            &&& r.pages_used == res.pages_used
            &&& r.end == res.end
        }),
{
    let ghost pviews = page_views_of(pages@);
    let ghost full = spec_crawl(old(state)@, pviews, 0);
    let mut items: Vec<ImageItem> = Vec::new();
    let mut bad_fields: Vec<String> = Vec::new();
    let mut trailer: Option<String> = None;
    let mut used: usize = 0;
    let mut end: Option<CrawlEnd> = None;
    let mut i: usize = 0;
    proof {
        assert(views_of(items@) =~= Seq::<ItemView>::empty());
        assert(strs_of(bad_fields@) =~= Seq::<Seq<char>>::empty());
    }
    while i < pages.len() && end.is_none()
        invariant
            0 <= i <= pviews.len(),
            pviews == page_views_of(pages@),
            pages@.len() == pviews.len(),
            used == i,
            full == spec_crawl(old(state)@, pviews, 0),
            match end {
                None => {
                    let rest = spec_crawl(state@, pviews, i as int);
                    &&& state.phase is Fetching
                    &&& full.enq == views_of(items@) + rest.enq
                    &&& full.bad == strs_of(bad_fields@) + rest.bad
                    &&& full.trailer == (if trailer is Some {
                        opt_str_view(trailer)
                    } else {
                        rest.trailer
                    })
                    &&& full.pages_used == used + rest.pages_used
                    &&& full.end == rest.end
                    &&& full.state == rest.state
                },
                Some(e) => {
                    &&& full.enq == views_of(items@)
                    &&& full.bad == strs_of(bad_fields@)
                    &&& full.trailer == opt_str_view(trailer)
                    &&& full.pages_used == used
                    &&& full.end == e
                    &&& full.state == state@
                },
            },
        decreases pviews.len() - i + (if end.is_none() { 1int } else { 0int }),
    {
        let ghost st_pre = state@;
        let page = &pages[i];
        proof {
            assert(pviews[i as int] == pages@[i as int]@);
        }
        let mut out = state.process_page(page);
        let ghost spec_out = spec_page_step(st_pre, pviews[i as int]);
        let ghost items0 = items@;
        let ghost bad0 = bad_fields@;
        items.append(&mut out.items);
        bad_fields.append(&mut out.bad_fields);
        proof {
            assert(views_of(items@) =~= views_of(items0) + spec_out.enq);
            assert(strs_of(bad_fields@) =~= strs_of(bad0) + spec_out.bad);
        }
        if trailer.is_none() {
            trailer = out.trailer;
        }
        used = used + 1;
        i = i + 1;
        match out.error {
            Some(e) => {
                end = Some(CrawlEnd::Aborted(e));
            },
            None => {
                if !matches!(state.phase, Phase::Fetching) {
                    end = Some(CrawlEnd::Completed);
                }
            },
        }
    }
    let end_val = match end {
        Some(e) => e,
        None => CrawlEnd::OutOfPages,
    };
    CrawlRun { items, bad_fields, trailer, pages_used: used, end: end_val }
}

} // verus!
