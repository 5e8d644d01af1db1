//! The download worker's per-item logic: a bounded retry loop in which
//! every attempt truncates the destination file, streams chunks into it,
//! and either completes cleanly or invalidates the whole attempt.
use vstd::prelude::*;
use crate::progress::Progress;
use crate::types::ImageItem;

verus! {

/// Where one item's download stands.
#[derive(Clone, Copy, Debug, PartialEq, Eq, Structural)]
pub enum ItemPhase {
    /// Between attempts: no request in flight.
    Idle,
    /// A response body is being streamed into the file.
    Streaming,
    /// A clean end of stream completed the item.
    Succeeded,
    /// Every attempt failed; the item is given up.
    Abandoned,
}

/// The state of one item's download: the retry budget, how many attempts
/// have begun, the bytes the destination file holds, and the phase.
///
/// The `file` field models the destination file: the caller performing the
/// real writes mirrors it exactly — truncate on [`Self::start_attempt`],
/// append on [`Self::chunk_received`].
pub struct ItemDownload {
    pub budget: u32,
    pub started: u32,
    pub file: Vec<u8>,
    pub phase: ItemPhase,
}

impl ItemDownload {
    /// A fresh item: no attempt yet, the file created empty.
    pub fn begin(budget: u32) -> (r: ItemDownload)
        ensures
            r.budget == budget,
            r.started == 0,
            r.file@ == Seq::<u8>::empty(),
            r.phase is Idle,
    {
        ItemDownload { budget, started: 0, file: Vec::new(), phase: ItemPhase::Idle }
    }

    /// Begins the next attempt: truncates the file and issues the request.
    /// Any bytes an earlier attempt left behind are discarded here, never
    /// appended to.
    pub fn start_attempt(&mut self)
        requires
            old(self).phase is Idle,
            old(self).started < old(self).budget,
        ensures
            final(self).budget == old(self).budget,
            final(self).started == old(self).started + 1,
            final(self).file@ == Seq::<u8>::empty(),
            final(self).phase is Streaming,
    {
        self.file.clear();
        self.started = self.started + 1;
        self.phase = ItemPhase::Streaming;
    }

    /// The request failed to establish: the attempt is spent, the file is
    /// not touched further.
    pub fn connect_failed(&mut self)
        requires
            old(self).phase is Streaming,
        ensures
            final(self).budget == old(self).budget,
            final(self).started == old(self).started,
            final(self).file@ == old(self).file@,
            final(self).phase is Idle,
    {
        self.phase = ItemPhase::Idle;
    }

    /// One body chunk arrived and is appended to the file.
    pub fn chunk_received(&mut self, chunk: &[u8])
        requires
            old(self).phase is Streaming,
        ensures
            final(self).budget == old(self).budget,
            final(self).started == old(self).started,
            final(self).file@ == old(self).file@ + chunk@,
            final(self).phase is Streaming,
    {
        let n = chunk.len();
        let mut i: usize = 0;
        proof {
            assert(old(self).file@ + chunk@.take(0) =~= old(self).file@);
        }
        while i < n
            invariant
                0 <= i <= n,
                n == chunk@.len(),
                self.file@ == old(self).file@ + chunk@.take(i as int),
                self.budget == old(self).budget,
                self.started == old(self).started,
                self.phase == old(self).phase,
            decreases n - i,
        {
            self.file.push(chunk[i]);
            proof {
                assert(old(self).file@ + chunk@.take(i as int + 1) =~= (old(self).file@
                    + chunk@.take(i as int)).push(chunk@[i as int]));
            }
            i = i + 1;
        }
        proof {
            assert(chunk@.take(n as int) =~= chunk@);
        }
    }

    /// A clean end of stream: the item is complete; the file holds exactly
    /// this attempt's bytes.
    pub fn stream_ended(&mut self)
        requires
            old(self).phase is Streaming,
        ensures
            final(self).budget == old(self).budget,
            final(self).started == old(self).started,
            final(self).file@ == old(self).file@,
            final(self).phase is Succeeded,
    {
        self.phase = ItemPhase::Succeeded;
    }

    /// A mid-stream read error: the whole attempt is invalid; the next
    /// attempt, if any, starts from an empty file.
    pub fn read_error(&mut self)
        requires
            old(self).phase is Streaming,
        ensures
            final(self).budget == old(self).budget,
            final(self).started == old(self).started,
            final(self).file@ == old(self).file@,
            final(self).phase is Idle,
    {
        self.phase = ItemPhase::Idle;
    }

    /// The budget is spent without a clean completion: the item is
    /// abandoned; whatever the last attempt left in the file stays.
    pub fn give_up(&mut self)
        requires
            old(self).phase is Idle,
            old(self).started == old(self).budget,
        ensures
            final(self).budget == old(self).budget,
            final(self).started == old(self).started,
            final(self).file@ == old(self).file@,
            final(self).phase is Abandoned,
    {
        self.phase = ItemPhase::Abandoned;
    }
}

/// What one attempt would meet: a connection that never establishes, or a
/// streamed body of chunks ending cleanly or in a read error.
pub enum AttemptScript {
    /// The request fails to establish.
    ConnectFail,
    /// The response streams these chunks; `clean` tells whether the stream
    /// then ends cleanly or in a read error.
    Stream { chunks: Vec<Vec<u8>>, clean: bool },
}

/// The mathematical shadow of an [`AttemptScript`].
pub struct AttemptView {
    pub connect: bool,
    pub chunks: Seq<Seq<u8>>,
    pub clean: bool,
}

/// The views of a sequence of chunks.
pub open spec fn chunk_views(s: Seq<Vec<u8>>) -> Seq<Seq<u8>> {
    s.map_values(|c: Vec<u8>| c@)
}

impl View for AttemptScript {
    type V = AttemptView;

    open spec fn view(&self) -> AttemptView {
        match self {
            AttemptScript::ConnectFail => AttemptView {
                connect: false,
                chunks: Seq::empty(),
                clean: false,
            },
            AttemptScript::Stream { chunks, clean } => AttemptView {
                connect: true,
                chunks: chunk_views(chunks@),
                clean: *clean,
            },
        }
    }
}

/// The views of a sequence of attempt scripts.
pub open spec fn attempt_views(s: Seq<AttemptScript>) -> Seq<AttemptView> {
    s.map_values(|a: AttemptScript| a@)
}

/// All chunks of one attempt, concatenated in arrival order.
pub open spec fn concat_chunks(chunks: Seq<Seq<u8>>) -> Seq<u8>
    decreases chunks.len(),
{
    if chunks.len() == 0 {
        Seq::empty()
    } else {
        concat_chunks(chunks.drop_last()) + chunks.last()
    }
}

/// What a whole item download yields.
#[verifier::ext_equal]
pub struct ItemSpecOutcome {
    /// The bytes the destination file holds afterwards.
    pub file: Seq<u8>,
    /// A clean end of stream was reached within the budget.
    pub succeeded: bool,
    /// How many attempts were made.
    pub attempts: nat,
}

/// The retry loop from attempt `k` on, with `prev` the bytes the file
/// holds when no further attempt begins: each attempt truncates the file
/// first; a clean stream keeps exactly its own chunks; a connect failure
/// or read error spends the attempt.
pub open spec fn spec_run_item(
    budget: int,
    scripts: Seq<AttemptView>,
    k: int,
    prev: Seq<u8>,
) -> ItemSpecOutcome
    decreases scripts.len() - k,
{
    if k < 0 || k >= budget || k >= scripts.len() {
        ItemSpecOutcome { file: prev, succeeded: false, attempts: 0 }
    } else {
        let a = scripts[k];
        if !a.connect {
            let rest = spec_run_item(budget, scripts, k + 1, Seq::empty());
            ItemSpecOutcome { file: rest.file, succeeded: rest.succeeded, attempts: 1 + rest.attempts }
        } else {
            let written = concat_chunks(a.chunks);
            if a.clean {
                ItemSpecOutcome { file: written, succeeded: true, attempts: 1 }
            } else {
                let rest = spec_run_item(budget, scripts, k + 1, written);
                ItemSpecOutcome { file: rest.file, succeeded: rest.succeeded, attempts: 1 + rest.attempts }
            }
        }
    }
}

/// Appending one chunk extends the concatenation by that chunk.
pub proof fn lemma_concat_take_succ(chunks: Seq<Seq<u8>>, j: int)
    requires
        0 <= j < chunks.len(),
    ensures
        concat_chunks(chunks.take(j + 1)) == concat_chunks(chunks.take(j)) + chunks[j],
{
    assert(chunks.take(j + 1).drop_last() =~= chunks.take(j));
    assert(chunks.take(j + 1).last() == chunks[j]);
}

/// Runs one item's whole retry loop against scripted attempt outcomes:
/// attempt `k` meets `scripts[k]`. Ends `Succeeded` or `Abandoned`.
pub fn run_item(budget: u32, scripts: &Vec<AttemptScript>) -> (r: ItemDownload)
    requires
        scripts@.len() >= budget,
    ensures
        ({
            let o = spec_run_item(budget as int, attempt_views(scripts@), 0, Seq::empty());
            &&& r.budget == budget
            &&& r.file@ == o.file
            &&& (r.phase is Succeeded) == o.succeeded
            &&& (r.phase is Succeeded || r.phase is Abandoned)
            &&& r.started == o.attempts
        }),
{
    let ghost views = attempt_views(scripts@);
    let ghost full = spec_run_item(budget as int, views, 0, Seq::empty());
    let mut st = ItemDownload::begin(budget);
    while matches!(st.phase, ItemPhase::Idle)
        invariant
            st.budget == budget,
            views == attempt_views(scripts@),
            scripts@.len() == views.len(),
            scripts@.len() >= budget,
            full == spec_run_item(budget as int, views, 0, Seq::empty()),
            st.started <= budget,
            st.phase is Idle || st.phase is Succeeded || st.phase is Abandoned,
            st.phase is Idle ==> {
                let rest = spec_run_item(budget as int, views, st.started as int, st.file@);
                &&& full.file == rest.file
                &&& full.succeeded == rest.succeeded
                &&& full.attempts == st.started + rest.attempts
            },
            st.phase is Succeeded ==> full.file == st.file@ && full.succeeded && full.attempts
                == st.started,
            st.phase is Abandoned ==> full.file == st.file@ && !full.succeeded && full.attempts
                == st.started,
        decreases budget - st.started + (if st.phase is Idle { 1int } else { 0int }),
    {
        let ghost s0 = st.started as int;
        let ghost prev = st.file@;
        let ghost rest0 = spec_run_item(budget as int, views, s0, prev);
        if st.started == budget {
            st.give_up();
        } else {
            let k: usize = st.started as usize;
            proof {
                assert(views[k as int] == scripts@[k as int]@);
            }
            st.start_attempt();
            match &scripts[k] {
                AttemptScript::ConnectFail => {
                    st.connect_failed();
                    proof {
                        let rest1 = spec_run_item(budget as int, views, s0 + 1, Seq::empty());
                        assert(rest0.file == rest1.file && rest0.succeeded == rest1.succeeded
                            && rest0.attempts == 1 + rest1.attempts);
                    }
                },
                AttemptScript::Stream { chunks, clean } => {
                    let ghost cvs = views[k as int].chunks;
                    proof {
                        assert(cvs == chunk_views(chunks@));
                    }
                    let mut j: usize = 0;
                    proof {
                        assert(concat_chunks(cvs.take(0)) =~= Seq::<u8>::empty());
                    }
                    while j < chunks.len()
                        invariant
                            0 <= j <= chunks@.len(),
                            cvs == chunk_views(chunks@),
                            chunks@.len() == cvs.len(),
                            st.phase is Streaming,
                            st.budget == budget,
                            st.started == s0 + 1,
                            st.file@ == concat_chunks(cvs.take(j as int)),
                        decreases chunks@.len() - j,
                    {
                        st.chunk_received(chunks[j].as_slice());
                        proof {
                            lemma_concat_take_succ(cvs, j as int);
                        }
                        j = j + 1;
                    }
                    proof {
                        assert(cvs.take(cvs.len() as int) =~= cvs);
                        assert(st.file@ == concat_chunks(cvs));
                    }
                    if *clean {
                        st.stream_ended();
                    } else {
                        st.read_error();
                        proof {
                            let rest1 = spec_run_item(
                                budget as int,
                                views,
                                s0 + 1,
                                concat_chunks(cvs),
                            );
                            assert(rest0.file == rest1.file && rest0.succeeded == rest1.succeeded
                                && rest0.attempts == 1 + rest1.attempts);
                        }
                    }
                },
            }
        }
    }
    st
}

/// When a run succeeds, some attempt `w` within the budget connected and
/// streamed to a clean end, every attempt before it failed, and the file
/// holds exactly attempt `w`'s own chunks: nothing written by an earlier,
/// failed attempt survives, and nothing of the file's earlier content
/// (`prev`) does either — each attempt truncates before it writes.
pub proof fn lemma_success_keeps_winning_attempt_only(
    budget: int,
    scripts: Seq<AttemptView>,
    k: int,
    prev: Seq<u8>,
)
    requires
        0 <= k,
        spec_run_item(budget, scripts, k, prev).succeeded,
    ensures
        exists|w: int|
            {
                &&& k <= w < budget
                &&& w < scripts.len()
                &&& (#[trigger] scripts[w]).connect && scripts[w].clean
                &&& (forall|j: int| k <= j < w ==> !(#[trigger] scripts[j]).connect || !scripts[j].clean)
                &&& spec_run_item(budget, scripts, k, prev).file == concat_chunks(scripts[w].chunks)
                &&& spec_run_item(budget, scripts, k, prev).attempts == w - k + 1
            },
    decreases scripts.len() - k,
{
    let a = scripts[k];
    if a.connect && a.clean {
        assert(k < budget && k < scripts.len());
        let w = k;
        assert({
            &&& k <= w < budget
            &&& w < scripts.len()
            &&& scripts[w].connect && scripts[w].clean
            &&& (forall|j: int| k <= j < w ==> !scripts[j].connect || !scripts[j].clean)
            &&& spec_run_item(budget, scripts, k, prev).file == concat_chunks(scripts[w].chunks)
            &&& spec_run_item(budget, scripts, k, prev).attempts == w - k + 1
        });
    } else {
        let next_prev: Seq<u8> = if !a.connect {
            Seq::empty()
        } else {
            concat_chunks(a.chunks)
        };
        lemma_success_keeps_winning_attempt_only(budget, scripts, k + 1, next_prev);
        let w0 = choose|w: int|
            {
                &&& k + 1 <= w < budget
                &&& w < scripts.len()
                &&& (#[trigger] scripts[w]).connect && scripts[w].clean
                &&& (forall|j: int|
                    k + 1 <= j < w ==> !(#[trigger] scripts[j]).connect || !scripts[j].clean)
                &&& spec_run_item(budget, scripts, k + 1, next_prev).file == concat_chunks(
                    scripts[w].chunks,
                )
                &&& spec_run_item(budget, scripts, k + 1, next_prev).attempts == w - (k + 1) + 1
            };
        assert({
            &&& k <= w0 < budget
            &&& w0 < scripts.len()
            &&& scripts[w0].connect && scripts[w0].clean
            &&& (forall|j: int| k <= j < w0 ==> !scripts[j].connect || !scripts[j].clean)
            &&& spec_run_item(budget, scripts, k, prev).file == concat_chunks(scripts[w0].chunks)
            &&& spec_run_item(budget, scripts, k, prev).attempts == w0 - k + 1
        });
    }
}

/// Drains a queue of items in arrival order, one download per item, and
/// accounts for each: `items_done` grows by exactly one per item received,
/// whether its download succeeded or was abandoned — a single item's
/// permanent failure never ends the drain.
pub fn process_items(
    items: &Vec<ImageItem>,
    scripts: &Vec<Vec<AttemptScript>>,
    budget: u32,
    progress: &mut Progress,
) -> (r: Vec<ItemDownload>)
    requires
        scripts@.len() == items@.len(),
        forall|i: int| 0 <= i < scripts@.len() ==> (#[trigger] scripts@[i])@.len() >= budget,
        old(progress).items_done + items@.len() <= old(progress).items_total,
    ensures
        final(progress).items_done == old(progress).items_done + items@.len(),
        final(progress).items_total == old(progress).items_total,
        final(progress).bytes_done == old(progress).bytes_done,
        r@.len() == items@.len(),
        forall|i: int|
            0 <= i < r@.len() ==> {
                let o = spec_run_item(budget as int, attempt_views(scripts@[i]@), 0, Seq::empty());
                &&& (#[trigger] r@[i]).file@ == o.file
                &&& (r@[i].phase is Succeeded) == o.succeeded
                &&& (r@[i].phase is Succeeded || r@[i].phase is Abandoned)
                &&& r@[i].started == o.attempts
            },
{
    let mut outcomes: Vec<ItemDownload> = Vec::new();
    let mut i: usize = 0;
    while i < items.len()
        invariant
            0 <= i <= items@.len(),
            scripts@.len() == items@.len(),
            forall|j: int| 0 <= j < scripts@.len() ==> (#[trigger] scripts@[j])@.len() >= budget,
            old(progress).items_done + items@.len() <= old(progress).items_total,
            progress.items_done == old(progress).items_done + i,
            progress.items_total == old(progress).items_total,
            progress.bytes_done == old(progress).bytes_done,
            outcomes@.len() == i,
            forall|j: int|
                0 <= j < i ==> {
                    let o = spec_run_item(
                        budget as int,
                        attempt_views(scripts@[j]@),
                        0,
                        Seq::empty(),
                    );
                    &&& (#[trigger] outcomes@[j]).file@ == o.file
                    &&& (outcomes@[j].phase is Succeeded) == o.succeeded
                    &&& (outcomes@[j].phase is Succeeded || outcomes@[j].phase is Abandoned)
                    &&& outcomes@[j].started == o.attempts
                },
        decreases items@.len() - i,
    {
        let st = run_item(budget, &scripts[i]);
        outcomes.push(st);
        progress.note_item_done();
        i = i + 1;
    }
    outcomes
}

} // verus!
