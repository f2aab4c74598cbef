//! The aggregator: drives every registered source for one request, in
//! registration order, and forwards each produced record into the streaming
//! sink. A failing source contributes zero records and never aborts the run;
//! a detached consumer stops the run promptly and gracefully.

use vstd::prelude::*;
use crate::model::{Book, book_namespaced};
use crate::source::{DataSource, SourceError, outcome_matches};
use crate::sink::{BookSink, PushOutcome};

verus! {

/// The records one source contributes: its full response on success, nothing
/// on failure.
pub open spec fn ok_records<S: DataSource>(source: S, keyword: Seq<char>) -> Seq<Book> {
    match source.results(keyword) {
        Ok(books) => books,
        Err(_) => Seq::empty(),
    }
}

/// The whole output of one request: every source's contribution, concatenated
/// in registration order.
pub open spec fn merged<S: DataSource>(sources: Seq<S>, keyword: Seq<char>) -> Seq<Book>
    decreases sources.len(),
{
    if sources.len() == 0 {
        Seq::empty()
    } else {
        merged(sources.drop_last(), keyword) + ok_records(sources.last(), keyword)
    }
}

/// Extending the driven prefix by one source appends exactly that source's
/// contribution.
pub proof fn lemma_merged_take_step<S: DataSource>(sources: Seq<S>, keyword: Seq<char>, i: int)
    requires
        0 <= i < sources.len(),
    ensures
        merged(sources.take(i + 1), keyword) == merged(sources.take(i), keyword) + ok_records(
            sources[i],
            keyword,
        ),
{
    assert(sources.take(i + 1).drop_last() =~= sources.take(i));
    assert(sources.take(i + 1).last() == sources[i]);
}

/// The merged stream decomposes at the front as well.
pub proof fn lemma_merged_drop_first<S: DataSource>(sources: Seq<S>, keyword: Seq<char>)
    requires
        sources.len() > 0,
    ensures
        merged(sources, keyword) == ok_records(sources[0], keyword) + merged(
            sources.drop_first(),
            keyword,
        ),
    decreases sources.len(),
{
    if sources.len() == 1 {
        assert(sources.drop_last() =~= Seq::<S>::empty());
        assert(sources.drop_first() =~= Seq::<S>::empty());
        assert(merged(sources, keyword) =~= ok_records(sources[0], keyword) + merged(
            sources.drop_first(),
            keyword,
        ));
    } else {
        let pre = sources.drop_last();
        lemma_merged_drop_first(pre, keyword);
        assert(pre.drop_first() =~= sources.drop_first().drop_last());
        assert(sources.drop_first().last() == sources.last());
        assert(merged(sources, keyword) =~= ok_records(sources[0], keyword) + merged(
            sources.drop_first(),
            keyword,
        ));
    }
}

/// The merged stream splits around any registration position.
pub proof fn lemma_merged_split<S: DataSource>(sources: Seq<S>, keyword: Seq<char>, i: int)
    requires
        0 <= i <= sources.len(),
    ensures
        merged(sources, keyword) == merged(sources.take(i), keyword) + merged(
            sources.skip(i),
            keyword,
        ),
    decreases sources.len() - i,
{
    if i == sources.len() {
        assert(sources.take(i) =~= sources);
        assert(sources.skip(i) =~= Seq::<S>::empty());
        assert(merged(sources, keyword) =~= merged(sources.take(i), keyword) + merged(
            sources.skip(i),
            keyword,
        ));
    } else {
        lemma_merged_split(sources, keyword, i + 1);
        lemma_merged_take_step(sources, keyword, i);
        lemma_merged_drop_first(sources.skip(i), keyword);
        assert(sources.skip(i)[0] == sources[i]);
        assert(sources.skip(i).drop_first() =~= sources.skip(i + 1));
        assert(merged(sources, keyword) =~= merged(sources.take(i), keyword) + merged(
            sources.skip(i),
            keyword,
        ));
    }
}

/// The per-request state of one aggregation run.
pub struct AggRun {
    /// Records of the last driven source not yet forwarded, oldest first.
    pub queued: Vec<Book>,
    /// How many registered sources have been driven.
    pub next: usize,
    /// The run is over: completed or cancelled.
    pub finished: bool,
    /// The consumer detached before the run completed.
    pub cancelled: bool,
}

/// What an aggregation run asks its driver to do next.
#[derive(Debug, Clone, Copy, PartialEq, Eq, Structural)]
pub enum Plan {
    /// Drive the search of the source at this registration position.
    CallSource(usize),
    /// Forward the oldest queued record to the sink.
    PushRecord,
    /// Every source was attempted and every record forwarded: close the sink.
    CloseSink,
    /// The run is over.
    Finished,
}

impl AggRun {
    /// A fresh run: no source driven, nothing queued.
    pub fn new() -> (r: AggRun)
        ensures
            r.queued@ == Seq::<Book>::empty(),
            r.next == 0,
            !r.finished,
            !r.cancelled,
    {
        AggRun { queued: Vec::new(), next: 0, finished: false, cancelled: false }
    }

    /// The next action of a run over `total_sources` registered sources.
    pub fn plan(&self, total_sources: usize) -> (p: Plan)
        ensures
            p == (if self.finished {
                Plan::Finished
            } else if self.queued@.len() > 0 {
                Plan::PushRecord
            } else if self.next < total_sources {
                Plan::CallSource(self.next)
            } else {
                Plan::CloseSink
            }),
    {
        if self.finished {
            Plan::Finished
        } else if self.queued.len() > 0 {
            Plan::PushRecord
        } else if self.next < total_sources {
            Plan::CallSource(self.next)
        } else {
            Plan::CloseSink
        }
    }

    /// How many records wait to be forwarded.
    pub fn pending_count(&self) -> (n: usize)
        ensures
            n == self.queued@.len(),
    {
        self.queued.len()
    }

    /// The oldest queued record, to be forwarded next.
    pub fn front_record(&self) -> (b: Book)
        requires
            self.queued@.len() > 0,
        ensures
            b == self.queued@[0],
    {
        self.queued[0].duplicate()
    }

    /// The oldest queued record was accepted by the sink.
    pub fn record_pushed(&mut self)
        requires
            old(self).queued@.len() > 0,
        ensures
            final(self).queued@ == old(self).queued@.drop_first(),
            final(self).next == old(self).next,
            final(self).finished == old(self).finished,
            final(self).cancelled == old(self).cancelled,
    {
        self.queued.remove(0);
        proof {
            assert(self.queued@ =~= old(self).queued@.drop_first());
        }
    }

    /// One source's outcome arrived: queue its records (a failure contributes
    /// nothing) and move to the next registration position.
    pub fn source_done(&mut self, outcome: Result<Vec<Book>, SourceError>)
        requires
            old(self).queued@.len() == 0,
            old(self).next < usize::MAX,
        ensures
            final(self).next == old(self).next + 1,
            final(self).finished == old(self).finished,
            final(self).cancelled == old(self).cancelled,
            final(self).queued@ == (match outcome {
                Ok(v) => v@,
                Err(_) => Seq::<Book>::empty(),
            }),
    {
        self.next = self.next + 1;
        match outcome {
            Ok(v) => {
                self.queued = v;
            },
            Err(_) => {},
        }
    }

    /// The consumer detached: the run stops without further source calls.
    pub fn cancel(&mut self)
        ensures
            final(self).finished,
            final(self).cancelled,
            final(self).next == old(self).next,
            final(self).queued@ == old(self).queued@,
    {
        self.finished = true;
        self.cancelled = true;
    }

    /// Every source was attempted and the sink closed: the run completed.
    pub fn complete(&mut self)
        ensures
            final(self).finished,
            final(self).cancelled == old(self).cancelled,
            final(self).next == old(self).next,
            final(self).queued@ == old(self).queued@,
    {
        self.finished = true;
    }

    /// Whether the run is over.
    pub fn is_finished(&self) -> (r: bool)
        ensures
            r == self.finished,
    {
        self.finished
    }

    /// Whether the run was cancelled by the consumer.
    pub fn was_cancelled(&self) -> (r: bool)
        ensures
            r == self.cancelled,
    {
        self.cancelled
    }
}

/// The invariant tying an in-flight run to its sink: what the sink accepted,
/// followed by what is still queued, is exactly the merged contribution of
/// the sources driven so far.
pub open spec fn run_inv<S: DataSource>(
    agg: Aggregator<S>,
    run: AggRun,
    keyword: Seq<char>,
    sink: BookSink,
) -> bool {
    &&& agg.wf()
    &&& sink.wf()
    &&& keyword.len() > 0
    &&& run.next <= agg.sources@.len()
    &&& (!run.finished ==> !sink.is_closed())
    &&& (!run.cancelled ==> sink.log() + run.queued@ == merged(
        agg.sources@.take(run.next as int),
        keyword,
    ))
    &&& ((run.finished && !run.cancelled) ==> (run.next == agg.sources@.len()
        && run.queued@.len() == 0 && sink.is_closed()))
    &&& (run.cancelled ==> run.finished)
}

/// What one aggregation step did.
#[derive(Debug, Clone, Copy, PartialEq, Eq, Structural)]
pub enum StepEvent {
    /// A record was forwarded into the sink.
    Pushed,
    /// The sink is at capacity; the consumer must drain it first.
    WouldBlock,
    /// The consumer detached; the run stopped without further source calls.
    Cancelled,
    /// A source was driven; `true` when it succeeded.
    SourceDriven(bool),
    /// All sources were attempted and the sink was closed.
    Completed,
    /// The run had already finished.
    Idle,
}

/// The fan-out driver: the ordered collection of registered sources, shared
/// by every request; it holds no per-request state.
pub struct Aggregator<S: DataSource> {
    /// The registered sources, in registration order.
    pub sources: Vec<S>,
}

impl<S: DataSource> Aggregator<S> {
    /// Every registered source is valid.
    pub open spec fn wf(&self) -> bool {
        forall|i: int| 0 <= i < self.sources@.len() ==> (#[trigger] self.sources@[i]).wf()
    }

    /// The model of one whole request: every source's contribution, in
    /// registration order.
    pub open spec fn merged_output(&self, keyword: Seq<char>) -> Seq<Book> {
        merged(self.sources@, keyword)
    }

    /// Registers the given sources, in order, once at startup.
    pub fn new(sources: Vec<S>) -> (a: Aggregator<S>)
        requires
            forall|i: int| 0 <= i < sources@.len() ==> (#[trigger] sources@[i]).wf(),
        ensures
            a.wf(),
            a.sources@ == sources@,
    {
        Aggregator { sources }
    }

    /// How many sources are registered.
    pub fn source_count(&self) -> (n: usize)
        ensures
            n == self.sources@.len(),
    {
        self.sources.len()
    }

    /// The entrypoint's per-request setup: validates the keyword and returns
    /// a fresh run with its sink. An empty keyword is rejected before any
    /// aggregation begins.
    pub fn begin(&self, keyword: &str, capacity: usize) -> (r: Option<(AggRun, BookSink)>)
        requires
            self.wf(),
            capacity >= 1,
        ensures
            r is Some <==> keyword@.len() > 0,
            r matches Some(pair) ==> {
                &&& run_inv(*self, pair.0, keyword@, pair.1)
                &&& !pair.0.finished
                &&& pair.0.next == 0
                &&& pair.1.cap() == capacity
                &&& pair.1.log() == Seq::<Book>::empty()
                &&& pair.1.consumed() == Seq::<Book>::empty()
                &&& !pair.1.is_detached()
            },
    {
        if keyword.is_empty() {
            None
        } else {
            let run = AggRun::new();
            let sink = BookSink::new(capacity);
            proof {
                assert(self.sources@.take(0) =~= Seq::<S>::empty());
                assert(sink.log() + run.queued@ =~= merged(self.sources@.take(0), keyword@));
            }
            Some((run, sink))
        }
    }

    /// One step of an aggregation run: detect cancellation, else forward a
    /// queued record, else drive the next source, else close the sink.
    pub fn step(&self, run: &mut AggRun, keyword: &str, sink: &mut BookSink) -> (ev: StepEvent)
        requires
            run_inv(*self, *old(run), keyword@, *old(sink)),
        ensures
            run_inv(*self, *final(run), keyword@, *final(sink)),
            final(sink).cap() == old(sink).cap(),
            final(sink).consumed() == old(sink).consumed(),
            final(sink).is_detached() == old(sink).is_detached(),
            old(run).finished ==> (ev is Idle && *final(run) == *old(run) && *final(sink) == *old(
                sink,
            )),
            (!old(run).finished && old(sink).is_detached()) ==> (ev is Cancelled
                && final(run).finished && final(run).cancelled && final(run).next == old(run).next
                && *final(sink) == *old(sink)),
            ev is Completed ==> (final(run).finished && !final(run).cancelled
                && final(sink).is_closed() && final(sink).log() == self.merged_output(keyword@)),
            (final(run).cancelled && !old(run).cancelled) ==> old(sink).is_detached(),
            ev is WouldBlock ==> (*final(run) == *old(run) && *final(sink) == *old(sink)),
            ev is Pushed ==> (final(run).next == old(run).next && final(run).queued@.len() < old(
                run,
            ).queued@.len()),
            ev matches StepEvent::SourceDriven(_) ==> final(run).next == old(run).next + 1,
            ev is Idle ==> final(run).finished,
            ev is Cancelled ==> final(run).finished,
            ev is WouldBlock ==> final(sink).queued().len() == final(sink).cap(),
            (!old(run).finished && !old(sink).is_detached()) ==> {
                &&& (old(run).queued@.len() > 0 && old(sink).queued().len() < old(sink).cap()
                    ==> ev is Pushed)
                &&& (old(run).queued@.len() > 0 && old(sink).queued().len() == old(sink).cap()
                    ==> ev is WouldBlock)
                &&& (old(run).queued@.len() == 0 && old(run).next < self.sources@.len()
                    ==> ev matches StepEvent::SourceDriven(_))
                &&& (old(run).queued@.len() == 0 && old(run).next == self.sources@.len()
                    ==> ev is Completed)
            },
    {
        if run.is_finished() {
            return StepEvent::Idle;
        }
        if sink.consumer_detached() {
            run.cancel();
            return StepEvent::Cancelled;
        }
        if run.pending_count() > 0 {
            let b = run.front_record();
            match sink.push(b) {
                PushOutcome::Accepted => {
                    run.record_pushed();
                    proof {
                        assert(sink.log() + run.queued@ =~= old(sink).log() + old(run).queued@);
                    }
                    StepEvent::Pushed
                },
                PushOutcome::Full => StepEvent::WouldBlock,
                PushOutcome::Closed => {
                    // Unreachable: the consumer was attached when the push began.
                    proof {
                        assert(false);
                    }
                    StepEvent::WouldBlock
                },
            }
        } else if run.next < self.sources.len() {
            let outcome = self.sources[run.next].search(keyword);
            proof {
                lemma_merged_take_step(self.sources@, keyword@, run.next as int);
            }
            let ok = outcome.is_ok();
            run.source_done(outcome);
            proof {
                assert(sink.log() + run.queued@ =~= merged(
                    self.sources@.take(run.next as int),
                    keyword@,
                ));
            }
            StepEvent::SourceDriven(ok)
        } else {
            sink.close();
            run.complete();
            proof {
                assert(self.sources@.take(run.next as int) =~= self.sources@);
                assert(sink.log() =~= sink.log() + run.queued@);
            }
            StepEvent::Completed
        }
    }

    /// Steps a run until it finishes or the sink is at capacity. When the run
    /// completes, the sink is closed over exactly the merged output.
    pub fn drive(&self, run: &mut AggRun, keyword: &str, sink: &mut BookSink) -> (ev: StepEvent)
        requires
            run_inv(*self, *old(run), keyword@, *old(sink)),
        ensures
            run_inv(*self, *final(run), keyword@, *final(sink)),
            final(sink).cap() == old(sink).cap(),
            final(sink).consumed() == old(sink).consumed(),
            final(sink).is_detached() == old(sink).is_detached(),
            ev is WouldBlock || final(run).finished,
            ev is Completed ==> (final(sink).is_closed() && final(sink).log()
                == self.merged_output(keyword@)),
            ev is WouldBlock ==> final(sink).queued().len() == final(sink).cap(),
            (final(run).cancelled && !old(run).cancelled) ==> old(sink).is_detached(),
    {
        loop
            invariant
                run_inv(*self, *run, keyword@, *sink),
                sink.cap() == old(sink).cap(),
                sink.consumed() == old(sink).consumed(),
                sink.is_detached() == old(sink).is_detached(),
                (run.cancelled && !old(run).cancelled) ==> old(sink).is_detached(),
            decreases self.sources@.len() - run.next, run.queued@.len(),
        {
            let ev = self.step(run, keyword, sink);
            match ev {
                StepEvent::Pushed => {},
                StepEvent::SourceDriven(_) => {},
                _ => {
                    return ev;
                },
            }
        }
    }
}

/// A run that finished without being cancelled left a normally closed sink
/// holding exactly the merged output: the stream-level reading of a
/// completed request.
pub proof fn lemma_finished_run_stream<S: DataSource>(
    agg: Aggregator<S>,
    run: AggRun,
    keyword: Seq<char>,
    sink: BookSink,
)
    requires
        run_inv(agg, run, keyword, sink),
        run.finished,
        !run.cancelled,
    ensures
        sink.is_closed(),
        sink.log() == merged(agg.sources@, keyword),
{
    assert(agg.sources@.take(agg.sources@.len() as int) =~= agg.sources@);
    assert(sink.log() =~= sink.log() + run.queued@);
}

/// If every registered source fails, the merged output is empty: the stream
/// closes with zero records and no error.
pub proof fn lemma_all_sources_failed<S: DataSource>(sources: Seq<S>, keyword: Seq<char>)
    requires
        forall|i: int| 0 <= i < sources.len() ==> (#[trigger] sources[i].results(keyword)) is Err,
    ensures
        merged(sources, keyword) == Seq::<Book>::empty(),
    decreases sources.len(),
{
    if sources.len() > 0 {
        let pre = sources.drop_last();
        assert forall|i: int| 0 <= i < pre.len() implies (#[trigger] pre[i].results(
            keyword,
        )) is Err by {
            assert(pre[i] == sources[i]);
        }
        lemma_all_sources_failed(pre, keyword);
        assert(merged(sources, keyword) =~= Seq::<Book>::empty());
    } else {
        assert(merged(sources, keyword) =~= Seq::<Book>::empty());
    }
}

/// Failure isolation: when the first-registered source fails and the second
/// succeeds, the merged output is exactly the second source's records, in its
/// reported order, with nothing attributable to the first.
pub proof fn lemma_failure_isolated<S: DataSource>(
    first: S,
    second: S,
    keyword: Seq<char>,
    books: Seq<Book>,
)
    requires
        first.results(keyword) is Err,
        second.results(keyword) == Ok::<Seq<Book>, SourceError>(books),
    ensures
        merged(seq![first, second], keyword) == books,
{
    let s = seq![first, second];
    assert(s.drop_last() =~= seq![first]);
    assert(seq![first].drop_last() =~= Seq::<S>::empty());
    assert(ok_records(first, keyword) =~= Seq::<Book>::empty());
    assert(merged(Seq::<S>::empty(), keyword) =~= Seq::<Book>::empty());
    assert(merged(seq![first], keyword) =~= Seq::<Book>::empty());
    assert(s.last() == second);
    assert(ok_records(second, keyword) == books);
    assert(merged(s, keyword) =~= books);
}

/// Where source `i`'s segment starts in the merged stream.
pub open spec fn segment_start<S: DataSource>(sources: Seq<S>, keyword: Seq<char>, i: int) -> int {
    merged(sources.take(i), keyword).len() as int
}

/// Segment starts never decrease along registration order.
pub proof fn lemma_segment_start_mono<S: DataSource>(
    sources: Seq<S>,
    keyword: Seq<char>,
    a: int,
    b: int,
)
    requires
        0 <= a <= b <= sources.len(),
    ensures
        segment_start(sources, keyword, a) <= segment_start(sources, keyword, b),
    decreases b - a,
{
    if a < b {
        lemma_merged_take_step(sources, keyword, a);
        lemma_segment_start_mono(sources, keyword, a + 1, b);
    }
}

/// Each source's records stand as one contiguous segment of the merged
/// stream, beginning at its segment start, in the source's reported order.
pub proof fn lemma_source_segment<S: DataSource>(sources: Seq<S>, keyword: Seq<char>, i: int)
    requires
        0 <= i < sources.len(),
    ensures
        segment_start(sources, keyword, i) + ok_records(sources[i], keyword).len() <= merged(
            sources,
            keyword,
        ).len(),
        forall|k: int| 0 <= k < ok_records(sources[i], keyword).len() ==> merged(sources, keyword)[
            segment_start(sources, keyword, i) + k
        ] == ok_records(sources[i], keyword)[k],
{
    lemma_merged_split(sources, keyword, i);
    lemma_merged_drop_first(sources.skip(i), keyword);
    assert(sources.skip(i)[0] == sources[i]);
    assert forall|k: int| 0 <= k < ok_records(sources[i], keyword).len() implies merged(
        sources,
        keyword,
    )[segment_start(sources, keyword, i) + k] == ok_records(sources[i], keyword)[k] by {
        assert(merged(sources, keyword)[segment_start(sources, keyword, i) + k] == merged(
            sources.skip(i),
            keyword,
        )[k]);
    }
}

/// Registration order: for two sources registered at positions `i < j`, the
/// whole of source `i`'s segment stands before the whole of source `j`'s in
/// the merged stream of one request.
pub proof fn lemma_registration_order<S: DataSource>(
    sources: Seq<S>,
    keyword: Seq<char>,
    i: int,
    j: int,
)
    requires
        0 <= i < j < sources.len(),
    ensures
        segment_start(sources, keyword, i) + ok_records(sources[i], keyword).len()
            <= segment_start(sources, keyword, j),
{
    lemma_merged_take_step(sources, keyword, i);
    lemma_segment_start_mono(sources, keyword, i + 1, j);
}

/// Every record of the merged stream is namespaced by a registered source's
/// identifier.
pub proof fn lemma_all_records_namespaced<S: DataSource>(sources: Seq<S>, keyword: Seq<char>)
    requires
        keyword.len() > 0,
        forall|i: int| 0 <= i < sources.len() ==> (#[trigger] sources[i]).wf(),
    ensures
        forall|k: int| 0 <= k < merged(sources, keyword).len() ==> exists|i: int|
            0 <= i < sources.len() && book_namespaced(
                #[trigger] merged(sources, keyword)[k],
                sources[i].source_id(),
            ),
    decreases sources.len(),
{
    if sources.len() > 0 {
        let pre = sources.drop_last();
        assert forall|i: int| 0 <= i < pre.len() implies (#[trigger] pre[i]).wf() by {
            assert(pre[i] == sources[i]);
        }
        lemma_all_records_namespaced(pre, keyword);
        sources.last().results_namespaced(keyword);
        let m = merged(sources, keyword);
        let mp = merged(pre, keyword);
        assert forall|k: int| 0 <= k < m.len() implies exists|i: int|
            0 <= i < sources.len() && book_namespaced(#[trigger] m[k], sources[i].source_id()) by {
            if k < mp.len() {
                assert(m[k] == mp[k]);
                let i0 = choose|i0: int|
                    0 <= i0 < pre.len() && book_namespaced(mp[k], pre[i0].source_id());
                assert(pre[i0] == sources[i0]);
                assert(book_namespaced(m[k], sources[i0].source_id()));
            } else {
                let tail = ok_records(sources.last(), keyword);
                assert(m[k] == tail[k - mp.len()]);
                assert(sources.last().results(keyword) is Ok);
                assert(book_namespaced(m[k], sources[sources.len() - 1].source_id()));
            }
        }
    }
}

} // verus!
