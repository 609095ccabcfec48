//! Throttled transfer-progress accounting: a running byte total that is
//! reported at most once per byte threshold or timer interval, plus one
//! unconditional final report when the stream is exhausted.

use vstd::prelude::*;

verus! {

/// Emit a progress event after at least this many new bytes since the last
/// emission.
pub const EMIT_BYTE_THRESHOLD: u64 = 128 * 1024;

/// Emit a progress event after at least this many milliseconds since the
/// last emission.
pub const EMIT_INTERVAL_MILLIS: u64 = 250;

/// Size of the buffer the byte-copy loops move data with.
pub const COPY_BUFFER_BYTES: usize = 16 * 1024;

/// One progress event, keyed by the caller-supplied transfer id; `total` is
/// absent when the server did not report a size.
pub struct TransferProgress {
    pub id: String,
    pub transferred: u64,
    pub total: Option<u64>,
}

/// The running state of one observed transfer.
pub struct ProgressTracker {
    /// Bytes moved so far.
    pub transferred: u64,
    /// Running total at the previous emission.
    pub last_emit: u64,
}

impl ProgressTracker {
    pub open spec fn wf(&self) -> bool {
        self.last_emit <= self.transferred
    }

    /// Whether accounting `n` more bytes is due an emission: something moved,
    /// and either the byte threshold was reached or the timer interval
    /// elapsed.
    pub open spec fn should_emit(&self, n: u64, interval_elapsed: bool) -> bool {
        n > 0 && (self.transferred + n - self.last_emit >= EMIT_BYTE_THRESHOLD || interval_elapsed)
    }

    pub fn new() -> (t: Self)
        ensures
            t.transferred == 0,
            t.last_emit == 0,
    {
        ProgressTracker { transferred: 0, last_emit: 0 }
    }

    /// Account `n` newly moved bytes and decide whether to emit now.
    pub fn record(&mut self, n: u64, interval_elapsed: bool) -> (emit: bool)
        requires
            old(self).wf(),
            old(self).transferred + n <= u64::MAX,
        ensures
            final(self).transferred == old(self).transferred + n,
            emit == old(self).should_emit(n, interval_elapsed),
            final(self).last_emit == if emit {
                final(self).transferred
            } else {
                old(self).last_emit
            },
            final(self).wf(),
    {
        self.transferred = self.transferred + n;
        if n > 0 && (self.transferred - self.last_emit >= EMIT_BYTE_THRESHOLD
            || interval_elapsed) {
            self.last_emit = self.transferred;
            true
        } else {
            false
        }
    }

    /// The progress event for the current running total.
    pub fn event(&self, id: &str, total: Option<u64>) -> (e: TransferProgress)
        ensures
            e.id@ == id@,
            e.transferred == self.transferred,
            e.total == total,
    {
        TransferProgress { id: id.to_owned(), transferred: self.transferred, total }
    }
}

/// The one terminal event of a transfer, keyed by the transfer id.
pub enum TransferOutcome {
    Success { id: String },
    Failure { id: String, message: String },
}

/// The terminal event for a finished transfer: exactly one per transfer,
/// success for `Ok` and failure carrying the message for `Err`.
pub fn outcome_event(id: &str, result: Result<(), String>) -> (e: TransferOutcome)
    ensures
        match result {
            Ok(_) => e matches TransferOutcome::Success { id: i } && i@ == id@,
            Err(m) => (e matches TransferOutcome::Failure { id: i, message } && i@ == id@
                && message@ == m@),
        },
{
    match result {
        Ok(_) => TransferOutcome::Success { id: id.to_owned() },
        Err(message) => TransferOutcome::Failure { id: id.to_owned(), message },
    }
}

/// The sum of a sequence of chunk sizes.
pub open spec fn sum_of(chunks: Seq<u64>) -> int
    decreases chunks.len(),
{
    if chunks.len() == 0 {
        0
    } else {
        sum_of(chunks.drop_last()) + chunks.last()
    }
}

pub proof fn lemma_sum_of_nonneg(chunks: Seq<u64>)
    ensures
        sum_of(chunks) >= 0,
    decreases chunks.len(),
{
    if chunks.len() > 0 {
        lemma_sum_of_nonneg(chunks.drop_last());
    }
}

pub proof fn lemma_sum_of_drop_first(chunks: Seq<u64>)
    requires
        chunks.len() > 0,
    ensures
        sum_of(chunks) == chunks[0] + sum_of(chunks.skip(1)),
    decreases chunks.len(),
{
    if chunks.len() == 1 {
        assert(chunks.skip(1) =~= Seq::<u64>::empty());
        assert(chunks.drop_last() =~= Seq::<u64>::empty());
    } else {
        lemma_sum_of_drop_first(chunks.drop_last());
        assert(chunks.skip(1).drop_last() =~= chunks.drop_last().skip(1));
        assert(chunks.drop_last()[0] == chunks[0]);
    }
}

/// A prefix never sums to more than the whole.
pub proof fn lemma_sum_of_prefix(chunks: Seq<u64>, j: int)
    requires
        0 <= j <= chunks.len(),
    ensures
        sum_of(chunks.take(j)) <= sum_of(chunks),
    decreases chunks.len() - j,
{
    if j == chunks.len() {
        assert(chunks.take(j) =~= chunks);
    } else {
        lemma_sum_of_prefix(chunks, j + 1);
        assert(chunks.take(j + 1).drop_last() =~= chunks.take(j));
        assert(chunks.take(j + 1).last() == chunks[j]);
    }
}

/// The running totals at which a transfer moving the given chunks emits
/// progress, with the byte threshold as the only trigger, starting from the
/// given running total and last-emission point.
pub open spec fn emit_trace(chunks: Seq<u64>, transferred: int, last_emit: int) -> Seq<int>
    decreases chunks.len(),
{
    if chunks.len() == 0 {
        Seq::empty()
    } else {
        let t2 = transferred + chunks[0];
        if chunks[0] > 0 && t2 - last_emit >= EMIT_BYTE_THRESHOLD {
            seq![t2] + emit_trace(chunks.skip(1), t2, t2)
        } else {
            emit_trace(chunks.skip(1), t2, last_emit)
        }
    }
}

/// Progress is monotone: the emitted running totals strictly increase, and
/// each lies above the starting total and within the grand total.
pub proof fn lemma_emit_trace_monotone(chunks: Seq<u64>, transferred: int, last_emit: int)
    ensures
        forall|i: int, j: int|
            0 <= i < j < emit_trace(chunks, transferred, last_emit).len() ==> #[trigger] emit_trace(
                chunks,
                transferred,
                last_emit,
            )[i] < #[trigger] emit_trace(chunks, transferred, last_emit)[j],
        forall|i: int|
            0 <= i < emit_trace(chunks, transferred, last_emit).len() ==> transferred < #[trigger] emit_trace(
                chunks,
                transferred,
                last_emit,
            )[i] <= transferred + sum_of(chunks),
    decreases chunks.len(),
{
    if chunks.len() > 0 {
        let t2 = transferred + chunks[0];
        let trace = emit_trace(chunks, transferred, last_emit);
        lemma_sum_of_drop_first(chunks);
        lemma_sum_of_nonneg(chunks.skip(1));
        if chunks[0] > 0 && t2 - last_emit >= EMIT_BYTE_THRESHOLD {
            lemma_emit_trace_monotone(chunks.skip(1), t2, t2);
            let rest = emit_trace(chunks.skip(1), t2, t2);
            assert(trace == seq![t2] + rest);
            assert(trace[0] == t2);
            assert forall|i: int|
                0 <= i < trace.len() implies transferred < #[trigger] trace[i] <= transferred
                + sum_of(chunks) by {
                if i > 0 {
                    assert(trace[i] == rest[i - 1]);
                }
            }
            assert forall|i: int, j: int|
                0 <= i < j < trace.len() implies #[trigger] trace[i] < #[trigger] trace[j] by {
                assert(trace[j] == rest[j - 1]);
                if i > 0 {
                    assert(trace[i] == rest[i - 1]);
                }
            }
        } else {
            lemma_emit_trace_monotone(chunks.skip(1), t2, last_emit);
            let rest = emit_trace(chunks.skip(1), t2, last_emit);
            assert(trace == rest);
            assert forall|i: int|
                0 <= i < trace.len() implies transferred < #[trigger] trace[i] <= transferred
                + sum_of(chunks) by {
                assert(trace[i] == rest[i]);
            }
            assert forall|i: int, j: int|
                0 <= i < j < trace.len() implies #[trigger] trace[i] < #[trigger] trace[j] by {
                assert(trace[i] == rest[i] && trace[j] == rest[j]);
            }
        }
    }
}

/// The byte-threshold cadence in general: starting from a state that owes no
/// emission, successive emitted totals are at least the threshold apart — at
/// most one report per threshold's worth of bytes — and a full threshold's
/// worth of moved bytes is never left unreported at the end.
pub proof fn lemma_emit_trace_threshold(chunks: Seq<u64>, transferred: int, last_emit: int)
    requires
        0 <= last_emit <= transferred,
        transferred - last_emit < EMIT_BYTE_THRESHOLD,
    ensures
        ({
            let trace = emit_trace(chunks, transferred, last_emit);
            &&& trace.len() > 0 ==> trace[0] - last_emit >= EMIT_BYTE_THRESHOLD
            &&& forall|i: int|
                0 <= i < trace.len() - 1 ==> #[trigger] trace[i + 1] - trace[i]
                    >= EMIT_BYTE_THRESHOLD
            &&& trace.len() == 0 ==> transferred + sum_of(chunks) - last_emit
                < EMIT_BYTE_THRESHOLD
            &&& trace.len() > 0 ==> transferred + sum_of(chunks) - trace.last()
                < EMIT_BYTE_THRESHOLD
        }),
    decreases chunks.len(),
{
    if chunks.len() > 0 {
        let t2 = transferred + chunks[0];
        let trace = emit_trace(chunks, transferred, last_emit);
        lemma_sum_of_drop_first(chunks);
        if chunks[0] > 0 && t2 - last_emit >= EMIT_BYTE_THRESHOLD {
            lemma_emit_trace_threshold(chunks.skip(1), t2, t2);
            let rest = emit_trace(chunks.skip(1), t2, t2);
            assert(trace == seq![t2] + rest);
            assert(trace[0] == t2);
            assert forall|i: int|
                0 <= i < trace.len() - 1 implies #[trigger] trace[i + 1] - trace[i]
                >= EMIT_BYTE_THRESHOLD by {
                assert(trace[i + 1] == rest[i]);
                if i == 0 {
                    assert(rest[0] - t2 >= EMIT_BYTE_THRESHOLD);
                } else {
                    assert(trace[i] == rest[i - 1]);
                    assert(rest[(i - 1) + 1] - rest[i - 1] >= EMIT_BYTE_THRESHOLD);
                }
            }
            if rest.len() > 0 {
                assert(trace.last() == rest.last());
            }
        } else {
            lemma_emit_trace_threshold(chunks.skip(1), t2, last_emit);
        }
    }
}

/// The running totals of a sequence of events.
pub open spec fn event_totals(events: Seq<TransferProgress>) -> Seq<int> {
    events.map_values(|e: TransferProgress| e.transferred as int)
}

/// Run a whole transfer of the given chunk sizes through a fresh tracker and
/// collect every event it emits: the byte-threshold emissions, then the one
/// unconditional final event carrying the grand total, so that even a
/// transfer below the threshold reports completion.
pub fn transfer_events(id: &str, total: Option<u64>, chunks: &Vec<u64>) -> (events: Vec<
    TransferProgress,
>)
    requires
        sum_of(chunks@) <= u64::MAX,
    ensures
        event_totals(events@) =~= emit_trace(chunks@, 0, 0).push(sum_of(chunks@)),
        forall|k: int|
            0 <= k < events@.len() ==> (#[trigger] events@[k]).id@ == id@ && events@[k].total
                == total,
{
    let ghost full = emit_trace(chunks@, 0, 0);
    let mut tracker = ProgressTracker::new();
    let mut events: Vec<TransferProgress> = Vec::new();
    let mut i: usize = 0;
    proof {
        assert(chunks@.skip(0) =~= chunks@);
        assert(chunks@.take(0) =~= Seq::<u64>::empty());
        assert(event_totals(events@) + emit_trace(chunks@, 0, 0) =~= emit_trace(chunks@, 0, 0));
    }
    while i < chunks.len()
        invariant
            i <= chunks@.len(),
            sum_of(chunks@) <= u64::MAX,
            full == emit_trace(chunks@, 0, 0),
            tracker.wf(),
            tracker.transferred == sum_of(chunks@.take(i as int)),
            full =~= event_totals(events@) + emit_trace(
                chunks@.skip(i as int),
                tracker.transferred as int,
                tracker.last_emit as int,
            ),
            forall|k: int|
                0 <= k < events@.len() ==> (#[trigger] events@[k]).id@ == id@ && events@[k].total
                    == total,
        decreases chunks@.len() - i,
    {
        let n = chunks[i];
        proof {
            assert(chunks@.take(i + 1).drop_last() =~= chunks@.take(i as int));
            assert(chunks@.take(i + 1).last() == chunks@[i as int]);
            lemma_sum_of_prefix(chunks@, i + 1);
            lemma_sum_of_nonneg(chunks@.take(i as int));
            assert(chunks@.skip(i as int)[0] == chunks@[i as int]);
            assert(chunks@.skip(i as int).skip(1) =~= chunks@.skip(i + 1));
        }
        let ghost pre_rest = emit_trace(
            chunks@.skip(i as int),
            tracker.transferred as int,
            tracker.last_emit as int,
        );
        let emit = tracker.record(n, false);
        if emit {
            let e = tracker.event(id, total);
            proof {
                assert(event_totals(events@.push(e)) =~= event_totals(events@).push(
                    e.transferred as int,
                ));
                assert(pre_rest == seq![tracker.transferred as int] + emit_trace(
                    chunks@.skip(i + 1),
                    tracker.transferred as int,
                    tracker.last_emit as int,
                ));
                assert(event_totals(events@).push(e.transferred as int) + emit_trace(
                    chunks@.skip(i + 1),
                    tracker.transferred as int,
                    tracker.last_emit as int,
                ) =~= event_totals(events@) + pre_rest);
            }
            let ghost before = events@;
            events.push(e);
            proof {
                assert forall|k: int|
                    0 <= k < events@.len() implies (#[trigger] events@[k]).id@ == id@
                    && events@[k].total == total by {
                    if k < before.len() {
                        assert(events@[k] == before[k]);
                    } else {
                        assert(events@[k] == e);
                    }
                }
            }
        } else {
            proof {
                assert(pre_rest == emit_trace(
                    chunks@.skip(i + 1),
                    tracker.transferred as int,
                    tracker.last_emit as int,
                ));
            }
        }
        i = i + 1;
    }
    proof {
        assert(chunks@.take(chunks@.len() as int) =~= chunks@);
        assert(chunks@.skip(chunks@.len() as int) =~= Seq::<u64>::empty());
        assert(full =~= event_totals(events@));
    }
    let last = tracker.event(id, total);
    proof {
        assert(event_totals(events@.push(last)) =~= event_totals(events@).push(
            last.transferred as int,
        ));
    }
    events.push(last);
    events
}

} // verus!
