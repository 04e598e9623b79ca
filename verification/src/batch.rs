//! The bookkeeping of the batch indexer: where indexing starts, which blocks
//! it indexes in turn, and what progress it records in the root tree.
use vstd::prelude::*;
use crate::bytes::{be_bytes, be_value, lemma_be_value_of_bytes, u32_from_be_bytes, vector_as_u8_4_array};

verus! {

/// The bytes of `v`, if any.
pub open spec fn bytes_of(v: Option<&[u8]>) -> Option<Seq<u8>> {
    match v {
        Some(b) => Some(b@),
        None => None,
    }
}

/// Whether the stored flag `batch_indexing_complete` says that batch
/// indexing has finished: its first byte is 1.
pub open spec fn flag_set(v: Option<Seq<u8>>) -> bool {
    match v {
        Some(b) => b[0] == 1,
        None => false,
    }
}

/// The block number stored big-endian in `v`, or `default` when nothing is
/// stored.
pub open spec fn stored_block(v: Option<Seq<u8>>, default: u32) -> u32 {
    match v {
        Some(b) => be_value(b),
        None => default,
    }
}

/// The block that indexing starts at: the one asked for; else, when batch
/// indexing has finished, the last head block recorded; else the last batch
/// block recorded; in both cases the runtime's default when none is.
pub open spec fn start_block_spec(
    requested: Option<u32>,
    batch_indexing_complete: Option<Seq<u8>>,
    last_head_block: Option<Seq<u8>>,
    last_batch_block: Option<Seq<u8>>,
    default_start_block: u32,
) -> u32 {
    match requested {
        Some(b) => b,
        None => if flag_set(batch_indexing_complete) {
            stored_block(last_head_block, default_start_block)
        } else {
            stored_block(last_batch_block, default_start_block)
        },
    }
}

/// Whether a stored value that is read is long enough: the flag needs one
/// byte and a block number four.
pub open spec fn start_values_readable(
    requested: Option<u32>,
    batch_indexing_complete: Option<Seq<u8>>,
    last_head_block: Option<Seq<u8>>,
    last_batch_block: Option<Seq<u8>>,
) -> bool {
    requested is None ==> {
        &&& (batch_indexing_complete matches Some(b) ==> b.len() >= 1)
        &&& flag_set(batch_indexing_complete) ==> (last_head_block matches Some(b) ==> b.len() >= 4)
        &&& !flag_set(batch_indexing_complete) ==> (last_batch_block matches Some(b) ==> b.len() >= 4)
    }
}

/// The block number stored in `v`, or `default`.
fn read_stored_block(v: Option<&[u8]>, default: u32) -> (r: u32)
    requires
        v matches Some(b) ==> b@.len() >= 4,
    ensures
        r == stored_block(bytes_of(v), default),
{
    match v {
        Some(b) => {
            let a = vector_as_u8_4_array(b);
            let r = u32_from_be_bytes(a);
            assert(a@ =~= b@.subrange(0, 4));
            r
        },
        None => default,
    }
}

/// The block that indexing starts at, from the block asked for and the
/// values stored in the root tree under `batch_indexing_complete`,
/// `last_head_block` and `last_batch_block`.
pub fn start_block(
    requested: Option<u32>,
    batch_indexing_complete: Option<&[u8]>,
    last_head_block: Option<&[u8]>,
    last_batch_block: Option<&[u8]>,
    default_start_block: u32,
) -> (r: u32)
    requires
        start_values_readable(
            requested,
            bytes_of(batch_indexing_complete),
            bytes_of(last_head_block),
            bytes_of(last_batch_block),
        ),
    ensures
        r == start_block_spec(
            requested,
            bytes_of(batch_indexing_complete),
            bytes_of(last_head_block),
            bytes_of(last_batch_block),
            default_start_block,
        ),
        requested matches Some(b) ==> r == b,
        requested is None ==> {
            let done = batch_indexing_complete matches Some(f) && f@[0] == 1;
            let stored = if done { last_head_block } else { last_batch_block };
            match stored {
                Some(v) => r as int == v@[0] * 0x100_0000int + v@[1] * 0x1_0000int + v@[2] * 0x100int + v@[3],
                None => r == default_start_block,
            }
        },
{
    match requested {
        Some(b) => b,
        None => {
            let complete = match batch_indexing_complete {
                Some(v) => v[0] == 1,
                None => false,
            };
            if complete {
                read_stored_block(last_head_block, default_start_block)
            } else {
                read_stored_block(last_batch_block, default_start_block)
            }
        },
    }
}

/// The value stored under `batch_indexing_complete`: one byte, 1 when batch
/// indexing has finished and 0 while it runs.
pub fn batch_flag(complete: bool) -> (r: [u8; 1])
    ensures
        r@ == seq![if complete { 1u8 } else { 0u8 }],
{
    let r = [if complete { 1u8 } else { 0u8 }];
    assert(r@ =~= seq![if complete { 1u8 } else { 0u8 }]);
    r
}

/// What has been stored is what indexing resumes from: with the flag set,
/// the last head block written; with it clear or absent, the last batch
/// block written.
pub proof fn lemma_resume(complete: bool, head: u32, batch: u32, default_start_block: u32)
    ensures
        start_block_spec(
            None,
            Some(seq![if complete { 1u8 } else { 0u8 }]),
            Some(be_bytes(head)),
            Some(be_bytes(batch)),
            default_start_block,
        ) == if complete { head } else { batch },
        start_values_readable(
            None,
            Some(seq![if complete { 1u8 } else { 0u8 }]),
            Some(be_bytes(head)),
            Some(be_bytes(batch)),
        ),
{
    lemma_be_value_of_bytes(head);
    lemma_be_value_of_bytes(batch);
}

/// How often the batch indexer records its progress, in blocks.
pub const PROGRESS_INTERVAL: u32 = 100;

/// The batch indexer's progress: `queue_depth` blocks are indexed at a
/// time, `next_block` is the next block to hand out, `last_batch_block`
/// the highest block below which all were handed out and done, as far as
/// the indexer counts, and `in_flight` the blocks being indexed.
#[derive(Clone, Copy, Debug, PartialEq, Eq, Structural)]
pub struct BatchState {
    pub queue_depth: u32,
    pub next_block: u32,
    pub last_batch_block: u32,
    pub in_flight: u32,
}

/// What one finished block calls for: a block to start indexing, a block
/// number to record under `last_batch_block`, and whether batch indexing
/// has now finished.
#[derive(Clone, Copy, Debug, PartialEq, Eq, Structural)]
pub struct BatchStep {
    pub index_block: Option<u32>,
    pub record_last_batch_block: Option<u32>,
    pub complete: bool,
}

impl BatchState {
    /// The invariant: no more blocks in flight than the queue holds, and the
    /// blocks handed out lie at least a queue's depth above the last batch
    /// block.
    pub open spec fn wf(self) -> bool {
        &&& self.in_flight <= self.queue_depth
        &&& self.last_batch_block + self.queue_depth <= self.next_block
    }

    /// The state after a block finishes (`indexed`) or fails, and the step.
    pub open spec fn after(self, indexed: bool) -> (BatchState, BatchStep) {
        if indexed {
            let candidate = self.next_block - self.queue_depth;
            let advanced = candidate > self.last_batch_block;
            let last = if advanced { candidate as u32 } else { self.last_batch_block };
            (
                BatchState { next_block: (self.next_block + 1) as u32, last_batch_block: last, ..self },
                BatchStep {
                    index_block: Some(self.next_block),
                    record_last_batch_block: if advanced && last % 100 == 0 { Some(last) } else { None },
                    complete: false,
                },
            )
        } else {
            let in_flight = (self.in_flight - 1) as u32;
            (
                BatchState { in_flight, ..self },
                BatchStep { index_block: None, record_last_batch_block: None, complete: in_flight == 0 },
            )
        }
    }

    /// Starts batch indexing at `start`: the first `queue_depth` blocks are
    /// handed out at once.
    pub fn begin(start: u32, queue_depth: u32) -> (r: (BatchState, Vec<u32>))
        requires
            start + queue_depth <= u32::MAX,
        ensures
            r.0 == (BatchState {
                queue_depth,
                next_block: (start + queue_depth) as u32,
                last_batch_block: start,
                in_flight: queue_depth,
            }),
            r.0.wf(),
            r.1@ == Seq::new(queue_depth as nat, |i: int| (start + i) as u32),
    {
        let mut blocks: Vec<u32> = Vec::new();
        let mut n: u32 = 0;
        while n < queue_depth
            invariant
                n <= queue_depth,
                start + queue_depth <= u32::MAX,
                blocks@ == Seq::new(n as nat, |i: int| (start + i) as u32),
            decreases queue_depth - n,
        {
            blocks.push(start + n);
            n = n + 1;
            assert(blocks@ =~= Seq::new(n as nat, |i: int| (start + i) as u32));
        }
        (BatchState { queue_depth, next_block: start + queue_depth, last_batch_block: start, in_flight: queue_depth }, blocks)
    }

    /// A block handed out has finished: `indexed` when it was indexed, false
    /// when it could not be (it is not on the chain yet). An indexed block is
    /// replaced by the next block, so as many stay in flight; a failed one is
    /// not, and batch indexing is complete when none is left in flight.
    pub fn on_block_done(&mut self, indexed: bool) -> (r: BatchStep)
        requires
            old(self).wf(),
            old(self).in_flight > 0,
            indexed ==> old(self).next_block < u32::MAX,
        ensures
            final(self).wf(),
            (*final(self), r) == old(self).after(indexed),
            final(self).queue_depth == old(self).queue_depth,
            r.index_block == if indexed { Some(old(self).next_block) } else { None },
            final(self).next_block == old(self).next_block + if indexed { 1int } else { 0int },
            final(self).in_flight == old(self).in_flight - if indexed { 0int } else { 1int },
            final(self).last_batch_block == if indexed && old(self).next_block - old(self).queue_depth
                > old(self).last_batch_block {
                old(self).next_block - old(self).queue_depth
            } else {
                old(self).last_batch_block as int
            },
            r.record_last_batch_block == if final(self).last_batch_block > old(self).last_batch_block
                && final(self).last_batch_block % PROGRESS_INTERVAL == 0 {
                Some(final(self).last_batch_block)
            } else {
                None
            },
            r.complete == (final(self).in_flight == 0),
    {
        if indexed {
            let index_block = Some(self.next_block);
            let candidate = self.next_block - self.queue_depth;
            let mut record_last_batch_block = None;
            if candidate > self.last_batch_block {
                self.last_batch_block = candidate;
                if candidate % PROGRESS_INTERVAL == 0 {
                    record_last_batch_block = Some(candidate);
                }
            }
            self.next_block = self.next_block + 1;
            BatchStep { index_block, record_last_batch_block, complete: false }
        } else {
            self.in_flight = self.in_flight - 1;
            BatchStep { index_block: None, record_last_batch_block: None, complete: self.in_flight == 0 }
        }
    }
}

/// What every finished block does to the batch indexer: the invariant
/// holds; an indexed block hands out the next block in turn, so blocks are
/// handed out consecutively and as many stay in flight; a failed block hands
/// out none, and batch indexing is complete exactly when none is left in
/// flight; the last batch block never goes down, and a recorded one is a
/// multiple of the progress interval, the new last batch block, and at least
/// a queue's depth below the next block to hand out.
pub proof fn lemma_batch_step(s: BatchState, indexed: bool)
    requires
        s.wf(),
        s.in_flight > 0,
        indexed ==> s.next_block < u32::MAX,
    ensures
        ({
            let (t, step) = s.after(indexed);
            &&& t.wf()
            &&& t.queue_depth == s.queue_depth
            &&& t.last_batch_block >= s.last_batch_block
            &&& indexed ==> {
                &&& step.index_block == Some(s.next_block)
                &&& t.next_block == s.next_block + 1
                &&& t.in_flight == s.in_flight
                &&& !step.complete
            }
            &&& !indexed ==> {
                &&& step.index_block is None
                &&& t.next_block == s.next_block
                &&& t.in_flight == s.in_flight - 1
                &&& step.complete == (t.in_flight == 0)
            }
            &&& step.record_last_batch_block matches Some(b) ==> {
                &&& b % PROGRESS_INTERVAL == 0
                &&& b == t.last_batch_block
                &&& b + t.queue_depth < t.next_block
            }
            &&& (t.last_batch_block > s.last_batch_block && t.last_batch_block % PROGRESS_INTERVAL == 0)
                ==> step.record_last_batch_block == Some(t.last_batch_block)
            &&& indexed ==> t.last_batch_block == if s.next_block - s.queue_depth > s.last_batch_block {
                s.next_block - s.queue_depth
            } else {
                s.last_batch_block as int
            }
        }),
{
}

/// A block asked for is where indexing starts, whatever the root tree holds.
pub proof fn lemma_requested_block_wins(
    b: u32,
    batch_indexing_complete: Option<Seq<u8>>,
    last_head_block: Option<Seq<u8>>,
    last_batch_block: Option<Seq<u8>>,
    default_start_block: u32,
)
    ensures
        start_block_spec(Some(b), batch_indexing_complete, last_head_block, last_batch_block, default_start_block) == b,
        start_values_readable(Some(b), batch_indexing_complete, last_head_block, last_batch_block),
{
}

/// The state in which batch indexing starts at `start` with a queue of
/// `queue_depth` blocks, as `BatchState::begin` returns it.
pub open spec fn begin_state(start: u32, queue_depth: u32) -> BatchState {
    BatchState {
        queue_depth,
        next_block: (start + queue_depth) as u32,
        last_batch_block: start,
        in_flight: queue_depth,
    }
}

/// The state after the finished blocks `outcomes` (true for indexed, false
/// for failed), one after another from `s`, and the step of each.
pub open spec fn run(s: BatchState, outcomes: Seq<bool>) -> (BatchState, Seq<BatchStep>)
    decreases outcomes.len(),
{
    if outcomes.len() == 0 {
        (s, Seq::empty())
    } else {
        let (t, steps) = run(s, outcomes.drop_last());
        let (u, step) = t.after(outcomes.last());
        (u, steps.push(step))
    }
}

/// Whether each finished block of `outcomes` can be reported in turn from
/// `s`: a block is in flight, and an indexed one leaves room for the next
/// block number.
pub open spec fn run_allowed(s: BatchState, outcomes: Seq<bool>) -> bool
    decreases outcomes.len(),
{
    if outcomes.len() == 0 {
        true
    } else {
        let t = run(s, outcomes.drop_last()).0;
        &&& run_allowed(s, outcomes.drop_last())
        &&& t.in_flight > 0
        &&& outcomes.last() ==> t.next_block < u32::MAX
    }
}

/// How many of `outcomes` are true: the blocks indexed.
pub open spec fn count_indexed(outcomes: Seq<bool>) -> nat
    decreases outcomes.len(),
{
    if outcomes.len() == 0 {
        0
    } else {
        count_indexed(outcomes.drop_last()) + if outcomes.last() { 1nat } else { 0nat }
    }
}

/// What a whole run of batch indexing does, from its start at `start` with
/// a queue of `queue_depth` blocks, through any sequence of finished blocks
/// that can be reported:
/// - blocks are handed out consecutively: `begin` hands out `start` up to
///   `start + queue_depth - 1`, and the `i`th finished block, when indexed,
///   hands out `start + queue_depth` plus the number indexed before it; a
///   failed one hands out none, so no block is handed out twice;
/// - never more than `queue_depth` blocks are in flight;
/// - every recorded last batch block is a multiple of the progress interval,
///   above `start`, and above every one recorded before it;
/// - completion is reported at most once, by the last step of the run, when
///   and only when no block is left in flight, after which no further block
///   can be reported.
pub proof fn lemma_batch_run(start: u32, queue_depth: u32, outcomes: Seq<bool>)
    requires
        start + queue_depth <= u32::MAX,
        run_allowed(begin_state(start, queue_depth), outcomes),
    ensures
        ({
            let (s, steps) = run(begin_state(start, queue_depth), outcomes);
            &&& s.wf()
            &&& s.queue_depth == queue_depth
            &&& s.in_flight <= queue_depth
            &&& s.next_block == start + queue_depth + count_indexed(outcomes)
            &&& s.last_batch_block >= start
            &&& steps.len() == outcomes.len()
            &&& forall|i: int| #![trigger steps[i]] 0 <= i < steps.len() ==> steps[i].index_block == if outcomes[i] {
                Some((start + queue_depth + count_indexed(outcomes.take(i))) as u32)
            } else {
                None
            }
            &&& forall|i: int| #![trigger steps[i]] 0 <= i < steps.len() ==> (steps[i].record_last_batch_block matches Some(b) ==> {
                &&& b % PROGRESS_INTERVAL == 0
                &&& start < b <= s.last_batch_block
            })
            &&& forall|i: int, j: int| #![trigger steps[i], steps[j]] 0 <= i < j < steps.len() ==> (
                steps[i].record_last_batch_block matches Some(a) ==> (
                steps[j].record_last_batch_block matches Some(b) ==> a < b))
            &&& forall|i: int| #![trigger steps[i]] 0 <= i < steps.len() ==> (steps[i].complete ==> {
                &&& i == steps.len() - 1
                &&& s.in_flight == 0
            })
            &&& (steps.len() > 0 && s.in_flight == 0) ==> steps.last().complete
            &&& s.in_flight == 0 ==> forall|x: bool| !run_allowed(begin_state(start, queue_depth), #[trigger] outcomes.push(x))
        }),
    decreases outcomes.len(),
{
    let s0 = begin_state(start, queue_depth);
    if outcomes.len() > 0 {
        let p = outcomes.drop_last();
        let x = outcomes.last();
        lemma_batch_run(start, queue_depth, p);
        let (t, tsteps) = run(s0, p);
        let (s, steps) = run(s0, outcomes);
        let (u, step) = t.after(x);
        assert(s == u);
        assert(steps == tsteps.push(step));
        lemma_batch_step(t, x);
        assert forall|i: int| 0 <= i < p.len() implies #[trigger] outcomes.take(i) == p.take(i) by {
            assert(outcomes.take(i) =~= p.take(i));
        }
        assert(outcomes.take(p.len() as int) =~= p);
        assert forall|i: int| #![trigger steps[i]] 0 <= i < steps.len() implies steps[i].index_block == if outcomes[i] {
            Some((start + queue_depth + count_indexed(outcomes.take(i))) as u32)
        } else {
            None
        } by {
            if i < p.len() {
                assert(steps[i] == tsteps[i]);
                assert(outcomes[i] == p[i]);
                assert(outcomes.take(i) == p.take(i));
            } else {
                assert(steps[i] == step);
            }
        }
        assert forall|i: int| #![trigger steps[i]] 0 <= i < steps.len() implies (steps[i].record_last_batch_block matches Some(b) ==> {
            &&& b % PROGRESS_INTERVAL == 0
            &&& start < b <= s.last_batch_block
        }) by {
            if i < p.len() {
                assert(steps[i] == tsteps[i]);
            }
        }
        assert forall|i: int, j: int| #![trigger steps[i], steps[j]] 0 <= i < j < steps.len() implies (
            steps[i].record_last_batch_block matches Some(a) ==> (
            steps[j].record_last_batch_block matches Some(b) ==> a < b)) by {
            assert(steps[i] == tsteps[i]);
            if j < p.len() {
                assert(steps[j] == tsteps[j]);
            } else {
                assert(steps[j] == step);
            }
        }
        assert forall|i: int| #![trigger steps[i]] 0 <= i < steps.len() implies (steps[i].complete ==> {
            &&& i == steps.len() - 1
            &&& s.in_flight == 0
        }) by {
            if i < p.len() {
                assert(steps[i] == tsteps[i]);
            }
        }
        assert forall|y: bool| s.in_flight == 0 implies !run_allowed(s0, #[trigger] outcomes.push(y)) by {
            assert(outcomes.push(y).drop_last() =~= outcomes);
        }
    } else {
        assert forall|y: bool| run(s0, outcomes).0.in_flight == 0 implies !run_allowed(s0, #[trigger] outcomes.push(y)) by {
            assert(outcomes.push(y).drop_last() =~= outcomes);
        }
    }
}

} // verus!
