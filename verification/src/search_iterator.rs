use vstd::prelude::*;
use crate::nodes::SlabIndex;

verus! {

/// Progress of a search iterator.
#[derive(Debug, Clone)]
pub struct IteratorState {
    /// How many indices have been handed out.
    pub yielded_count: usize,
    /// Whether the search has finished.
    pub search_completed: bool,
    /// Whether the search was cancelled.
    pub cancelled: bool,
}

impl Default for IteratorState {
    fn default() -> (r: Self)
        ensures
            r.yielded_count == 0,
            !r.search_completed,
            !r.cancelled,
    {
        IteratorState { yielded_count: 0, search_completed: false, cancelled: false }
    }
}

/// One batch of results.
#[derive(Debug, Clone)]
pub struct SearchBatch {
    /// The indices of this batch.
    pub indices: Vec<SlabIndex>,
    /// Whether more results may follow.
    pub has_more: bool,
    /// Whether the search has finished.
    pub search_completed: bool,
}

/// What the background traversal sends.
pub enum PrefetchMessage {
    /// A batch of matching nodes.
    Batch(Vec<SlabIndex>),
    /// The traversal finished.
    Done,
    /// The traversal was cancelled.
    Cancelled,
}

/// The results received from the traversal and not yet handed out.
pub struct PrefetchBuffer {
    /// Whether the traversal has sent its last message.
    pub prefetch_done: bool,
    /// The last batch received.
    pub buffer: Vec<SlabIndex>,
    /// How much of `buffer` has been handed out.
    pub buffer_pos: usize,
    /// Every index received in a batch so far, in order.
    pub received: Ghost<Seq<SlabIndex>>,
    /// Every index handed out so far, in order.
    pub delivered: Ghost<Seq<SlabIndex>>,
}

impl PrefetchBuffer {
    pub open spec fn wf(&self) -> bool {
        self.buffer_pos <= self.buffer@.len()
    }

    /// The received indices not yet handed out.
    pub open spec fn pending(&self) -> Seq<SlabIndex> {
        self.buffer@.subrange(self.buffer_pos as int, self.buffer@.len() as int)
    }

    /// What was handed out, followed by what is waiting, is what was
    /// received: nothing lost, repeated or reordered.
    pub open spec fn stream_ok(&self) -> bool {
        self.delivered@ + self.pending() == self.received@
    }

    pub fn new() -> (r: PrefetchBuffer)
        ensures
            r.wf(),
            !r.prefetch_done,
            r.pending().len() == 0,
            r.received@.len() == 0,
            r.delivered@.len() == 0,
            r.stream_ok(),
    {
        let r = PrefetchBuffer {
            prefetch_done: false,
            buffer: Vec::new(),
            buffer_pos: 0,
            received: Ghost(Seq::empty()),
            delivered: Ghost(Seq::empty()),
        };
        assert(r.delivered@ + r.pending() =~= r.received@);
        r
    }

    /// Whether received indices wait to be handed out.
    pub fn has_prefetched_data(&self) -> (r: bool)
        requires
            self.wf(),
        ensures
            r == (self.pending().len() > 0),
    {
        self.buffer.len() > self.buffer_pos
    }

    /// Whether more indices may come: the traversal goes on, or indices
    /// wait in the buffer.
    pub fn has_more(&self) -> (r: bool)
        requires
            self.wf(),
        ensures
            r == (!self.prefetch_done || self.pending().len() > 0),
    {
        !self.prefetch_done || self.has_prefetched_data()
    }

    /// Hands out waiting indices into `out` until it holds `max_count` or
    /// the buffer is drained, counting them in `state`.
    pub fn take_buffered(&mut self, state: &mut IteratorState, out: &mut Vec<SlabIndex>, max_count: usize)
        requires
            old(self).wf(),
            old(state).yielded_count + old(self).pending().len() <= usize::MAX,
        ensures
            final(self).wf(),
            final(self).prefetch_done == old(self).prefetch_done,
            final(self).buffer == old(self).buffer,
            ({
                let moved = if old(out)@.len() >= max_count {
                    0
                } else {
                    vstd::math::min(max_count - old(out)@.len(), old(self).pending().len() as int)
                };
                &&& final(out)@ == old(out)@ + old(self).pending().take(moved)
                &&& final(self).pending() == old(self).pending().skip(moved)
                &&& final(state).yielded_count == old(state).yielded_count + moved
                &&& final(state).search_completed == old(state).search_completed
                &&& final(state).cancelled == old(state).cancelled
                &&& final(self).delivered@ == old(self).delivered@ + old(self).pending().take(moved)
            }),
            final(self).received == old(self).received,
            old(self).stream_ok() ==> final(self).stream_ok(),
    {
        let ghost start_pos = self.buffer_pos;
        let ghost start_out = out@;
        let ghost start_count = state.yielded_count;
        let ghost p = self.pending();
        while out.len() < max_count && self.buffer_pos < self.buffer.len()
            invariant
                self.wf(),
                start_pos <= self.buffer_pos <= self.buffer@.len(),
                self.buffer == old(self).buffer,
                self.prefetch_done == old(self).prefetch_done,
                p == old(self).pending(),
                start_pos == old(self).buffer_pos,
                start_out == old(out)@,
                start_count == old(state).yielded_count,
                state.search_completed == old(state).search_completed,
                state.cancelled == old(state).cancelled,
                start_count + p.len() <= usize::MAX,
                out@ == start_out + p.take(self.buffer_pos - start_pos),
                state.yielded_count == start_count + (self.buffer_pos - start_pos),
                start_out.len() >= max_count ==> self.buffer_pos == start_pos,
                start_out.len() < max_count ==> out@.len() <= max_count,
                self.received == old(self).received,
                self.delivered == old(self).delivered,
            decreases self.buffer@.len() - self.buffer_pos,
        {
            let ghost k = self.buffer_pos - start_pos;
            out.push(self.buffer[self.buffer_pos]);
            proof {
                assert(p[k] == self.buffer@[self.buffer_pos as int]);
                assert(p.take(k + 1) =~= p.take(k).push(p[k]));
            }
            self.buffer_pos = self.buffer_pos + 1;
            state.yielded_count = state.yielded_count + 1;
        }
        let ghost moved = self.buffer_pos - start_pos;
        self.delivered = Ghost(self.delivered@ + p.take(moved));
        proof {
            assert(self.pending() =~= p.skip(moved));
            assert(p.take(moved) + p.skip(moved) =~= p);
            assert(self.delivered@ + self.pending() =~= old(self).delivered@ + p);
        }
    }

    /// Takes in a message of the traversal; returns whether the wait for
    /// more results should stop: on a non-empty batch, which replaces the
    /// buffer, and on the end or cancellation of the traversal.
    pub fn on_message(&mut self, state: &mut IteratorState, msg: PrefetchMessage) -> (stop: bool)
        requires
            old(self).wf(),
        ensures
            final(self).wf(),
            final(state).yielded_count == old(state).yielded_count,
            final(self).delivered == old(self).delivered,
            final(self).received@ == old(self).received@ + (match msg {
                PrefetchMessage::Batch(indices) => indices@,
                _ => Seq::empty(),
            }),
            old(self).stream_ok() && old(self).pending().len() == 0 ==> final(self).stream_ok(),
            match msg {
                PrefetchMessage::Batch(indices) => {
                    &&& final(self).pending() == indices@
                    &&& final(self).buffer == indices
                    &&& final(self).prefetch_done == old(self).prefetch_done
                    &&& final(state).search_completed == old(state).search_completed
                    &&& final(state).cancelled == old(state).cancelled
                    &&& stop == (indices@.len() > 0)
                },
                PrefetchMessage::Done => {
                    &&& final(self).buffer == old(self).buffer
                    &&& final(self).buffer_pos == old(self).buffer_pos
                    &&& final(self).prefetch_done
                    &&& final(state).search_completed
                    &&& final(state).cancelled == old(state).cancelled
                    &&& stop
                },
                PrefetchMessage::Cancelled => {
                    &&& final(self).buffer == old(self).buffer
                    &&& final(self).buffer_pos == old(self).buffer_pos
                    &&& final(self).prefetch_done
                    &&& final(state).search_completed
                    &&& final(state).cancelled
                    &&& stop
                },
            },
    {
        match msg {
            PrefetchMessage::Batch(indices) => {
                let stop = indices.len() > 0;
                self.received = Ghost(self.received@ + indices@);
                self.buffer = indices;
                self.buffer_pos = 0;
                assert(self.pending() =~= self.buffer@);
                proof {
                    if old(self).stream_ok() && old(self).pending().len() == 0 {
                        assert(old(self).delivered@ + old(self).pending() =~= old(self).delivered@);
                    }
                }
                stop
            },
            PrefetchMessage::Done => {
                self.prefetch_done = true;
                state.search_completed = true;
                assert(self.received@ + Seq::<SlabIndex>::empty() =~= self.received@);
                true
            },
            PrefetchMessage::Cancelled => {
                self.prefetch_done = true;
                state.cancelled = true;
                state.search_completed = true;
                assert(self.received@ + Seq::<SlabIndex>::empty() =~= self.received@);
                true
            },
        }
    }

    /// The batch to return for the collected indices.
    pub fn finish_batch(&self, state: &IteratorState, indices: Vec<SlabIndex>) -> (r: SearchBatch)
        requires
            self.wf(),
        ensures
            r.indices == indices,
            r.has_more == (!self.prefetch_done || self.pending().len() > 0),
            r.search_completed == state.search_completed,
    {
        SearchBatch { indices, has_more: self.has_more(), search_completed: state.search_completed }
    }
}

/// Successive batches lose, repeat and reorder nothing: what has been handed
/// out is a prefix of what the traversal sent, and all of it once no more
/// results are owed (the traversal is over and nothing waits).
pub proof fn law_batches_follow_stream(b: PrefetchBuffer)
    requires
        b.wf(),
        b.stream_ok(),
    ensures
        b.delivered@.is_prefix_of(b.received@),
        b.prefetch_done && b.pending().len() == 0 ==> b.delivered@ == b.received@,
{
    assert(b.received@.subrange(0, b.delivered@.len() as int) =~= b.delivered@);
    if b.pending().len() == 0 {
        assert(b.delivered@ + b.pending() =~= b.delivered@);
    }
}

/// The batch a cancelled iterator returns: empty and final. `None` while
/// the iterator is not cancelled.
pub fn cancelled_batch(state: &IteratorState) -> (r: Option<SearchBatch>)
    ensures
        r is Some <==> state.cancelled,
        r matches Some(b) ==> b.indices@.len() == 0 && !b.has_more && b.search_completed,
{
    if state.cancelled {
        Some(SearchBatch { indices: Vec::new(), has_more: false, search_completed: true })
    } else {
        None
    }
}

} // verus!
