//! The decisions of the per-handler workers.
//!
//! An event worker walks its block window by ticks: it reads the chain head,
//! fetches the logs from its cursor to `min(cursor + step, head)`, hands them
//! to its handler and moves its cursor to the end of that range. A block
//! worker hands the block at its cursor to its handler while the cursor is
//! below the head and moves it by its step. Reading the head, fetching logs,
//! running handlers and sleeping are done by the caller; this module decides
//! what each tick does.

use vstd::prelude::*;

use crate::config::ExecutionMode;
use crate::progress::ProgressUpdatePayload;

verus! {

/// The step of event workers: 10,000 blocks per tick.
pub const EVENT_STEP: u64 = 10_000;

/// The idle back-off: 5 seconds.
pub const IDLE_BACKOFF_MS: u64 = 5_000;

/// How far behind the head a range must start to count as historical.
pub const HISTORICAL_LAG: u64 = 10;

/// What an event worker does in a tick.
#[derive(Clone, Copy, Debug, PartialEq, Eq)]
pub enum TickPlan {
    /// Caught up with the head: back off and try again.
    Idle,
    /// Fetch and dispatch the logs of blocks `from_block` to `to_block`.
    Fetch { from_block: u64, to_block: u64, is_historical: bool },
}

/// The end of the range of a tick from `cursor` with head `head`:
/// `min(cursor + step, head)`.
pub open spec fn tick_end(cursor: u64, step: u64, head: u64) -> u64 {
    if cursor + step > head {
        head
    } else {
        (cursor + step) as u64
    }
}

/// What an event worker at `cursor` does in a tick that read `head`.
pub open spec fn event_plan(cursor: u64, step: u64, head: u64) -> TickPlan {
    let end = tick_end(cursor, step, head);
    if cursor >= end {
        TickPlan::Idle
    } else {
        TickPlan::Fetch { from_block: cursor, to_block: end, is_historical: head > cursor + HISTORICAL_LAG }
    }
}

/// The outcome of one tick, as the worker observes it.
#[derive(Clone, Copy, Debug, PartialEq, Eq)]
pub enum TickOutcome {
    /// Reading the head failed.
    HeadFailed,
    /// The head was read; `fetched` tells whether fetching the logs (when
    /// the tick had any to fetch) succeeded.
    Head { head: u64, fetched: bool },
}

/// The cursor of an event worker after a tick.
pub open spec fn event_cursor_after(cursor: u64, step: u64, outcome: TickOutcome) -> u64 {
    match outcome {
        TickOutcome::HeadFailed => cursor,
        TickOutcome::Head { head, fetched } => match event_plan(cursor, step, head) {
            TickPlan::Fetch { to_block, .. } => if fetched {
                to_block
            } else {
                cursor
            },
            TickPlan::Idle => cursor,
        },
    }
}

/// The cursors of an event worker after each of a sequence of ticks.
pub open spec fn event_cursors(cursor: u64, step: u64, outcomes: Seq<TickOutcome>) -> Seq<u64>
    decreases outcomes.len(),
{
    if outcomes.len() == 0 {
        Seq::empty()
    } else {
        let next = event_cursor_after(cursor, step, outcomes[0]);
        seq![next] + event_cursors(next, step, outcomes.drop_first())
    }
}

/// The position of an event worker in its block range.
#[derive(Clone, Copy, Debug)]
pub struct EventCursor {
    pub current_block: u64,
    pub step: u64,
}

impl EventCursor {
    /// A worker at `start_block` that takes `step` blocks per tick.
    pub fn new(start_block: u64, step: u64) -> (r: Self)
        ensures
            r.current_block == start_block,
            r.step == step,
    {
        EventCursor { current_block: start_block, step }
    }

    /// What to do in a tick that read the head `head`.
    pub fn plan_tick(&self, head: u64) -> (r: TickPlan)
        ensures
            r == event_plan(self.current_block, self.step, head),
            r matches TickPlan::Fetch { from_block, to_block, .. } ==> from_block
                == self.current_block && from_block < to_block && to_block <= head,
    {
        let end = if self.step > head || self.current_block > head - self.step {
            head
        } else {
            self.current_block + self.step
        };
        if self.current_block >= end {
            TickPlan::Idle
        } else {
            let is_historical = head > HISTORICAL_LAG && self.current_block < head - HISTORICAL_LAG;
            TickPlan::Fetch { from_block: self.current_block, to_block: end, is_historical }
        }
    }

    /// Records the end of a tick: with a plan to fetch whose logs were
    /// fetched and dispatched, the cursor moves to the end of the range;
    /// otherwise it stays.
    pub fn finish_tick(&mut self, head: u64, fetched: bool)
        ensures
            final(self).step == old(self).step,
            final(self).current_block == event_cursor_after(
                old(self).current_block,
                old(self).step,
                TickOutcome::Head { head, fetched },
            ),
            old(self).current_block <= final(self).current_block,
    {
        match self.plan_tick(head) {
            TickPlan::Fetch { to_block, .. } => {
                if fetched {
                    self.current_block = to_block;
                }
            },
            TickPlan::Idle => {},
        }
    }
}

/// Over any sequence of ticks, an event worker's cursor never decreases,
/// and after a tick that moved it, it is at most the head read in that tick.
pub proof fn lemma_event_cursor_monotone(cursor: u64, step: u64, outcomes: Seq<TickOutcome>)
    ensures
        event_cursors(cursor, step, outcomes).len() == outcomes.len(),
        outcomes.len() > 0 ==> cursor <= event_cursors(cursor, step, outcomes)[0],
        forall|i: int|
            0 <= i < outcomes.len() - 1 ==> #[trigger] event_cursors(cursor, step, outcomes)[i]
                <= event_cursors(cursor, step, outcomes)[i + 1],
        forall|i: int|
            #![trigger outcomes[i]]
            0 <= i < outcomes.len() ==> match outcomes[i] {
                TickOutcome::Head { head, .. } => {
                    let before = if i == 0 {
                        cursor
                    } else {
                        event_cursors(cursor, step, outcomes)[i - 1]
                    };
                    let after = event_cursors(cursor, step, outcomes)[i];
                    after != before ==> after <= head
                },
                TickOutcome::HeadFailed => true,
            },
    decreases outcomes.len(),
{
    if outcomes.len() > 0 {
        let next = event_cursor_after(cursor, step, outcomes[0]);
        let rest = outcomes.drop_first();
        lemma_event_cursor_monotone(next, step, rest);
        let cs = event_cursors(cursor, step, outcomes);
        let tail = event_cursors(next, step, rest);
        assert(cs =~= seq![next] + tail);
        assert forall|i: int| 0 <= i < outcomes.len() - 1 implies #[trigger] cs[i] <= cs[i + 1] by {
            if i > 0 {
                assert(cs[i] == tail[i - 1]);
                assert(cs[i + 1] == tail[i]);
            }
        }
        assert forall|i: int|
            #![trigger outcomes[i]]
            0 <= i < outcomes.len() implies match outcomes[i] {
                TickOutcome::Head { head, .. } => {
                    let before = if i == 0 {
                        cursor
                    } else {
                        cs[i - 1]
                    };
                    let after = cs[i];
                    after != before ==> after <= head
                },
                TickOutcome::HeadFailed => true,
            } by {
            if i > 0 {
                assert(outcomes[i] == rest[i - 1]);
                assert(cs[i] == tail[i - 1]);
                if i > 1 {
                    assert(cs[i - 1] == tail[i - 2]);
                }
            }
        }
    }
}

/// What a block worker at `cursor` dispatches in a tick that read `head`:
/// the block at the cursor, when the cursor is below the head.
pub open spec fn block_plan(cursor: u64, head: u64) -> Option<u64> {
    if cursor >= head {
        None
    } else {
        Some(cursor)
    }
}

/// The cursor of a block worker after a tick that dispatched its block.
pub open spec fn block_cursor_after(cursor: u64, step: u64) -> u64 {
    if cursor + step > u64::MAX {
        u64::MAX
    } else {
        (cursor + step) as u64
    }
}

/// The cursor of a block worker after a tick that read `head`.
pub open spec fn block_cursor_next(cursor: u64, step: u64, head: u64) -> u64 {
    match block_plan(cursor, head) {
        Some(_) => block_cursor_after(cursor, step),
        None => cursor,
    }
}

/// The cursors of a block worker after each tick of a sequence that read
/// the heads `heads`.
pub open spec fn block_cursors(cursor: u64, step: u64, heads: Seq<u64>) -> Seq<u64>
    decreases heads.len(),
{
    if heads.len() == 0 {
        Seq::empty()
    } else {
        let next = block_cursor_next(cursor, step, heads[0]);
        seq![next] + block_cursors(next, step, heads.drop_first())
    }
}

/// One tick of a block worker leaves its cursor where it was or moves it by
/// exactly `step`; only a move past the largest `u64` stops there.
pub open spec fn block_move(prev: u64, next: u64, step: u64) -> bool {
    next == prev || (prev + step <= u64::MAX && next == prev + step) || (prev + step > u64::MAX
        && next == u64::MAX)
}

/// Over any sequence of ticks, a block worker's cursor never decreases, and
/// each tick leaves it or moves it by its step.
pub proof fn lemma_block_cursor_monotone(cursor: u64, step: u64, heads: Seq<u64>)
    ensures
        block_cursors(cursor, step, heads).len() == heads.len(),
        heads.len() > 0 ==> cursor <= block_cursors(cursor, step, heads)[0] && block_move(
            cursor,
            block_cursors(cursor, step, heads)[0],
            step,
        ),
        forall|i: int|
            0 <= i < heads.len() - 1 ==> #[trigger] block_cursors(cursor, step, heads)[i]
                <= block_cursors(cursor, step, heads)[i + 1] && block_move(
                block_cursors(cursor, step, heads)[i],
                block_cursors(cursor, step, heads)[i + 1],
                step,
            ),
    decreases heads.len(),
{
    if heads.len() > 0 {
        let next = block_cursor_next(cursor, step, heads[0]);
        let rest = heads.drop_first();
        lemma_block_cursor_monotone(next, step, rest);
        let cs = block_cursors(cursor, step, heads);
        let tail = block_cursors(next, step, rest);
        assert(cs =~= seq![next] + tail);
        assert forall|i: int| 0 <= i < heads.len() - 1 implies #[trigger] cs[i] <= cs[i + 1]
            && block_move(cs[i], cs[i + 1], step) by {
            if i > 0 {
                assert(cs[i] == tail[i - 1]);
                assert(cs[i + 1] == tail[i]);
            }
        }
    }
}

/// The position of a block worker.
#[derive(Clone, Copy, Debug)]
pub struct BlockCursor {
    pub current_block: u64,
    pub step: u64,
}

impl BlockCursor {
    /// A worker at `start_block` that moves `step` blocks per tick.
    pub fn new(start_block: u64, step: u64) -> (r: Self)
        ensures
            r.current_block == start_block,
            r.step == step,
    {
        BlockCursor { current_block: start_block, step }
    }

    /// The block to hand to the handler in a tick that read the head `head`;
    /// `None` when caught up. A dispatched block is below the head, and the
    /// cursor then moves by the step (up to the largest `u64`).
    pub fn tick(&mut self, head: u64) -> (r: Option<u64>)
        ensures
            final(self).step == old(self).step,
            r == block_plan(old(self).current_block, head),
            r matches Some(b) ==> b < head,
            final(self).current_block == block_cursor_next(old(self).current_block, old(self).step, head),
            final(self).current_block == match r {
                Some(_) => block_cursor_after(old(self).current_block, old(self).step),
                None => old(self).current_block,
            },
            old(self).current_block <= final(self).current_block,
    {
        if self.current_block >= head {
            return None;
        }
        let block = self.current_block;
        self.current_block = self.current_block.saturating_add(self.step);
        Some(block)
    }
}

/// How a worker hands its units of work to the handler.
#[derive(Clone, Copy, Debug, PartialEq, Eq)]
pub enum Dispatch {
    /// Spawn one task per unit, without waiting for any.
    SpawnEach,
    /// Run the handler on each unit in order, each after the previous one
    /// has finished.
    InlineInOrder,
}

/// How a worker in mode `mode` dispatches its work.
pub open spec fn dispatch_of(mode: ExecutionMode) -> Dispatch {
    match mode {
        ExecutionMode::Parallel => Dispatch::SpawnEach,
        ExecutionMode::Serial => Dispatch::InlineInOrder,
    }
}

/// How a worker in mode `mode` dispatches its work.
pub fn dispatch_for(mode: ExecutionMode) -> (r: Dispatch)
    ensures
        r == dispatch_of(mode),
{
    match mode {
        ExecutionMode::Parallel => Dispatch::SpawnEach,
        ExecutionMode::Serial => Dispatch::InlineInOrder,
    }
}

/// The progress messages of a tick that dispatched `dispatched` units of
/// work and whose range ended at `end_block`: the processed count grows by
/// the units dispatched, then the end block is set.
pub fn tick_progress(dispatched: u64, end_block: u64) -> (r: Vec<ProgressUpdatePayload>)
    ensures
        r@ == seq![
            ProgressUpdatePayload::IncrementProcessedBlocks(dispatched),
            ProgressUpdatePayload::UpdateEndBlock(end_block),
        ],
{
    vec![
        ProgressUpdatePayload::IncrementProcessedBlocks(dispatched),
        ProgressUpdatePayload::UpdateEndBlock(end_block),
    ]
}

/// Caches the chain head for a time to live.
#[derive(Clone, Copy, Debug)]
pub struct LatestBlockManager {
    pub cache_duration: u64,
    pub block_number: Option<u64>,
    pub last_fetch: u64,
}

/// The head cached at `last_fetch` is still fresh at `now`.
pub open spec fn fresh(m: LatestBlockManager, now: u64) -> bool {
    m.block_number is Some && (if now >= m.last_fetch {
        now - m.last_fetch
    } else {
        0
    }) < m.cache_duration
}

/// The time to live of the cached head: 10 seconds.
pub const HEAD_TTL_MS: u64 = 10_000;

impl LatestBlockManager {
    /// An empty cache whose entries live `cache_duration` milliseconds.
    pub fn new(cache_duration: u64, now: u64) -> (r: Self)
        ensures
            r.cache_duration == cache_duration,
            r.block_number is None,
            r.last_fetch == now,
    {
        LatestBlockManager { cache_duration, block_number: None, last_fetch: now }
    }

    /// The cached head when it is still fresh at `now`; `None` when the
    /// head must be read from the provider.
    pub fn cached(&self, now: u64) -> (r: Option<u64>)
        ensures
            r == (if fresh(*self, now) {
                self.block_number
            } else {
                None
            }),
    {
        match self.block_number {
            Some(b) => {
                let elapsed = now.saturating_sub(self.last_fetch);
                if elapsed < self.cache_duration {
                    Some(b)
                } else {
                    None
                }
            },
            None => None,
        }
    }

    /// Records the head `block_number` read at `now`.
    pub fn record(&mut self, block_number: u64, now: u64)
        ensures
            final(self).cache_duration == old(self).cache_duration,
            final(self).block_number == Some(block_number),
            final(self).last_fetch == now,
    {
        self.block_number = Some(block_number);
        self.last_fetch = now;
    }
}

} // verus!
