//! The progress plane: one record per handler, updated by messages that the
//! workers send, and read by the metrics exposition.

use vstd::prelude::*;

verus! {

/// A progress message of one worker.
#[derive(Clone, Copy, Debug, PartialEq, Eq)]
pub enum ProgressUpdatePayload {
    /// `k` more units of work were dispatched.
    IncrementProcessedBlocks(u64),
    /// The worker's range now ends at this block.
    UpdateEndBlock(u64),
    /// The worker starts at this block.
    SetStartBlock(u64),
}

/// The progress of one handler.
#[derive(Clone, Debug)]
pub struct ProgressState {
    pub label: String,
    pub start_block: u64,
    pub current_block: u64,
    pub end_block: u64,
}

/// The label under which a handler's metrics are exposed.
#[derive(Clone, Debug, PartialEq, Eq)]
pub struct ProgressLabels {
    pub label: String,
}

/// The sending side of one handler's progress record.
#[derive(Clone, Copy, Debug, PartialEq, Eq)]
pub struct ProgressChannel {
    pub id: usize,
}

/// `a + b`, or the largest `u64` when that does not fit.
pub open spec fn saturating(a: u64, b: u64) -> u64 {
    if a + b > u64::MAX {
        u64::MAX
    } else {
        (a + b) as u64
    }
}

/// The record `s` after the message `p`: the processed count grows by the
/// increment (up to the largest `u64`), the end or start block is set.
pub open spec fn applied(s: ProgressState, p: ProgressUpdatePayload) -> ProgressState {
    match p {
        ProgressUpdatePayload::IncrementProcessedBlocks(k) => ProgressState {
            current_block: saturating(s.current_block, k),
            ..s
        },
        ProgressUpdatePayload::UpdateEndBlock(n) => ProgressState { end_block: n, ..s },
        ProgressUpdatePayload::SetStartBlock(n) => ProgressState { start_block: n, ..s },
    }
}

/// A metric family of the exposition.
#[derive(Clone, Copy, Debug, PartialEq, Eq)]
pub enum MetricFamily {
    StartBlock,
    ProcessedBlocks,
    EndBlock,
}

/// How a message changes its family's value for the handler.
#[derive(Clone, Copy, Debug, PartialEq, Eq)]
pub enum MetricChange {
    SetTo(u64),
    AddBy(u64),
}

/// The family a message updates, and how: the processed count grows by the
/// increment, the start and end blocks are set.
pub open spec fn metric_of(p: ProgressUpdatePayload) -> (MetricFamily, MetricChange) {
    match p {
        ProgressUpdatePayload::IncrementProcessedBlocks(k) => (
            MetricFamily::ProcessedBlocks,
            MetricChange::AddBy(k),
        ),
        ProgressUpdatePayload::UpdateEndBlock(n) => (MetricFamily::EndBlock, MetricChange::SetTo(n)),
        ProgressUpdatePayload::SetStartBlock(n) => (MetricFamily::StartBlock, MetricChange::SetTo(n)),
    }
}

/// The family a message updates, and how.
pub fn metric_change(p: ProgressUpdatePayload) -> (r: (MetricFamily, MetricChange))
    ensures
        r == metric_of(p),
{
    match p {
        ProgressUpdatePayload::IncrementProcessedBlocks(k) => (
            MetricFamily::ProcessedBlocks,
            MetricChange::AddBy(k),
        ),
        ProgressUpdatePayload::UpdateEndBlock(n) => (MetricFamily::EndBlock, MetricChange::SetTo(n)),
        ProgressUpdatePayload::SetStartBlock(n) => (MetricFamily::StartBlock, MetricChange::SetTo(n)),
    }
}

/// The records of all handlers, in the order they were created.
pub struct ProgressManager {
    pub state: Vec<ProgressState>,
}

impl ProgressManager {
    /// No records yet.
    pub fn new() -> (r: Self)
        ensures
            r.state@.len() == 0,
    {
        ProgressManager { state: Vec::new() }
    }

    /// Adds a record labelled `label`, all at zero, and returns its channel.
    pub fn create_progress(&mut self, label: String) -> (r: ProgressChannel)
        ensures
            r.id == old(self).state@.len(),
            final(self).state@.len() == old(self).state@.len() + 1,
            forall|i: int| 0 <= i < old(self).state@.len() ==> final(self).state@[i] == old(self).state@[i],
            final(self).state@[r.id as int].label@ == label@,
            final(self).state@[r.id as int].start_block == 0,
            final(self).state@[r.id as int].current_block == 0,
            final(self).state@[r.id as int].end_block == 0,
    {
        let id = self.state.len();
        self.state.push(ProgressState { label, start_block: 0, current_block: 0, end_block: 0 });
        ProgressChannel { id }
    }

    /// Applies the message `payload` of channel `id` to its record.
    pub fn apply(&mut self, id: usize, payload: ProgressUpdatePayload)
        requires
            id < old(self).state@.len(),
        ensures
            final(self).state@ == old(self).state@.update(
                id as int,
                applied(old(self).state@[id as int], payload),
            ),
    {
        let old_state = &self.state[id];
        let mut s = ProgressState {
            label: old_state.label.clone(),
            start_block: old_state.start_block,
            current_block: old_state.current_block,
            end_block: old_state.end_block,
        };
        match payload {
            ProgressUpdatePayload::IncrementProcessedBlocks(k) => {
                s.current_block = s.current_block.saturating_add(k);
            },
            ProgressUpdatePayload::UpdateEndBlock(n) => {
                s.end_block = n;
            },
            ProgressUpdatePayload::SetStartBlock(n) => {
                s.start_block = n;
            },
        }
        self.state.set(id, s);
    }
}

} // verus!
