use ghost_crab::config::ExecutionMode;
use ghost_crab::progress::{ProgressManager, ProgressUpdatePayload};
use ghost_crab::scheduler::{
    dispatch_for, BlockCursor, Dispatch, EventCursor, LatestBlockManager, TickPlan, EVENT_STEP,
};

fn walk(mode: ExecutionMode) -> (Vec<u64>, usize, Vec<usize>) {
    // logs per range start: 3 in [100,110), 2 in [110,120), none after
    let logs_for = |from: u64| -> Vec<usize> {
        match from {
            100 => vec![0, 1, 2],
            110 => vec![3, 4],
            _ => vec![],
        }
    };
    let mut cursor = EventCursor::new(100, 10);
    let mut cursors = vec![cursor.current_block];
    let mut invocations = 0;
    let mut order = Vec::new();
    for _ in 0..5 {
        match cursor.plan_tick(125) {
            TickPlan::Fetch { from_block, to_block, .. } => {
                assert!(to_block <= 125);
                let logs = logs_for(from_block);
                assert_eq!(dispatch_for(mode), match mode {
                    ExecutionMode::Parallel => Dispatch::SpawnEach,
                    ExecutionMode::Serial => Dispatch::InlineInOrder,
                });
                for log in logs {
                    invocations += 1;
                    order.push(log);
                }
                cursor.finish_tick(125, true);
                cursors.push(cursor.current_block);
            }
            TickPlan::Idle => {}
        }
    }
    (cursors, invocations, order)
}

#[test]
fn parallel_worker_walks_to_head_then_idles() {
    let (cursors, invocations, _) = walk(ExecutionMode::Parallel);
    assert_eq!(cursors, vec![100, 110, 120, 125]);
    assert_eq!(invocations, 5);
    let cursor = EventCursor::new(125, 10);
    assert_eq!(cursor.plan_tick(125), TickPlan::Idle);
}

#[test]
fn serial_worker_dispatches_in_fetch_order() {
    let (cursors, invocations, order) = walk(ExecutionMode::Serial);
    assert_eq!(cursors, vec![100, 110, 120, 125]);
    assert_eq!(invocations, 5);
    assert_eq!(order, vec![0, 1, 2, 3, 4]);
}

#[test]
fn failed_fetch_keeps_cursor() {
    let mut cursor = EventCursor::new(100, 10);
    cursor.finish_tick(125, false);
    assert_eq!(cursor.current_block, 100);
}

#[test]
fn head_below_cursor_is_idle() {
    let mut cursor = EventCursor::new(200, 10);
    assert_eq!(cursor.plan_tick(150), TickPlan::Idle);
    cursor.finish_tick(150, true);
    assert_eq!(cursor.current_block, 200);
}

#[test]
fn range_end_is_bounded_by_head_and_step() {
    let cursor = EventCursor::new(0, EVENT_STEP);
    assert_eq!(
        cursor.plan_tick(1_000_000),
        TickPlan::Fetch { from_block: 0, to_block: 10_000, is_historical: true }
    );
    let cursor = EventCursor::new(u64::MAX - 3, 10);
    assert_eq!(
        cursor.plan_tick(u64::MAX),
        TickPlan::Fetch { from_block: u64::MAX - 3, to_block: u64::MAX, is_historical: false }
    );
    let cursor = EventCursor::new(95, 10);
    assert_eq!(
        cursor.plan_tick(100),
        TickPlan::Fetch { from_block: 95, to_block: 100, is_historical: false }
    );
}

#[test]
fn block_worker_strides_by_step_below_head() {
    let mut cursor = BlockCursor::new(10, 5);
    assert_eq!(cursor.tick(22), Some(10));
    assert_eq!(cursor.tick(22), Some(15));
    assert_eq!(cursor.tick(22), Some(20));
    assert_eq!(cursor.tick(22), None);
    assert_eq!(cursor.current_block, 25);
    let mut top = BlockCursor::new(u64::MAX - 1, 5);
    assert_eq!(top.tick(u64::MAX), Some(u64::MAX - 1));
    assert_eq!(top.current_block, u64::MAX);
    assert_eq!(top.tick(u64::MAX), None);
}

#[test]
fn head_cache_lives_ten_seconds() {
    let mut head = LatestBlockManager::new(10_000, 0);
    assert_eq!(head.cached(0), None);
    head.record(500, 1_000);
    assert_eq!(head.cached(1_000), Some(500));
    assert_eq!(head.cached(10_999), Some(500));
    assert_eq!(head.cached(11_000), None);
    assert_eq!(head.cached(500), Some(500));
}

#[test]
fn tick_reports_units_then_end() {
    assert_eq!(
        ghost_crab::scheduler::tick_progress(3, 110),
        vec![ProgressUpdatePayload::IncrementProcessedBlocks(3), ProgressUpdatePayload::UpdateEndBlock(110)]
    );
    let mut pm = ProgressManager::new();
    let ch = pm.create_progress("A".to_string());
    for (count, end) in [(3u64, 110u64), (2, 120), (0, 125)] {
        for m in ghost_crab::scheduler::tick_progress(count, end) {
            pm.apply(ch.id, m);
        }
    }
    assert_eq!((pm.state[0].current_block, pm.state[0].end_block), (5, 125));
}
