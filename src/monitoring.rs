//! Per-handler task counters and health.
//!
//! Each handler counts the tasks it started, completed and failed, and
//! remembers its last error and when it was last active. Its health follows
//! from how long it has been idle: over five minutes is a warning, over
//! fifteen a failure. Times are milliseconds on the caller's clock.

use vstd::prelude::*;

verus! {

/// The kind of a handler.
#[derive(Clone, Copy, Debug, PartialEq, Eq)]
pub enum HandlerType {
    Event,
    Block,
    Template,
}

/// The health of a handler.
#[derive(Clone, Copy, Debug, PartialEq, Eq)]
pub enum HealthStatus {
    Healthy,
    Warning,
    Failed,
}

/// Idle for longer than this is a warning: five minutes.
pub const WARNING_THRESHOLD_MS: u64 = 300_000;

/// Idle for longer than this is a failure: fifteen minutes.
pub const FAILURE_THRESHOLD_MS: u64 = 900_000;

/// The health of a handler idle for `idle` milliseconds.
pub open spec fn health_of(idle: u64) -> HealthStatus {
    if idle > FAILURE_THRESHOLD_MS {
        HealthStatus::Failed
    } else if idle > WARNING_THRESHOLD_MS {
        HealthStatus::Warning
    } else {
        HealthStatus::Healthy
    }
}

/// The health of a handler idle for `idle` milliseconds.
pub fn determine_health(idle: u64) -> (r: HealthStatus)
    ensures
        r == health_of(idle),
{
    if idle > FAILURE_THRESHOLD_MS {
        HealthStatus::Failed
    } else if idle > WARNING_THRESHOLD_MS {
        HealthStatus::Warning
    } else {
        HealthStatus::Healthy
    }
}

/// `now - then`, or zero when `then` is later.
pub open spec fn elapsed(then: u64, now: u64) -> u64 {
    if now >= then {
        (now - then) as u64
    } else {
        0
    }
}

/// `x + 1` modulo 2^64, as an atomic counter counts.
pub open spec fn inc(x: u64) -> u64 {
    if x == u64::MAX {
        0
    } else {
        (x + 1) as u64
    }
}

/// `x - 1` modulo 2^64, as an atomic counter counts.
pub open spec fn dec(x: u64) -> u64 {
    if x == 0 {
        u64::MAX
    } else {
        (x - 1) as u64
    }
}

/// A snapshot of a handler's counters and health at some time.
#[derive(Clone, Debug)]
pub struct HandlerStatus {
    pub name: String,
    pub handler_type: HandlerType,
    pub active_tasks: u64,
    pub failed_tasks: u64,
    pub processed_tasks: u64,
    /// How long ago the last error happened, and its message.
    pub last_error: Option<(u64, String)>,
    pub idle_duration: u64,
    pub last_processed_block: u64,
    pub health_status: HealthStatus,
}

/// The counters of one handler.
#[derive(Clone, Debug)]
pub struct HandlerMetrics {
    pub name: String,
    pub handler_type: HandlerType,
    pub active_tasks: u64,
    pub failed_tasks: u64,
    pub processed_tasks: u64,
    /// When the last error happened, and its message.
    pub last_error: Option<(u64, String)>,
    pub last_active: u64,
    pub last_processed_block: u64,
}

/// The snapshot of `m` at time `now`.
pub open spec fn status_of(m: HandlerMetrics, now: u64) -> HandlerStatus {
    HandlerStatus {
        name: m.name,
        handler_type: m.handler_type,
        active_tasks: m.active_tasks,
        failed_tasks: m.failed_tasks,
        processed_tasks: m.processed_tasks,
        last_error: match m.last_error {
            Some((at, msg)) => Some((elapsed(at, now), msg)),
            None => None,
        },
        idle_duration: elapsed(m.last_active, now),
        last_processed_block: m.last_processed_block,
        health_status: health_of(elapsed(m.last_active, now)),
    }
}

impl HandlerMetrics {
    /// Fresh counters for handler `name`, active at `now`.
    pub fn new(name: String, handler_type: HandlerType, now: u64) -> (r: Self)
        ensures
            r.name == name,
            r.handler_type == handler_type,
            r.active_tasks == 0,
            r.failed_tasks == 0,
            r.processed_tasks == 0,
            r.last_error is None,
            r.last_active == now,
            r.last_processed_block == 0,
    {
        HandlerMetrics {
            name,
            handler_type,
            active_tasks: 0,
            failed_tasks: 0,
            processed_tasks: 0,
            last_error: None,
            last_active: now,
            last_processed_block: 0,
        }
    }

    /// A task started at `now`: one more active task.
    pub fn task_started(&mut self, now: u64)
        ensures
            *final(self) == (HandlerMetrics {
                active_tasks: inc(old(self).active_tasks),
                last_active: now,
                ..*old(self)
            }),
    {
        self.active_tasks = self.active_tasks.wrapping_add(1);
        self.last_active = now;
    }

    /// A task for block `block_number` completed: one active task fewer, one
    /// more processed, and the highest processed block updated.
    pub fn task_completed(&mut self, block_number: u64)
        ensures
            *final(self) == (HandlerMetrics {
                active_tasks: dec(old(self).active_tasks),
                processed_tasks: inc(old(self).processed_tasks),
                last_processed_block: if block_number > old(self).last_processed_block {
                    block_number
                } else {
                    old(self).last_processed_block
                },
                ..*old(self)
            }),
    {
        self.active_tasks = self.active_tasks.wrapping_sub(1);
        self.processed_tasks = self.processed_tasks.wrapping_add(1);
        if block_number > self.last_processed_block {
            self.last_processed_block = block_number;
        }
    }

    /// A task failed at `now` with `error`: one active task fewer, one more
    /// failed, and the error remembered.
    pub fn task_failed(&mut self, error: String, now: u64)
        ensures
            *final(self) == (HandlerMetrics {
                active_tasks: dec(old(self).active_tasks),
                failed_tasks: inc(old(self).failed_tasks),
                last_error: Some((now, error)),
                ..*old(self)
            }),
    {
        self.active_tasks = self.active_tasks.wrapping_sub(1);
        self.failed_tasks = self.failed_tasks.wrapping_add(1);
        self.last_error = Some((now, error));
    }

    /// The snapshot of the counters at `now`.
    pub fn get_status(&self, now: u64) -> (r: HandlerStatus)
        ensures
            r == status_of(*self, now),
    {
        let idle_duration = now.saturating_sub(self.last_active);
        let last_error = match &self.last_error {
            Some((at, msg)) => Some((now.saturating_sub(*at), msg.clone())),
            None => None,
        };
        HandlerStatus {
            name: self.name.clone(),
            handler_type: self.handler_type,
            active_tasks: self.active_tasks,
            failed_tasks: self.failed_tasks,
            processed_tasks: self.processed_tasks,
            last_error,
            idle_duration,
            last_processed_block: self.last_processed_block,
            health_status: determine_health(idle_duration),
        }
    }
}

/// The counters of all handlers, in the order they were registered.
pub struct MonitoringSystem {
    pub handlers: Vec<HandlerMetrics>,
}

impl MonitoringSystem {
    /// No handlers yet.
    pub fn new() -> (r: Self)
        ensures
            r.handlers@.len() == 0,
    {
        MonitoringSystem { handlers: Vec::new() }
    }

    /// Adds fresh counters for handler `name`, active at `now`, and returns
    /// their position.
    pub fn register_handler(&mut self, name: String, handler_type: HandlerType, now: u64) -> (r:
        usize)
        ensures
            r == old(self).handlers@.len(),
            final(self).handlers@.len() == old(self).handlers@.len() + 1,
            final(self).handlers@.drop_last() == old(self).handlers@,
            final(self).handlers@.last().name == name,
            final(self).handlers@.last().handler_type == handler_type,
            final(self).handlers@.last().active_tasks == 0,
            final(self).handlers@.last().failed_tasks == 0,
            final(self).handlers@.last().processed_tasks == 0,
            final(self).handlers@.last().last_error is None,
            final(self).handlers@.last().last_active == now,
            final(self).handlers@.last().last_processed_block == 0,
    {
        let id = self.handlers.len();
        self.handlers.push(HandlerMetrics::new(name, handler_type, now));
        assert(self.handlers@.drop_last() =~= old(self).handlers@);
        id
    }

    /// The snapshots of all handlers at `now`, in registration order.
    pub fn get_all_statuses(&self, now: u64) -> (r: Vec<HandlerStatus>)
        ensures
            r@ == self.handlers@.map_values(|m: HandlerMetrics| status_of(m, now)),
    {
        let mut statuses: Vec<HandlerStatus> = Vec::new();
        let mut i: usize = 0;
        while i < self.handlers.len()
            invariant
                i <= self.handlers@.len(),
                statuses@ == self.handlers@.subrange(0, i as int).map_values(
                    |m: HandlerMetrics| status_of(m, now),
                ),
            decreases self.handlers@.len() - i,
        {
            statuses.push(self.handlers[i].get_status(now));
            assert(self.handlers@.subrange(0, i + 1).map_values(|m: HandlerMetrics| status_of(m, now))
                =~= self.handlers@.subrange(0, i as int).map_values(
                |m: HandlerMetrics| status_of(m, now),
            ).push(status_of(self.handlers@[i as int], now)));
            i = i + 1;
        }
        assert(self.handlers@.subrange(0, i as int) =~= self.handlers@);
        statuses
    }

    /// The snapshots at `now` of the handlers that are not healthy, in
    /// registration order.
    pub fn get_unhealthy_handlers(&self, now: u64) -> (r: Vec<HandlerStatus>)
        ensures
            r@ == self.handlers@.map_values(|m: HandlerMetrics| status_of(m, now)).filter(
                |s: HandlerStatus| s.health_status != HealthStatus::Healthy,
            ),
    {
        let mut out: Vec<HandlerStatus> = Vec::new();
        let mut i: usize = 0;
        while i < self.handlers.len()
            invariant
                i <= self.handlers@.len(),
                out@ == self.handlers@.subrange(0, i as int).map_values(
                    |m: HandlerMetrics| status_of(m, now),
                ).filter(|s: HandlerStatus| s.health_status != HealthStatus::Healthy),
            decreases self.handlers@.len() - i,
        {
            let status = self.handlers[i].get_status(now);
            let ghost prefix = self.handlers@.subrange(0, i as int).map_values(
                |m: HandlerMetrics| status_of(m, now),
            );
            let ghost next = self.handlers@.subrange(0, i + 1).map_values(
                |m: HandlerMetrics| status_of(m, now),
            );
            assert(next =~= prefix.push(status));
            assert(next.drop_last() =~= prefix);
            proof {
                reveal(Seq::filter);
            }
            let healthy = match status.health_status {
                HealthStatus::Healthy => true,
                _ => false,
            };
            if !healthy {
                out.push(status);
            }
            i = i + 1;
        }
        assert(self.handlers@.subrange(0, i as int) =~= self.handlers@);
        out
    }
}

} // verus!
