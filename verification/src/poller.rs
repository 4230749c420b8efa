//! The polling scheduler: a state machine driven by clock ticks and
//! fetch results. The driving loop performs the returned actions
//! (sleeping and fetching) and reports each outcome back; every
//! decision — retry, skip, back off, re-arm — is made here.

use vstd::prelude::*;
use crate::fetch::{backoff_delay_ms, backoff_delay_spec, FetchError, MAX_FETCH_ATTEMPTS};
use crate::metrics::{apply_stat, Metrics, RateLimitStatus, RepoStat};

verus! {

/// Saturating addition of two times in seconds.
pub open spec fn sat_add_spec(a: u64, b: u64) -> u64 {
    if a + b > u64::MAX {
        u64::MAX as u64
    } else {
        (a + b) as u64
    }
}

/// Adds two times, saturating, matching `sat_add_spec`.
fn sat_add(a: u64, b: u64) -> (res: u64)
    ensures
        res == sat_add_spec(a, b),
{
    if a > u64::MAX - b {
        u64::MAX
    } else {
        a + b
    }
}

/// Where the poller stands.
#[derive(Clone, Copy, Debug, PartialEq, Eq, Structural)]
pub enum Phase {
    /// Between cycles, waiting for the next tick.
    Idle,
    /// Mid-cycle, awaiting the result for the current entity.
    Fetching,
    /// Past the entities, awaiting the global rate-limit status.
    FetchingRateLimit,
    /// Shut down; terminal.
    Stopped,
}

/// What the driving loop must do next.
#[derive(Clone, Copy, Debug, PartialEq, Eq, Structural)]
pub enum Action {
    /// Sleep until the absolute time `until` (not at all if it has
    /// passed), then report a tick.
    SleepUntil {
        /// When to wake, in seconds.
        until: u64,
    },
    /// After `delay_ms`, fetch statistics for the entity at `idx`
    /// and report the result.
    FetchRepo {
        /// Index into the tracked entities.
        idx: usize,
        /// How long to hold off first, in milliseconds.
        delay_ms: u64,
    },
    /// Fetch the global rate-limit status and report the result.
    FetchRateLimit,
    /// The poller has stopped; do nothing further.
    Halt,
}

/// The periodic poller. It owns the interval timer arithmetic and
/// the per-cycle progress; the registry is handed in with each
/// result so updates are applied as soon as they arrive.
pub struct Poller {
    /// The tracked repository identifiers, fixed at construction.
    pub entities: Vec<String>,
    /// Seconds between cycle starts; always positive.
    pub interval: u64,
    /// Where the poller stands.
    pub phase: Phase,
    /// When idle: the time the next cycle is due. Never earlier
    /// than a reported rate-limit reset.
    pub next_tick: u64,
    /// When the current (or last) cycle started.
    pub cycle_start: u64,
    /// Mid-cycle: which entity is being fetched.
    pub idx: usize,
    /// Mid-cycle: failed tries for the current entity so far.
    pub attempt: u32,
}

impl Poller {
    /// The poller invariant.
    pub open spec fn wf(self) -> bool {
        &&& self.interval > 0
        &&& (self.phase is Fetching ==> self.idx < self.entities@.len() && self.attempt
            < MAX_FETCH_ATTEMPTS)
    }

    /// The construction-time parameters never change.
    pub open spec fn same_setup(a: Poller, b: Poller) -> bool {
        a.entities == b.entities && a.interval == b.interval
    }

    /// The cycle moved past the current entity: on to the next one,
    /// or to the rate-limit fetch after the last.
    pub open spec fn advanced(pre: Poller, post: Poller, a: Action) -> bool {
        &&& post.cycle_start == pre.cycle_start
        &&& post.next_tick == pre.next_tick
        &&& if pre.idx + 1 < pre.entities@.len() {
            &&& post.phase is Fetching
            &&& post.idx == pre.idx + 1
            &&& post.attempt == 0
            &&& a == (Action::FetchRepo { idx: (pre.idx + 1) as usize, delay_ms: 0u64 })
        } else {
            &&& post.phase is FetchingRateLimit
            &&& a == Action::FetchRateLimit
        }
    }

    /// How one entity-fetch result moves the poller on: skipped,
    /// retried with backoff, or the cycle aborted to no earlier
    /// than the reported reset time.
    pub open spec fn fetch_step(
        pre: Poller,
        post: Poller,
        result: Result<RepoStat, FetchError>,
        a: Action,
    ) -> bool {
        &&& post.wf()
        &&& Self::same_setup(pre, post)
        &&& (result is Ok || result matches Err(FetchError::NotFound) || result matches Err(
            FetchError::Auth,
        )) ==> Self::advanced(pre, post, a)
        &&& result matches Err(FetchError::Transient) ==> if pre.attempt + 1
            < MAX_FETCH_ATTEMPTS {
            &&& post.phase is Fetching
            &&& post.idx == pre.idx
            &&& post.attempt == pre.attempt + 1
            &&& post.cycle_start == pre.cycle_start
            &&& post.next_tick == pre.next_tick
            &&& a == (Action::FetchRepo {
                idx: pre.idx,
                delay_ms: backoff_delay_spec(pre.attempt as nat) as u64,
            })
        } else {
            Self::advanced(pre, post, a)
        }
        &&& result matches Err(FetchError::RateLimited { reset }) ==> {
            &&& post.phase is Idle
            &&& post.next_tick == (if sat_add_spec(pre.cycle_start, pre.interval) >= reset {
                sat_add_spec(pre.cycle_start, pre.interval)
            } else {
                reset
            })
            &&& post.next_tick >= reset
            &&& a == (Action::SleepUntil { until: post.next_tick })
        }
    }

    /// How the cycle-ending rate-limit result moves the poller on:
    /// back to idle, the next cycle due one interval after this one
    /// started.
    pub open spec fn cycle_end_step(pre: Poller, post: Poller, a: Action) -> bool {
        &&& post.wf()
        &&& Self::same_setup(pre, post)
        &&& post.phase is Idle
        &&& post.next_tick == sat_add_spec(pre.cycle_start, pre.interval)
        &&& a == (Action::SleepUntil { until: post.next_tick })
    }

    /// A fresh poller: idle, with its first cycle due at `now`.
    pub fn new(entities: Vec<String>, interval: u64, now: u64) -> (res: Poller)
        requires
            interval > 0,
        ensures
            res.wf(),
            res.entities == entities,
            res.interval == interval,
            res.phase is Idle,
            res.next_tick == now,
    {
        Poller {
            entities,
            interval,
            phase: Phase::Idle,
            next_tick: now,
            cycle_start: now,
            idx: 0,
            attempt: 0,
        }
    }

    /// A tick of the clock while idle or stopped. Starts a cycle
    /// when one is due and otherwise says how long to sleep; before
    /// `next_tick` nothing is fetched and nothing changes.
    pub fn on_tick(&mut self, now: u64) -> (a: Action)
        requires
            old(self).wf(),
            old(self).phase is Idle || old(self).phase is Stopped,
        ensures
            final(self).wf(),
            Self::same_setup(*old(self), *final(self)),
            old(self).phase is Stopped ==> *final(self) == *old(self) && a == Action::Halt,
            old(self).phase is Idle && now < old(self).next_tick ==> *final(self) == *old(self)
                && a == (Action::SleepUntil { until: old(self).next_tick }),
            old(self).phase is Idle && now >= old(self).next_tick && old(self).entities@.len() > 0
                ==> {
                &&& final(self).phase is Fetching
                &&& final(self).cycle_start == now
                &&& final(self).idx == 0
                &&& final(self).attempt == 0
                &&& final(self).next_tick == old(self).next_tick
                &&& a == (Action::FetchRepo { idx: 0usize, delay_ms: 0u64 })
            },
            old(self).phase is Idle && now >= old(self).next_tick && old(self).entities@.len() == 0
                ==> {
                &&& final(self).phase is FetchingRateLimit
                &&& final(self).cycle_start == now
                &&& final(self).next_tick == old(self).next_tick
                &&& a == Action::FetchRateLimit
            },
    {
        match self.phase {
            Phase::Stopped => Action::Halt,
            _ => {
                if now < self.next_tick {
                    Action::SleepUntil { until: self.next_tick }
                } else if self.entities.len() > 0 {
                    self.phase = Phase::Fetching;
                    self.cycle_start = now;
                    self.idx = 0;
                    self.attempt = 0;
                    Action::FetchRepo { idx: 0, delay_ms: 0 }
                } else {
                    self.phase = Phase::FetchingRateLimit;
                    self.cycle_start = now;
                    Action::FetchRateLimit
                }
            },
        }
    }

    /// Moves past the current entity.
    fn advance(&mut self) -> (a: Action)
        requires
            old(self).wf(),
            old(self).phase is Fetching,
        ensures
            final(self).wf(),
            Self::same_setup(*old(self), *final(self)),
            Self::advanced(*old(self), *final(self), a),
    {
        if self.idx < self.entities.len() - 1 {
            self.idx = self.idx + 1;
            self.attempt = 0;
            Action::FetchRepo { idx: self.idx, delay_ms: 0 }
        } else {
            self.phase = Phase::FetchingRateLimit;
            Action::FetchRateLimit
        }
    }

    /// The result of one entity fetch. A success is applied to the
    /// registry wholesale, touching only that repository's row. A
    /// `NotFound` or `Auth` failure skips the entity, leaving every
    /// gauge — including that entity's stale one, if any — exactly
    /// as it was. A `Transient` failure is retried with exponential
    /// backoff up to the attempt bound, then skipped. A
    /// `RateLimited` failure aborts the rest of the cycle and defers
    /// the next one to no earlier than the reported reset time.
    pub fn on_fetch_result(
        &mut self,
        registry: &mut Metrics,
        result: Result<RepoStat, FetchError>,
    ) -> (a: Action)
        requires
            old(self).wf(),
            old(self).phase is Fetching,
            old(registry).wf(),
        ensures
            Self::fetch_step(*old(self), *final(self), result, a),
            final(registry).wf(),
            match result {
                Ok(stat) => final(registry).rows@ == apply_stat(old(registry).rows@, stat)
                    && final(registry).rate_limit == old(registry).rate_limit,
                Err(_) => *final(registry) == *old(registry),
            },
    {
        match result {
            Ok(stat) => {
                registry.set_repo_stat(stat);
                self.advance()
            },
            Err(FetchError::NotFound) => self.advance(),
            Err(FetchError::Auth) => self.advance(),
            Err(FetchError::Transient) => {
                if self.attempt + 1 < MAX_FETCH_ATTEMPTS {
                    let delay = backoff_delay_ms(self.attempt);
                    self.attempt = self.attempt + 1;
                    Action::FetchRepo { idx: self.idx, delay_ms: delay }
                } else {
                    self.advance()
                }
            },
            Err(FetchError::RateLimited { reset }) => {
                let due = sat_add(self.cycle_start, self.interval);
                let until = if due >= reset {
                    due
                } else {
                    reset
                };
                self.phase = Phase::Idle;
                self.next_tick = until;
                Action::SleepUntil { until }
            },
        }
    }

    /// The result of the cycle-ending rate-limit fetch. A success
    /// overwrites the rate-limit gauges; an error leaves the old
    /// status standing. Either way the cycle ends, and the next one
    /// is due one interval after this one started — so a cycle that
    /// ran longer than the interval begins its next run immediately,
    /// without queueing missed runs.
    pub fn on_rate_limit_result(
        &mut self,
        registry: &mut Metrics,
        result: Result<RateLimitStatus, FetchError>,
    ) -> (a: Action)
        requires
            old(self).wf(),
            old(self).phase is FetchingRateLimit,
            old(registry).wf(),
        ensures
            Self::cycle_end_step(*old(self), *final(self), a),
            final(registry).wf(),
            final(registry).rows@ == old(registry).rows@,
            match result {
                Ok(rl) => final(registry).rate_limit == Some(rl),
                Err(_) => final(registry).rate_limit == old(registry).rate_limit,
            },
    {
        match result {
            Ok(rl) => {
                registry.set_rate_limit(rl);
            },
            Err(_) => {},
        }
        self.phase = Phase::Idle;
        self.next_tick = sat_add(self.cycle_start, self.interval);
        Action::SleepUntil { until: self.next_tick }
    }

    /// The shutdown signal: stop, from any state. The driving loop
    /// abandons any in-progress sleep or backoff.
    pub fn on_shutdown(&mut self)
        ensures
            final(self).phase is Stopped,
            Self::same_setup(*old(self), *final(self)),
    {
        self.phase = Phase::Stopped;
    }
}

} // verus!
