//! The refresh scheduler's decisions.
//!
//! Two independent timers drive the background work: a configurable
//! refresh interval for fetching snapshots and a fixed, shorter flush
//! interval for draining the pending-change queue. The caller owns the
//! clock and the network; this type only decides, from the current time,
//! whether a cycle is due, and records when one was issued.

use vstd::prelude::*;

verus! {

/// Seconds between drains of the pending-change queue.
pub const FLUSH_INTERVAL: u64 = 2;

/// The time-driven state of the background refresher: when each cycle
/// last ran and how long each waits.
pub struct RefreshScheduler {
    /// Seconds between snapshot fetches.
    pub refresh_interval: u64,
    /// Seconds between queue drains.
    pub flush_interval: u64,
    /// When the last fetch was issued, in seconds.
    pub last_refresh: u64,
    /// When the last drain was issued, in seconds.
    pub last_flush: u64,
}

impl RefreshScheduler {
    /// A scheduler that has never fetched nor drained.
    pub fn new(refresh_interval: u64) -> (r: Self)
        ensures
            r == (RefreshScheduler {
                refresh_interval,
                flush_interval: FLUSH_INTERVAL,
                last_refresh: 0u64,
                last_flush: 0u64,
            }),
    {
        RefreshScheduler {
            refresh_interval,
            flush_interval: FLUSH_INTERVAL,
            last_refresh: 0,
            last_flush: 0,
        }
    }

    /// A fetch is due exactly when a full refresh interval has elapsed
    /// since the last one was issued.
    pub fn should_refresh(&self, now: u64) -> (r: bool)
        ensures
            r == (now >= self.last_refresh + self.refresh_interval),
    {
        match self.last_refresh.checked_add(self.refresh_interval) {
            Some(due) => now >= due,
            None => false,
        }
    }

    /// Record that a fetch was issued at `now`, whatever its outcome, so
    /// that a failure waits a full interval rather than retrying tightly.
    pub fn note_refresh(&mut self, now: u64)
        ensures
            *final(self) == (RefreshScheduler { last_refresh: now, ..*old(self) }),
    {
        self.last_refresh = now;
    }

    /// A drain is due exactly when a full flush interval has elapsed since
    /// the last one was issued.
    pub fn should_flush(&self, now: u64) -> (r: bool)
        ensures
            r == (now >= self.last_flush + self.flush_interval),
    {
        match self.last_flush.checked_add(self.flush_interval) {
            Some(due) => now >= due,
            None => false,
        }
    }

    /// Record that a drain was issued at `now`.
    pub fn note_flush(&mut self, now: u64)
        ensures
            *final(self) == (RefreshScheduler { last_flush: now, ..*old(self) }),
    {
        self.last_flush = now;
    }
}

} // verus!
