//! Live statistics of a queue: counters that only grow and gauges that
//! follow the jobs through their states.

use vstd::prelude::*;

verus! {

/// A snapshot of a queue's statistics.
#[derive(Debug, Clone, Copy, PartialEq, Eq, Structural)]
pub struct QueueStats {
    /// Jobs accepted by `enqueue`, ever.
    pub total_enqueued: u64,
    /// Runs reported as completed, ever.
    pub total_processed: u64,
    /// Runs reported as failed, ever.
    pub total_failed: u64,
    /// Jobs handed back for another attempt, ever.
    pub total_retried: u64,
    /// Jobs waiting to be claimed.
    pub pending_count: u64,
    /// Jobs claimed and not yet reported.
    pub running_count: u64,
    /// Jobs moved to the dead-letter store.
    pub dead_letter_count: u64,
}

impl QueueStats {
    /// The statistics of a queue that has seen nothing yet.
    pub open spec fn zero() -> QueueStats {
        QueueStats {
            total_enqueued: 0,
            total_processed: 0,
            total_failed: 0,
            total_retried: 0,
            pending_count: 0,
            running_count: 0,
            dead_letter_count: 0,
        }
    }

    /// One less, but never below zero.
    pub open spec fn lowered(gauge: u64) -> u64 {
        if gauge > 0 {
            (gauge - 1) as u64
        } else {
            0
        }
    }

    /// The statistics after a job was accepted.
    pub open spec fn after_enqueue(self) -> QueueStats {
        QueueStats {
            total_enqueued: (self.total_enqueued + 1) as u64,
            pending_count: (self.pending_count + 1) as u64,
            ..self
        }
    }

    /// The statistics after a job was claimed.
    pub open spec fn after_claim(self) -> QueueStats {
        QueueStats {
            pending_count: Self::lowered(self.pending_count),
            running_count: (self.running_count + 1) as u64,
            ..self
        }
    }

    /// The statistics after a run was reported as completed.
    pub open spec fn after_processed(self) -> QueueStats {
        QueueStats {
            total_processed: (self.total_processed + 1) as u64,
            running_count: Self::lowered(self.running_count),
            ..self
        }
    }

    /// The statistics after a run was reported as failed.
    pub open spec fn after_failed(self) -> QueueStats {
        QueueStats {
            total_failed: (self.total_failed + 1) as u64,
            running_count: Self::lowered(self.running_count),
            ..self
        }
    }

    /// The statistics after a job was handed back for another attempt.
    pub open spec fn after_retried(self) -> QueueStats {
        QueueStats { total_retried: (self.total_retried + 1) as u64, ..self }
    }

    /// The statistics after a job was moved to the dead-letter store.
    pub open spec fn after_dead_letter(self) -> QueueStats {
        QueueStats { dead_letter_count: (self.dead_letter_count + 1) as u64, ..self }
    }
}

impl Default for QueueStats {
    fn default() -> (stats: QueueStats)
        ensures
            stats == QueueStats::zero(),
    {
        QueueStats {
            total_enqueued: 0,
            total_processed: 0,
            total_failed: 0,
            total_retried: 0,
            pending_count: 0,
            running_count: 0,
            dead_letter_count: 0,
        }
    }
}

/// Keeps a queue's statistics up to date, one update per state change.
#[derive(Debug)]
pub struct StatsTracker {
    stats: QueueStats,
}

impl View for StatsTracker {
    type V = QueueStats;

    closed spec fn view(&self) -> QueueStats {
        self.stats
    }
}

impl StatsTracker {
    /// A tracker with every counter and gauge at zero.
    pub fn new() -> (tracker: StatsTracker)
        ensures
            tracker@ == QueueStats::zero(),
    {
        StatsTracker { stats: QueueStats::default() }
    }

    /// Records that a job was accepted: one more enqueued, one more pending.
    pub fn increment_enqueued(&mut self)
        requires
            old(self)@.total_enqueued < u64::MAX,
            old(self)@.pending_count < u64::MAX,
        ensures
            final(self)@ == old(self)@.after_enqueue(),
    {
        self.stats.total_enqueued = self.stats.total_enqueued + 1;
        self.stats.pending_count = self.stats.pending_count + 1;
    }

    /// Records that a run was completed: one more processed, one less
    /// running (but never below zero).
    pub fn increment_processed(&mut self)
        requires
            old(self)@.total_processed < u64::MAX,
        ensures
            final(self)@ == old(self)@.after_processed(),
    {
        self.stats.total_processed = self.stats.total_processed + 1;
        if self.stats.running_count > 0 {
            self.stats.running_count = self.stats.running_count - 1;
        }
    }

    /// Records that a run failed: one more failed, one less running (but
    /// never below zero).
    pub fn increment_failed(&mut self)
        requires
            old(self)@.total_failed < u64::MAX,
        ensures
            final(self)@ == old(self)@.after_failed(),
    {
        self.stats.total_failed = self.stats.total_failed + 1;
        if self.stats.running_count > 0 {
            self.stats.running_count = self.stats.running_count - 1;
        }
    }

    /// Records that a job was handed back for another attempt.
    pub fn increment_retried(&mut self)
        requires
            old(self)@.total_retried < u64::MAX,
        ensures
            final(self)@ == old(self)@.after_retried(),
    {
        self.stats.total_retried = self.stats.total_retried + 1;
    }

    /// Records that a job was moved to the dead-letter store.
    pub fn increment_dead_letter(&mut self)
        requires
            old(self)@.dead_letter_count < u64::MAX,
        ensures
            final(self)@ == old(self)@.after_dead_letter(),
    {
        self.stats.dead_letter_count = self.stats.dead_letter_count + 1;
    }

    /// Records that a job was claimed: one less pending (but never below
    /// zero), one more running.
    pub fn mark_running(&mut self)
        requires
            old(self)@.running_count < u64::MAX,
        ensures
            final(self)@ == old(self)@.after_claim(),
    {
        if self.stats.pending_count > 0 {
            self.stats.pending_count = self.stats.pending_count - 1;
        }
        self.stats.running_count = self.stats.running_count + 1;
    }

    /// The current statistics.
    pub fn get_stats(&self) -> (stats: QueueStats)
        ensures
            stats == self@,
    {
        self.stats
    }

    /// Sets every counter and gauge back to zero.
    pub fn reset(&mut self)
        ensures
            final(self)@ == QueueStats::zero(),
    {
        self.stats = QueueStats::default();
    }
}

impl Default for StatsTracker {
    fn default() -> (tracker: StatsTracker)
        ensures
            tracker@ == QueueStats::zero(),
    {
        StatsTracker::new()
    }
}

} // verus!
