//! Per-source counters and their snapshot.
//!
//! The counters are advisory: each one wraps around instead of failing.
//! A snapshot hands out the totals gathered since the previous snapshot and
//! starts the next interval at zero; the client gauge alone is left running.

use vstd::prelude::*;

verus! {

/// `a + b` in 64-bit wrap-around arithmetic.
pub open spec fn wrap_add(a: u64, b: u64) -> u64 {
    if a + b > u64::MAX {
        (a + b - 0x1_0000_0000_0000_0000) as u64
    } else {
        (a + b) as u64
    }
}

/// `a - b` in 64-bit wrap-around arithmetic.
pub open spec fn wrap_sub(a: u64, b: u64) -> u64 {
    if a < b {
        (a - b + 0x1_0000_0000_0000_0000) as u64
    } else {
        (a - b) as u64
    }
}

/// Counters of one source's capture worker and subscribers.
#[derive(Debug, Clone, Copy, PartialEq, Eq, Structural)]
pub struct SourceStats {
    /// Video frames seen by the worker.
    pub frames_in: u64,
    /// JPEG frames published.
    pub frames_out: u64,
    /// Microseconds spent encoding the published frames.
    pub encode_time_us: u64,
    /// Number of successful encodes.
    pub encode_count: u64,
    /// Bytes of JPEG published.
    pub bytes_out: u64,
    /// Frames skipped by the rate cap or lost to an encode failure.
    pub dropped: u64,
    /// Subscribers currently attached.
    pub clients: u64,
}

/// The totals of one interval, as taken by [`SourceStats::snapshot_and_reset`].
#[derive(Debug, Clone, Copy, PartialEq, Eq, Structural)]
pub struct StatsSnapshot {
    pub clients: u64,
    pub frames_in: u64,
    pub frames_out: u64,
    pub encode_time_us: u64,
    pub encode_count: u64,
    pub bytes_out: u64,
    pub dropped: u64,
}

impl SourceStats {
    /// The totals a snapshot of these counters would hold.
    pub open spec fn totals(&self) -> StatsSnapshot {
        StatsSnapshot {
            clients: self.clients,
            frames_in: self.frames_in,
            frames_out: self.frames_out,
            encode_time_us: self.encode_time_us,
            encode_count: self.encode_count,
            bytes_out: self.bytes_out,
            dropped: self.dropped,
        }
    }

    /// Counters at the start of an interval with `clients` subscribers attached.
    pub open spec fn fresh(clients: u64) -> StatsSnapshot {
        StatsSnapshot {
            clients,
            frames_in: 0,
            frames_out: 0,
            encode_time_us: 0,
            encode_count: 0,
            bytes_out: 0,
            dropped: 0,
        }
    }

    /// All counters at zero, no client attached.
    pub fn new() -> (stats: Self)
        ensures
            stats.totals() == Self::fresh(0),
    {
        SourceStats {
            frames_in: 0,
            frames_out: 0,
            encode_time_us: 0,
            encode_count: 0,
            bytes_out: 0,
            dropped: 0,
            clients: 0,
        }
    }

    /// Counts one video frame seen.
    pub fn record_frame_in(&mut self)
        ensures
            final(self).totals() == (StatsSnapshot {
                frames_in: wrap_add(old(self).frames_in, 1),
                ..old(self).totals()
            }),
    {
        self.frames_in = self.frames_in.wrapping_add(1);
    }

    /// Counts one frame that was not published.
    pub fn record_drop(&mut self)
        ensures
            final(self).totals() == (StatsSnapshot {
                dropped: wrap_add(old(self).dropped, 1),
                ..old(self).totals()
            }),
    {
        self.dropped = self.dropped.wrapping_add(1);
    }

    /// Counts one published frame of `bytes` bytes that took `encode_us`
    /// microseconds to encode.
    pub fn record_encoded(&mut self, encode_us: u64, bytes: u64)
        ensures
            final(self).totals() == (StatsSnapshot {
                frames_out: wrap_add(old(self).frames_out, 1),
                encode_time_us: wrap_add(old(self).encode_time_us, encode_us),
                encode_count: wrap_add(old(self).encode_count, 1),
                bytes_out: wrap_add(old(self).bytes_out, bytes),
                ..old(self).totals()
            }),
    {
        self.encode_time_us = self.encode_time_us.wrapping_add(encode_us);
        self.encode_count = self.encode_count.wrapping_add(1);
        self.bytes_out = self.bytes_out.wrapping_add(bytes);
        self.frames_out = self.frames_out.wrapping_add(1);
    }

    /// Takes the interval's totals and starts the next interval: every
    /// counter returns to zero, the client gauge is read and left as it is.
    pub fn snapshot_and_reset(&mut self) -> (snapshot: StatsSnapshot)
        ensures
            snapshot == old(self).totals(),
            final(self).totals() == Self::fresh(old(self).clients),
    {
        let snapshot = StatsSnapshot {
            clients: self.clients,
            frames_in: self.frames_in,
            frames_out: self.frames_out,
            encode_time_us: self.encode_time_us,
            encode_count: self.encode_count,
            bytes_out: self.bytes_out,
            dropped: self.dropped,
        };
        self.frames_in = 0;
        self.frames_out = 0;
        self.encode_time_us = 0;
        self.encode_count = 0;
        self.bytes_out = 0;
        self.dropped = 0;
        snapshot
    }
}

impl StatsSnapshot {
    /// Whether the interval is worth a log line: a client is attached or a
    /// frame went out.
    pub fn is_active(&self) -> (active: bool)
        ensures
            active == (self.clients > 0 || self.frames_out > 0),
    {
        self.clients > 0 || self.frames_out > 0
    }
}

} // verus!
