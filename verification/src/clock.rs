//! Hybrid logical clock.
//!
//! A timestamp is a 64-bit fixed-point value: the upper 48 bits hold
//! wall-clock milliseconds, the lower 16 bits a logical counter. For one node
//! the clock hands out strictly increasing timestamps; merging a remote
//! timestamp guarantees that every later local timestamp causally follows it.

use vstd::prelude::*;

verus! {

/// Number of counter values packed below the millisecond part.
pub const TIMESTAMP_COUNTER_SPAN: u64 = 65536;

/// Largest millisecond value that fits in the upper 48 bits.
pub const TIMESTAMP_MILLIS_MAX: u64 = 0xFFFF_FFFF_FFFF;

/// The millisecond part of a packed timestamp.
pub open spec fn spec_timestamp_millis(ts: u64) -> u64 {
    (ts / TIMESTAMP_COUNTER_SPAN) as u64
}

/// The logical-counter part of a packed timestamp.
pub open spec fn spec_timestamp_counter(ts: u64) -> u64 {
    (ts % TIMESTAMP_COUNTER_SPAN) as u64
}

/// Wall-clock milliseconds clamped so they fit in the upper 48 bits.
pub open spec fn spec_clamp_millis(now_ms: u64) -> u64 {
    if now_ms <= TIMESTAMP_MILLIS_MAX {
        now_ms
    } else {
        TIMESTAMP_MILLIS_MAX
    }
}

/// The timestamp the clock hands out when its latest timestamp is `latest`
/// and the wall clock reads `now_ms` milliseconds: the wall-clock reading
/// shifted into the millisecond part if that moves the clock forward,
/// otherwise the successor of `latest` (which bumps the logical counter and
/// lets it carry into the millisecond part when it wraps).
pub open spec fn spec_hlc_step(latest: u64, now_ms: u64) -> u64
    recommends
        latest < u64::MAX,
{
    let candidate = (spec_clamp_millis(now_ms) * TIMESTAMP_COUNTER_SPAN) as u64;
    if candidate > latest {
        candidate
    } else {
        (latest + 1) as u64
    }
}

/// The clock state after merging a remote timestamp.
pub open spec fn spec_hlc_merge(latest: u64, remote: u64) -> u64 {
    if remote > latest {
        remote
    } else {
        latest
    }
}

/// Deterministic total order on concurrent operations: by timestamp, ties
/// broken by the originating node's identifier. Every replica agrees on it.
pub open spec fn spec_tiebreak_lt(ts_a: u64, node_a: u128, ts_b: u64, node_b: u128) -> bool {
    ts_a < ts_b || (ts_a == ts_b && node_a < node_b)
}

/// Hybrid logical clock state of one node: the latest timestamp this node has
/// generated or merged in.
pub struct HybridLogicalClock {
    pub latest: u64,
}

impl HybridLogicalClock {
    /// A fresh clock, before any timestamp was generated or observed.
    pub fn new() -> (r: HybridLogicalClock)
        ensures
            r.latest == 0,
    {
        HybridLogicalClock { latest: 0 }
    }

    /// Generate the next local timestamp: strictly greater than every
    /// timestamp this clock has generated or merged before.
    pub fn new_timestamp(&mut self, now_ms: u64) -> (r: u64)
        requires
            old(self).latest < u64::MAX,
        ensures
            r == spec_hlc_step(old(self).latest, now_ms),
            r > old(self).latest,
            final(self).latest == r,
    {
        let millis = if now_ms <= TIMESTAMP_MILLIS_MAX {
            now_ms
        } else {
            TIMESTAMP_MILLIS_MAX
        };
        let candidate = millis * TIMESTAMP_COUNTER_SPAN;
        if candidate > self.latest {
            self.latest = candidate;
        } else {
            self.latest = self.latest + 1;
        }
        self.latest
    }

    /// Merge a remote timestamp so that every timestamp generated later
    /// causally follows it.
    pub fn update_with_timestamp(&mut self, remote: u64)
        ensures
            final(self).latest == spec_hlc_merge(old(self).latest, remote),
            final(self).latest >= remote,
            final(self).latest >= old(self).latest,
    {
        if remote > self.latest {
            self.latest = remote;
        }
    }
}

/// Clock monotonicity: two timestamps generated in sequence by one node are
/// strictly increasing, whatever the wall clock read at either step.
pub proof fn lemma_clock_monotonic(latest: u64, now_1: u64, now_2: u64)
    requires
        latest < u64::MAX,
        spec_hlc_step(latest, now_1) < u64::MAX,
    ensures
        spec_hlc_step(latest, now_1) < spec_hlc_step(spec_hlc_step(latest, now_1), now_2),
{
}

/// Causality preservation: after a remote timestamp is merged, the next
/// locally generated timestamp is strictly greater than it.
pub proof fn lemma_causality(latest: u64, remote: u64, now_ms: u64)
    requires
        spec_hlc_merge(latest, remote) < u64::MAX,
    ensures
        spec_hlc_step(spec_hlc_merge(latest, remote), now_ms) > remote,
{
}

/// The tie-broken order on `(timestamp, node)` pairs is total: of two
/// distinct pairs, exactly one precedes the other.
pub proof fn lemma_tiebreak_total(ts_a: u64, node_a: u128, ts_b: u64, node_b: u128)
    ensures
        spec_tiebreak_lt(ts_a, node_a, ts_b, node_b) || spec_tiebreak_lt(
            ts_b,
            node_b,
            ts_a,
            node_a,
        ) || (ts_a == ts_b && node_a == node_b),
        !(spec_tiebreak_lt(ts_a, node_a, ts_b, node_b) && spec_tiebreak_lt(
            ts_b,
            node_b,
            ts_a,
            node_a,
        )),
{
}

/// Whether operation `a` precedes operation `b` in the deterministic total
/// order every replica shares.
pub fn tiebreak_lt(ts_a: u64, node_a: u128, ts_b: u64, node_b: u128) -> (r: bool)
    ensures
        r == spec_tiebreak_lt(ts_a, node_a, ts_b, node_b),
{
    ts_a < ts_b || (ts_a == ts_b && node_a < node_b)
}

} // verus!
