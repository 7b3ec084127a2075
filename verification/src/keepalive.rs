//! Per-connection liveness record: the last challenge token sent, when it was
//! sent, when a response last arrived, and the measured round-trip time.
//! Timestamps are milliseconds on the caller's monotonic clock.

use vstd::prelude::*;

verus! {

/// Liveness state of one connection.
#[derive(Clone, Copy, Debug)]
pub struct KeepAliveTracker {
    pub last_sent_keep_alive: i64,
    pub last_received_keep_alive: u64,
    pub has_received_keep_alive: bool,
    /// When the outstanding challenge was sent; absent before the first one.
    pub last_sent_instant: Option<u64>,
    /// Most recently measured round-trip time in milliseconds; never negative.
    pub last_rtt_ms: i32,
}

/// A round-trip measurement, clamped into `[0, i32::MAX]` milliseconds.
pub open spec fn rtt_clamped(now: u64, sent: u64) -> i32 {
    if now <= sent {
        0
    } else if now - sent > i32::MAX {
        i32::MAX
    } else {
        (now - sent) as i32
    }
}

/// However large the measurement, the stored round-trip time stays within
/// `[0, i32::MAX]`: an overflowing measurement is stored as `i32::MAX`, and
/// a clock running backwards yields zero, never a negative value.
pub proof fn lemma_rtt_clamp_bounds(now: u64, sent: u64)
    ensures
        0 <= rtt_clamped(now, sent) <= i32::MAX,
        now > sent && now - sent > i32::MAX ==> rtt_clamped(now, sent) == i32::MAX,
        sent <= now && now - sent <= i32::MAX ==> rtt_clamped(now, sent) == now - sent,
{
}

/// Computes the clamped round-trip time for a response arriving at `now_ms`
/// to a challenge sent at `sent_ms`.
pub fn measure_rtt(now_ms: u64, sent_ms: u64) -> (r: i32)
    ensures
        r == rtt_clamped(now_ms, sent_ms),
{
    if now_ms <= sent_ms {
        0
    } else {
        let d: u64 = now_ms - sent_ms;
        if d > 0x7fffffff {
            i32::MAX
        } else {
            d as i32
        }
    }
}

/// The tracker a freshly admitted connection starts with: no token sent yet,
/// the first server-initiated challenge not mistaken for a retransmission,
/// and no latency measured.
pub open spec fn fresh_tracker(now_ms: u64) -> KeepAliveTracker {
    KeepAliveTracker {
        last_sent_keep_alive: 0,
        last_received_keep_alive: now_ms,
        has_received_keep_alive: true,
        last_sent_instant: None,
        last_rtt_ms: 0,
    }
}

/// Builds the tracker a freshly admitted connection starts with.
pub fn initial_tracker(now_ms: u64) -> (r: KeepAliveTracker)
    ensures
        r == fresh_tracker(now_ms),
{
    KeepAliveTracker {
        last_sent_keep_alive: 0,
        last_received_keep_alive: now_ms,
        has_received_keep_alive: true,
        last_sent_instant: None,
        last_rtt_ms: 0,
    }
}

/// What the tracker becomes when a response with the matching token arrives
/// at `now`: latency is measured if a send instant is on record, the receive
/// time is updated, and the first-response flag is set.
pub open spec fn tracker_after_response(t: KeepAliveTracker, now: u64) -> KeepAliveTracker {
    KeepAliveTracker {
        last_sent_keep_alive: t.last_sent_keep_alive,
        last_received_keep_alive: now,
        has_received_keep_alive: true,
        last_sent_instant: t.last_sent_instant,
        last_rtt_ms: match t.last_sent_instant {
            Some(sent) => rtt_clamped(now, sent),
            None => t.last_rtt_ms,
        },
    }
}

/// Applies a matching keep-alive response to the tracker.
pub fn apply_response(t: &mut KeepAliveTracker, now_ms: u64)
    ensures
        *final(t) == tracker_after_response(*old(t), now_ms),
{
    match t.last_sent_instant {
        Some(sent) => {
            t.last_rtt_ms = measure_rtt(now_ms, sent);
        },
        None => {},
    }
    t.last_received_keep_alive = now_ms;
    t.has_received_keep_alive = true;
}

} // verus!
