//! Slot bookkeeping of the rate limiter.
//!
//! Time is counted in nanoseconds from a fixed origin of the caller's
//! choosing (the moment the limiter was made). Each request asks for a slot:
//! the earliest moment, not before the request itself, that lies at least one
//! interval after the previous slot. The caller sleeps until the slot, which
//! the limiter has already reserved, so concurrent callers get distinct,
//! evenly spaced slots.

use vstd::prelude::*;

verus! {

/// The slot granted to a request made at `now` when the next free moment is
/// `next_free`.
pub open spec fn grant_slot(next_free: u64, now: u64) -> u64 {
    if now >= next_free {
        now
    } else {
        next_free
    }
}

/// The next free moment after a slot: one interval later, held at
/// `u64::MAX` where that would not fit.
pub open spec fn advance(slot: u64, interval: u64) -> u64 {
    if slot + interval > u64::MAX {
        u64::MAX
    } else {
        (slot + interval) as u64
    }
}

/// Spaces requests at least a minimum interval apart.
pub struct RateLimiter {
    min_interval_nanos: u64,
    next_free_nanos: u64,
}

impl RateLimiter {
    /// The minimum spacing between two slots, in nanoseconds.
    pub closed spec fn interval(&self) -> u64 {
        self.min_interval_nanos
    }

    /// The earliest moment that the next slot may take.
    pub closed spec fn next_free(&self) -> u64 {
        self.next_free_nanos
    }

    /// A limiter whose first slot is free at once.
    pub fn new(min_interval_nanos: u64) -> (r: Self)
        ensures
            r.interval() == min_interval_nanos,
            r.next_free() == 0,
    {
        RateLimiter { min_interval_nanos, next_free_nanos: 0 }
    }

    /// The minimum interval between requests, in nanoseconds.
    pub fn min_interval(&self) -> (n: u64)
        ensures
            n == self.interval(),
    {
        self.min_interval_nanos
    }

    /// Reserves the slot of a request made at `now_nanos` and returns how
    /// long the caller must wait for it.
    pub fn reserve(&mut self, now_nanos: u64) -> (wait_nanos: u64)
        ensures
            wait_nanos == grant_slot(old(self).next_free(), now_nanos) - now_nanos,
            final(self).next_free() == advance(
                grant_slot(old(self).next_free(), now_nanos),
                old(self).interval(),
            ),
            final(self).interval() == old(self).interval(),
    {
        let slot: u64 = if now_nanos >= self.next_free_nanos {
            now_nanos
        } else {
            self.next_free_nanos
        };
        self.next_free_nanos = slot.saturating_add(self.min_interval_nanos);
        slot - now_nanos
    }
}

/// A slot is never earlier than its request, and the slots of two
/// successive requests lie at least one interval apart, whatever moments the
/// requests come at (unless the first slot is so late that one interval more
/// no longer fits in the clock).
pub proof fn lemma_slots_spaced(limiter: RateLimiter, first: u64, second: u64)
    requires
        grant_slot(limiter.next_free(), first) + limiter.interval() <= u64::MAX,
    ensures
        grant_slot(limiter.next_free(), first) >= first,
        grant_slot(
            advance(grant_slot(limiter.next_free(), first), limiter.interval()),
            second,
        ) >= grant_slot(limiter.next_free(), first) + limiter.interval(),
        grant_slot(
            advance(grant_slot(limiter.next_free(), first), limiter.interval()),
            second,
        ) >= second,
{
}

/// A request waits exactly when it comes before the next free moment, and
/// then exactly until that moment.
pub proof fn lemma_wait_only_when_early(limiter: RateLimiter, now: u64)
    ensures
        (grant_slot(limiter.next_free(), now) - now == 0) <==> now >= limiter.next_free(),
        now < limiter.next_free() ==> now + (grant_slot(limiter.next_free(), now) - now)
            == limiter.next_free(),
{
}

/// A new limiter lets its first request through at once, whenever it
/// comes.
pub proof fn lemma_first_request_immediate(limiter: RateLimiter, now: u64)
    requires
        limiter.next_free() == 0,
    ensures
        grant_slot(limiter.next_free(), now) == now,
{
}

/// The slots granted, in order, to requests made at `times` (in the order
/// their reservations are taken) when the next free moment is `next_free`:
/// each reservation as [`RateLimiter::reserve`] makes it.
pub open spec fn slots(next_free: u64, interval: u64, times: Seq<u64>) -> Seq<u64>
    decreases times.len(),
{
    if times.len() == 0 {
        Seq::empty()
    } else {
        let slot = grant_slot(next_free, times[0]);
        seq![slot] + slots(advance(slot, interval), interval, times.drop_first())
    }
}

/// For any number of requests, each slot is no earlier than its request and
/// each slot lies at least one interval after the one before, so no two
/// slots coincide when the interval is positive. The clock must hold the
/// last slot plus one interval: all request moments and the next free moment
/// are at most `horizon`, and `horizon` plus one interval per request fits.
pub proof fn lemma_all_slots_spaced(
    limiter: RateLimiter,
    times: Seq<u64>,
    horizon: u64,
)
    requires
        limiter.next_free() <= horizon,
        forall|i: int| 0 <= i < times.len() ==> times[i] <= horizon,
        horizon + times.len() * limiter.interval() <= u64::MAX,
    ensures
        slots(limiter.next_free(), limiter.interval(), times).len() == times.len(),
        forall|i: int|
            0 <= i < times.len() ==> #[trigger] slots(
                limiter.next_free(),
                limiter.interval(),
                times,
            )[i] >= times[i],
        forall|i: int|
            0 <= i < times.len() - 1 ==> #[trigger] slots(
                limiter.next_free(),
                limiter.interval(),
                times,
            )[i + 1] >= slots(limiter.next_free(), limiter.interval(), times)[i]
                + limiter.interval(),
{
    lemma_slots_spaced_from(limiter.next_free(), limiter.interval(), times, horizon);
}

proof fn lemma_slots_spaced_from(next_free: u64, interval: u64, times: Seq<u64>, horizon: u64)
    requires
        next_free <= horizon,
        forall|i: int| 0 <= i < times.len() ==> times[i] <= horizon,
        horizon + times.len() * interval <= u64::MAX,
    ensures
        slots(next_free, interval, times).len() == times.len(),
        forall|i: int| 0 <= i < times.len() ==> #[trigger] slots(next_free, interval, times)[i] >= times[i],
        forall|i: int|
            0 <= i < times.len() - 1 ==> #[trigger] slots(next_free, interval, times)[i + 1]
                >= slots(next_free, interval, times)[i] + interval,
        times.len() > 0 ==> slots(next_free, interval, times)[0] <= horizon,
    decreases times.len(),
{
    if times.len() > 0 {
        let n = times.len();
        let slot = grant_slot(next_free, times[0]);
        let rest = times.drop_first();
        assert(n * interval == (n - 1) * interval + interval) by (nonlinear_arith);
        assert((n - 1) * interval >= 0) by (nonlinear_arith)
            requires
                n >= 1,
        ;
        assert(slot + interval <= u64::MAX);
        let next = advance(slot, interval);
        assert(next == slot + interval);
        let h2: u64 = (horizon + interval) as u64;
        lemma_slots_spaced_from(next, interval, rest, h2);
        let all = slots(next_free, interval, times);
        let tail = slots(next, interval, rest);
        assert(all == seq![slot] + tail);
        assert forall|i: int| 0 <= i < times.len() implies #[trigger] all[i] >= times[i] by {
            if i > 0 {
                assert(all[i] == tail[i - 1]);
                assert(rest[i - 1] == times[i]);
            }
        }
        assert forall|i: int| 0 <= i < times.len() - 1 implies #[trigger] all[i + 1] >= all[i]
            + interval by {
            if i > 0 {
                assert(all[i + 1] == tail[i]);
                assert(all[i] == tail[i - 1]);
            } else if rest.len() > 0 {
                assert(all[1] == tail[0]);
                assert(tail[0] == grant_slot(next, rest[0]));
            }
        }
    }
}

/// `n` requests, all made at `t0`.
pub open spec fn all_at(t0: u64, n: nat) -> Seq<u64> {
    Seq::new(n, |i: int| t0)
}

/// Requests that all come at `t0`, to a limiter free by then, get the slots
/// `t0`, `t0 + interval`, `t0 + 2 * interval`, ... in the order their
/// reservations are taken, as long as the last of them plus one interval
/// fits the clock.
pub proof fn lemma_simultaneous_requests(limiter: RateLimiter, t0: u64, n: nat)
    requires
        limiter.next_free() <= t0,
        t0 + n * limiter.interval() <= u64::MAX,
    ensures
        slots(limiter.next_free(), limiter.interval(), all_at(t0, n)).len() == n,
        forall|k: int|
            0 <= k < n ==> #[trigger] slots(
                limiter.next_free(),
                limiter.interval(),
                all_at(t0, n),
            )[k] == t0 + k * limiter.interval(),
{
    lemma_simultaneous_from(limiter.next_free(), limiter.interval(), t0, 0, n);
}

proof fn lemma_simultaneous_from(next_free: u64, interval: u64, t0: u64, done: nat, n: nat)
    requires
        done == 0 ==> next_free <= t0,
        done > 0 ==> next_free == t0 + done * interval,
        t0 + (done + n) * interval <= u64::MAX,
    ensures
        slots(next_free, interval, all_at(t0, n)).len() == n,
        forall|k: int|
            0 <= k < n ==> #[trigger] slots(next_free, interval, all_at(t0, n))[k]
                == t0 + (done + k) * interval,
    decreases n,
{
    if n > 0 {
        let times = all_at(t0, n);
        let rest = all_at(t0, (n - 1) as nat);
        assert(times.drop_first() =~= rest);
        let slot = grant_slot(next_free, t0);
        assert(slot == t0 + done * interval) by (nonlinear_arith)
            requires
                slot == (if next_free >= t0 { next_free as int } else { t0 as int }),
                done == 0 ==> next_free <= t0,
                done > 0 ==> next_free == t0 + done * interval,
                interval >= 0,
        ;
        assert(t0 + (done + 1) * interval <= t0 + (done + n) * interval) by (nonlinear_arith)
            requires
                n >= 1,
                interval >= 0,
        ;
        assert(t0 + (done + 1) * interval == slot + interval) by (nonlinear_arith)
            requires
                slot == t0 + done * interval,
        ;
        let next = advance(slot, interval);
        assert(next == t0 + (done + 1) * interval);
        assert(done + 1 + (n - 1) == done + n);
        lemma_simultaneous_from(next, interval, t0, done + 1, (n - 1) as nat);
        let all = slots(next_free, interval, times);
        let tail = slots(next, interval, rest);
        assert(all == seq![slot] + tail);
        assert forall|k: int| 0 <= k < n implies #[trigger] all[k] == t0 + (done + k) * interval by {
            if k > 0 {
                assert(all[k] == tail[k - 1]);
                assert(done + 1 + (k - 1) == done + k);
            }
        }
    }
}

} // verus!
