//! The per-client request window: a coarse counter that restarts with the
//! first request that arrives a full window after the window began.

use vstd::prelude::*;

verus! {

/// Length of a rate window, in seconds.
pub const WINDOW_SECS: u64 = 60;

/// The request counter of one client: when its current window began (seconds
/// on a monotonic clock) and how many requests were admitted in it.
#[derive(Clone, Copy, Debug, PartialEq, Eq, Structural)]
pub struct RateEntry {
    pub window_start: u64,
    pub count: usize,
}

/// What the limiter says of one request.
#[derive(Clone, Copy, Debug, PartialEq, Eq, Structural)]
pub enum RateVerdict {
    Allow,
    Deny,
}

/// Seconds from `since` to `now`; zero where the clock reads earlier than `since`.
pub open spec fn elapsed(since: u64, now: u64) -> nat {
    if now >= since {
        (now - since) as nat
    } else {
        0
    }
}

/// A full window has passed since `entry` began.
pub open spec fn window_expired(entry: RateEntry, now: u64) -> bool {
    elapsed(entry.window_start, now) >= WINDOW_SECS
}

/// The entry that a request arriving at `now` is counted against: `entry`
/// itself, or a fresh window beginning at `now` if `entry` has expired.
pub open spec fn current_window(entry: RateEntry, now: u64) -> RateEntry {
    if window_expired(entry, now) {
        RateEntry { window_start: now, count: 0 }
    } else {
        entry
    }
}

/// The limiter's rule for one request: the verdict, and the client's entry
/// afterwards. `entry` is `None` for a client never seen before.
pub open spec fn decision(limit: nat, entry: Option<RateEntry>, now: u64) -> (
    RateVerdict,
    Option<RateEntry>,
) {
    if limit == 0 {
        (RateVerdict::Allow, entry)
    } else {
        match entry {
            None => (RateVerdict::Allow, Some(RateEntry { window_start: now, count: 1 })),
            Some(e) => {
                let w = current_window(e, now);
                if w.count >= limit {
                    (RateVerdict::Deny, Some(e))
                } else {
                    (
                        RateVerdict::Allow,
                        Some(
                            RateEntry {
                                window_start: w.window_start,
                                count: (w.count + 1) as usize,
                            },
                        ),
                    )
                }
            },
        }
    }
}

/// The entry of one client after the requests at `times`, in order.
pub open spec fn entry_after(limit: nat, entry: Option<RateEntry>, times: Seq<u64>) -> Option<
    RateEntry,
>
    decreases times.len(),
{
    if times.len() == 0 {
        entry
    } else {
        decision(limit, entry_after(limit, entry, times.drop_last()), times.last()).1
    }
}

/// The verdict on the last of the requests at `times`.
pub open spec fn last_verdict(limit: nat, entry: Option<RateEntry>, times: Seq<u64>) -> RateVerdict
    recommends
        times.len() > 0,
{
    decision(limit, entry_after(limit, entry, times.drop_last()), times.last()).0
}

/// Applies the limiter's rule to one request: decides it and gives the
/// client's entry afterwards.
pub fn decide(limit: usize, entry: Option<RateEntry>, now: u64) -> (r: (
    RateVerdict,
    Option<RateEntry>,
))
    ensures
        r == decision(limit as nat, entry, now),
{
    if limit == 0 {
        return (RateVerdict::Allow, entry);
    }
    match entry {
        None => (RateVerdict::Allow, Some(RateEntry { window_start: now, count: 1 })),
        Some(e) => {
            let expired = now >= e.window_start && now - e.window_start >= WINDOW_SECS;
            let w = if expired {
                RateEntry { window_start: now, count: 0 }
            } else {
                e
            };
            if w.count >= limit {
                (RateVerdict::Deny, Some(e))
            } else {
                (
                    RateVerdict::Allow,
                    Some(RateEntry { window_start: w.window_start, count: w.count + 1 }),
                )
            }
        },
    }
}

/// With the limit switched off no request is denied, and nothing is recorded.
pub proof fn lemma_unlimited_never_denies(entry: Option<RateEntry>, times: Seq<u64>)
    ensures
        entry_after(0, entry, times) == entry,
        times.len() > 0 ==> last_verdict(0, entry, times) == RateVerdict::Allow,
    decreases times.len(),
{
    if times.len() > 0 {
        lemma_unlimited_never_denies(entry, times.drop_last());
    }
}

/// A client's first `limit` requests within one window are allowed and every
/// further request in that window is denied: after `times.len()` requests,
/// all less than a window after the first, the entry still begins at the
/// first request and counts the admitted ones.
pub proof fn lemma_window_allows_exactly_limit(limit: nat, times: Seq<u64>)
    requires
        0 < limit <= usize::MAX,
        times.len() > 0,
        forall|i: int| 0 <= i < times.len() ==> elapsed(times[0], #[trigger] times[i]) < WINDOW_SECS,
    ensures
        last_verdict(limit, None, times) == if times.len() <= limit {
            RateVerdict::Allow
        } else {
            RateVerdict::Deny
        },
        entry_after(limit, None, times) == Some(
            RateEntry {
                window_start: times[0],
                count: if times.len() <= limit {
                    times.len() as usize
                } else {
                    limit as usize
                },
            },
        ),
    decreases times.len(),
{
    if times.len() > 1 {
        let before = times.drop_last();
        assert(before[0] == times[0]);
        assert forall|i: int| 0 <= i < before.len() implies elapsed(
            before[0],
            #[trigger] before[i],
        ) < WINDOW_SECS by {
            assert(before[i] == times[i]);
        }
        lemma_window_allows_exactly_limit(limit, before);
        assert(elapsed(times[0], times[times.len() - 1]) < WINDOW_SECS);
    } else {
        assert(times.drop_last().len() == 0);
    }
}

/// A request that arrives a full window or more after the window began is
/// allowed, and restarts the count at one in a window of its own.
pub proof fn lemma_expired_window_restarts(limit: nat, entry: RateEntry, now: u64)
    requires
        limit > 0,
        window_expired(entry, now),
    ensures
        decision(limit, Some(entry), now) == (
            RateVerdict::Allow,
            Some(RateEntry { window_start: now, count: 1 }),
        ),
{
}

} // verus!
