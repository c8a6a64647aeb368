//! What the persistence layer decides for itself: the ids it hands out and
//! which stored messages may be removed.

pub mod events;

use vstd::prelude::*;

verus! {

/// The clock the persistence layer hands out message ids from.
pub struct Persistence {
    /// The last id handed out.
    pub last_seen_clock: i64,
}

impl Persistence {
    /// A clock that has handed out nothing after `last_seen_clock`.
    pub fn new(last_seen_clock: i64) -> (p: Persistence)
        ensures
            p.last_seen_clock == last_seen_clock,
    {
        Persistence { last_seen_clock }
    }

    /// The next id, given the current time in nanoseconds: the time itself
    /// when it is past the last id, else one more than the last id, so that
    /// ids keep increasing even when the clock goes back.
    pub fn monotonically_increasing_id(&mut self, now: i64) -> (id: i64)
        requires
            old(self).last_seen_clock < i64::MAX,
        ensures
            id == if now <= old(self).last_seen_clock {
                old(self).last_seen_clock + 1
            } else {
                now as int
            },
            final(self).last_seen_clock == id,
    {
        self.last_seen_clock = if now <= self.last_seen_clock {
            self.last_seen_clock + 1
        } else {
            now
        };
        self.last_seen_clock
    }
}

/// Every id handed out is greater than the one before it, and no earlier
/// than the time it was asked for at.
pub proof fn lemma_ids_increase(last: i64, now: i64, id: i64)
    requires
        last < i64::MAX,
        id == if now <= last {
            last + 1
        } else {
            now as int
        },
    ensures
        id > last,
        id >= now,
{
}

/// The time up to which the messages of a channel may be removed: those
/// seen by every member, and those older than the replay window.
pub fn removal_cutoff(min_seen_timestamp: i64, replay_window_start: i64) -> (t: i64)
    ensures
        t >= min_seen_timestamp,
        t >= replay_window_start,
        t == min_seen_timestamp || t == replay_window_start,
{
    if min_seen_timestamp < replay_window_start {
        replay_window_start
    } else {
        min_seen_timestamp
    }
}

} // verus!
