//! Per-client rate limiting.
//!
//! The limiter maps a client identity (a network address, encoded as an
//! integer by the caller) to the time of its last *allowed* validation
//! attempt. An attempt is allowed when the client has no entry yet or its
//! last allowed attempt lies at least one window in the past; only an
//! allowed attempt updates the entry, so a denied client cannot push its
//! own window forward.

use vstd::prelude::*;
use vstd::pervasive::VecAdditionalExecFns;

verus! {

/// Last recorded attempt time for `client` among the entries; the latest
/// entry for the client wins.
pub open spec fn lookup(s: Seq<(u128, u64)>, client: u128) -> Option<u64>
    decreases s.len(),
{
    if s.len() == 0 {
        None
    } else if s.last().0 == client {
        Some(s.last().1)
    } else {
        lookup(s.drop_last(), client)
    }
}

/// The rate-limit table: one `(client, last attempt time)` entry per
/// client identity seen so far. Entries are updated in place, never
/// removed, so the table is bounded by the number of distinct clients.
pub struct RateLimiter {
    pub entries: Vec<(u128, u64)>,
}

impl RateLimiter {
    /// Time of the client's last allowed attempt, if any.
    pub open spec fn last_attempt(self, client: u128) -> Option<u64> {
        lookup(self.entries@, client)
    }

    /// A validation attempt by `client` at time `now` is allowed: either
    /// the client was never seen, or its last allowed attempt lies at
    /// least `window` time units in the past.
    pub open spec fn is_allowed(self, client: u128, now: u64, window: u64) -> bool {
        match self.last_attempt(client) {
            None => true,
            Some(t) => t + window <= now,
        }
    }

    /// An empty table: every client is unknown.
    pub fn new() -> (r: RateLimiter)
        ensures
            forall|c: u128| #[trigger] r.last_attempt(c) is None,
    {
        RateLimiter { entries: Vec::new() }
    }

    /// Index of the latest entry for `client`, with no later entry for it.
    fn find(&self, client: u128) -> (r: Option<usize>)
        ensures
            match r {
                Some(i) => i < self.entries@.len() && self.entries@[i as int].0 == client
                    && self.last_attempt(client) == Some(self.entries@[i as int].1)
                    && forall|j: int| i < j < self.entries@.len()
                        ==> (#[trigger] self.entries@[j]).0 != client,
                None => self.last_attempt(client) is None,
            },
    {
        let n = self.entries.len();
        let mut i = n;
        proof {
            assert(self.entries@.subrange(0, n as int) =~= self.entries@);
        }
        while i > 0
            invariant
                i <= n,
                n == self.entries@.len(),
                lookup(self.entries@, client) == lookup(self.entries@.subrange(0, i as int), client),
                forall|j: int| i <= j < n ==> (#[trigger] self.entries@[j]).0 != client,
            decreases i,
        {
            i = i - 1;
            let e = self.entries[i];
            proof {
                let whole = self.entries@.subrange(0, i as int + 1);
                assert(whole.last() == self.entries@[i as int]);
                assert(whole.drop_last() =~= self.entries@.subrange(0, i as int));
            }
            if e.0 == client {
                return Some(i);
            }
        }
        proof {
            assert(self.entries@.subrange(0, 0).len() == 0);
        }
        None
    }

    /// Attempt an acquisition: allowed exactly under `is_allowed`, and only
    /// an allowed attempt records `now` as the client's new last attempt.
    /// A recorded time never moves backwards: when the client already had
    /// an entry, the new time is at least the old one.
    pub fn try_acquire(&mut self, client: u128, now: u64, window: u64) -> (allowed: bool)
        ensures
            allowed == old(self).is_allowed(client, now, window),
            allowed ==> final(self).last_attempt(client) == Some(now),
            allowed ==> forall|c: u128| c != client
                ==> #[trigger] final(self).last_attempt(c) == old(self).last_attempt(c),
            allowed && old(self).last_attempt(client) is Some
                ==> old(self).last_attempt(client)->Some_0 <= now,
            !allowed ==> *final(self) == *old(self),
    {
        let found = self.find(client);
        match found {
            Some(i) => {
                let t = self.entries[i].1;
                if now >= t && now - t >= window {
                    proof {
                        lemma_lookup_update(self.entries@, i as int, client, now);
                    }
                    self.entries.set(i, (client, now));
                    true
                } else {
                    false
                }
            },
            None => {
                proof {
                    let pushed = self.entries@.push((client, now));
                    assert(pushed.last() == (client, now));
                    assert(forall|c: u128| c != client
                        ==> #[trigger] lookup(pushed, c) == lookup(pushed.drop_last(), c));
                    assert(pushed.drop_last() =~= self.entries@);
                }
                self.entries.push((client, now));
                true
            },
        }
    }
}

/// Updating the latest entry for a client rewrites that client's recorded
/// time and leaves every other client's untouched.
proof fn lemma_lookup_update(s: Seq<(u128, u64)>, i: int, client: u128, now: u64)
    requires
        0 <= i < s.len(),
        s[i].0 == client,
        forall|j: int| i < j < s.len() ==> (#[trigger] s[j]).0 != client,
    ensures
        lookup(s.update(i, (client, now)), client) == Some(now),
        forall|c: u128| c != client
            ==> #[trigger] lookup(s.update(i, (client, now)), c) == lookup(s, c),
    decreases s.len(),
{
    let u = s.update(i, (client, now));
    if i == s.len() - 1 {
        assert(u.last() == (client, now));
        assert(u.drop_last() =~= s.drop_last());
        assert(s.last().0 == client);
        assert(forall|c: u128| c != client
            ==> #[trigger] lookup(u, c) == lookup(u.drop_last(), c));
        assert(forall|c: u128| c != client
            ==> #[trigger] lookup(s, c) == lookup(s.drop_last(), c));
    } else {
        assert(s.last().0 != client);
        assert(u.last() == s.last());
        assert(u.drop_last() =~= s.drop_last().update(i, (client, now)));
        lemma_lookup_update(s.drop_last(), i, client, now);
        assert(lookup(u, client) == lookup(u.drop_last(), client));
        assert(forall|c: u128| c != client && c != s.last().0
            ==> #[trigger] lookup(u, c) == lookup(u.drop_last(), c)
                && lookup(s, c) == lookup(s.drop_last(), c));
    }
}

/// After an allowed attempt at time `t1` has been recorded for a client,
/// a second attempt strictly inside the window is denied, and an attempt
/// at or past the window's end is allowed again.
pub proof fn lemma_rate_limit_window(
    l: RateLimiter,
    client: u128,
    t1: u64,
    t2: u64,
    t3: u64,
    window: u64,
)
    requires
        l.last_attempt(client) == Some(t1),
        (t2 as int) < t1 + window,
        t1 + window <= t3,
    ensures
        !l.is_allowed(client, t2, window),
        l.is_allowed(client, t3, window),
{
}

} // verus!
