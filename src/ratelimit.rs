use vstd::prelude::*;

use crate::text::str_eq;

verus! {

/// Requests that one caller may make in one window.
pub const DEFAULT_LIMIT: u32 = 60;

/// Length of a window, in seconds.
pub const DEFAULT_WINDOW_SECS: u64 = 60;

/// A fixed-window request counter per caller.
pub struct RateLimiter {
    limit: u32,
    window_secs: u64,
    entries: Vec<(String, u64, u32)>,
}

/// What the limiter decides for one request.
#[derive(Clone, Copy, Debug, PartialEq, Eq, Structural)]
pub enum RateDecision {
    /// The request may go on; `remaining` more fit in this window.
    Allowed { remaining: u32 },
    /// The caller is over its limit; the window ends in `retry_after` seconds.
    Limited { retry_after: u64 },
}

/// The window of each caller as a map from caller to start and count.
pub open spec fn window_map(s: Seq<(String, u64, u32)>) -> Map<Seq<char>, (u64, u32)>
    decreases s.len(),
{
    if s.len() == 0 {
        Map::empty()
    } else {
        window_map(s.drop_last()).insert(s.last().0@, (s.last().1, s.last().2))
    }
}

/// No caller has two entries.
pub open spec fn unique_callers(s: Seq<(String, u64, u32)>) -> bool {
    forall|i: int, j: int| 0 <= i < s.len() && 0 <= j < s.len() && i != j ==> s[i].0@ != s[j].0@
}

proof fn lemma_window_map_has(s: Seq<(String, u64, u32)>, i: int)
    requires
        unique_callers(s),
        0 <= i < s.len(),
    ensures
        window_map(s).contains_key(s[i].0@),
        window_map(s)[s[i].0@] == (s[i].1, s[i].2),
    decreases s.len(),
{
    if i < s.len() - 1 {
        lemma_window_map_has(s.drop_last(), i);
    }
}

proof fn lemma_window_map_lacks(s: Seq<(String, u64, u32)>, k: Seq<char>)
    requires
        forall|i: int| 0 <= i < s.len() ==> s[i].0@ != k,
    ensures
        !window_map(s).contains_key(k),
    decreases s.len(),
{
    if s.len() > 0 {
        lemma_window_map_lacks(s.drop_last(), k);
    }
}

proof fn lemma_window_map_update(s: Seq<(String, u64, u32)>, i: int, e: (String, u64, u32))
    requires
        unique_callers(s),
        0 <= i < s.len(),
        e.0@ == s[i].0@,
    ensures
        window_map(s.update(i, e)) == window_map(s).insert(e.0@, (e.1, e.2)),
    decreases s.len(),
{
    let t = s.update(i, e);
    if i == s.len() - 1 {
        assert(t.drop_last() =~= s.drop_last());
        lemma_window_map_lacks(s.drop_last(), e.0@);
        assert(window_map(t) =~= window_map(s).insert(e.0@, (e.1, e.2)));
    } else {
        assert(t.drop_last() =~= s.drop_last().update(i, e));
        lemma_window_map_update(s.drop_last(), i, e);
        assert(window_map(t) =~= window_map(s).insert(e.0@, (e.1, e.2)));
    }
}

/// The window that `caller` is in at `now`: its stored one while it lasts, a
/// fresh one otherwise. A clock that went back keeps the stored window.
pub open spec fn current_window(
    m: Map<Seq<char>, (u64, u32)>,
    caller: Seq<char>,
    now: u64,
    window_secs: u64,
) -> (u64, u32) {
    if m.contains_key(caller) && (now < m[caller].0 || now - m[caller].0 < window_secs) {
        m[caller]
    } else {
        (now, 0)
    }
}

/// Seconds until a window that started at `start` ends, seen at `now`.
pub open spec fn seconds_left(start: u64, now: u64, window_secs: u64) -> int {
    if now < start {
        window_secs as int
    } else {
        window_secs - (now - start)
    }
}

impl RateLimiter {
    /// The windows of all callers.
    pub closed spec fn windows(&self) -> Map<Seq<char>, (u64, u32)> {
        window_map(self.entries@)
    }

    /// Requests allowed per caller and window.
    pub closed spec fn spec_limit(&self) -> u32 {
        self.limit
    }

    /// Length of a window in seconds.
    pub closed spec fn spec_window_secs(&self) -> u64 {
        self.window_secs
    }

    /// Requests allowed per caller and window.
    pub fn limit(&self) -> (r: u32)
        ensures
            r == self.spec_limit(),
    {
        self.limit
    }

    /// Length of a window in seconds.
    pub fn window_secs(&self) -> (r: u64)
        ensures
            r == self.spec_window_secs(),
    {
        self.window_secs
    }

    /// Each caller has one window at most.
    pub closed spec fn wf(&self) -> bool {
        unique_callers(self.entries@)
    }

    /// A limiter that lets `limit` requests of each caller through in every
    /// window of `window_secs` seconds.
    pub fn new(limit: u32, window_secs: u64) -> (r: RateLimiter)
        ensures
            r.wf(),
            r.spec_limit() == limit,
            r.spec_window_secs() == window_secs,
            r.windows() == Map::<Seq<char>, (u64, u32)>::empty(),
    {
        RateLimiter { limit, window_secs, entries: Vec::new() }
    }

    /// Counts one request of `caller` at time `now` (in seconds) and decides
    /// whether it may go on.
    pub fn check(&mut self, caller: &str, now: u64) -> (r: RateDecision)
        requires
            old(self).wf(),
        ensures
            final(self).wf(),
            final(self).spec_limit() == old(self).spec_limit(),
            final(self).spec_window_secs() == old(self).spec_window_secs(),
            ({
                let cur = current_window(old(self).windows(), caller@, now, old(self).spec_window_secs());
                if cur.1 < old(self).spec_limit() {
                    &&& r == RateDecision::Allowed { remaining: (old(self).spec_limit() - cur.1 - 1) as u32 }
                    &&& final(self).windows() == old(self).windows().insert(caller@, (cur.0, (cur.1 + 1) as u32))
                } else {
                    &&& r == RateDecision::Limited {
                        retry_after: seconds_left(cur.0, now, old(self).spec_window_secs()) as u64,
                    }
                    &&& final(self).windows() == old(self).windows().insert(caller@, cur)
                }
            }),
    {
        let ghost m = self.windows();
        let n = self.entries.len();
        let mut found: usize = n;
        let mut j: usize = 0;
        while j < n
            invariant
                n == self.entries@.len(),
                j <= n,
                found < n ==> self.entries@[found as int].0@ == caller@,
                found == n ==> forall|k: int| 0 <= k < j ==> self.entries@[k].0@ != caller@,
                found <= n,
            decreases n - j,
        {
            if found == n && str_eq(self.entries[j].0.as_str(), caller) {
                found = j;
            }
            j = j + 1;
        }
        let i = found;
        let (start, count) = if i < n {
            proof {
                lemma_window_map_has(self.entries@, i as int);
            }
            let start = self.entries[i].1;
            let count = self.entries[i].2;
            if now < start || now - start < self.window_secs {
                (start, count)
            } else {
                (now, 0)
            }
        } else {
            proof {
                lemma_window_map_lacks(self.entries@, caller@);
            }
            (now, 0)
        };
        let (next_count, decision) = if count < self.limit {
            (count + 1, RateDecision::Allowed { remaining: self.limit - count - 1 })
        } else {
            let left = if now < start {
                self.window_secs
            } else {
                self.window_secs - (now - start)
            };
            (count, RateDecision::Limited { retry_after: left })
        };
        let entry = (caller.to_string(), start, next_count);
        if i < n {
            let ghost old_entries = self.entries@;
            proof {
                lemma_window_map_update(old_entries, i as int, entry);
            }
            self.entries.set(i, entry);
            proof {
                assert(self.entries@ == old_entries.update(i as int, entry));
                assert(unique_callers(self.entries@)) by {
                    assert forall|a: int, b: int|
                        0 <= a < self.entries@.len() && 0 <= b < self.entries@.len() && a != b
                            implies self.entries@[a].0@ != self.entries@[b].0@ by {
                        if a != i && b != i {
                            assert(old_entries[a].0@ != old_entries[b].0@);
                        } else if a == i {
                            assert(old_entries[i as int].0@ != old_entries[b].0@);
                        } else {
                            assert(old_entries[a].0@ != old_entries[i as int].0@);
                        }
                    }
                }
            }
        } else {
            let ghost old_entries = self.entries@;
            self.entries.push(entry);
            proof {
                assert(self.entries@.drop_last() =~= old_entries);
                assert(unique_callers(self.entries@)) by {
                    assert forall|a: int, b: int|
                        0 <= a < self.entries@.len() && 0 <= b < self.entries@.len() && a != b
                            implies self.entries@[a].0@ != self.entries@[b].0@ by {
                        if a < n && b < n {
                            assert(old_entries[a].0@ != old_entries[b].0@);
                        }
                    }
                }
            }
        }
        decision
    }
}

} // verus!
