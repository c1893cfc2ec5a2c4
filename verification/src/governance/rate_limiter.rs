//! Per-identity rate limiting over fixed (tumbling) windows.
//!
//! Each identity owns an entry `(requests, tokens, window-start)`. A check
//! at time `t` first rolls the entry: if no entry exists or the window has
//! lapsed (`t - window-start >= window-length`), counting restarts at zero
//! with the window anchored at `t`. Requests are rejected once the request
//! count reaches the per-window limit; token recording is rejected when the
//! addition would exceed the token limit. Identities are strictly isolated:
//! a check for one identity never touches another's entry. The map lives in
//! one worker, so enforcement across a fleet is approximate by design.

use crate::text::str_eq;
use vstd::prelude::*;

verus! {

/// Rate limiting configuration.
#[derive(Clone, Debug)]
pub struct RateLimits {
    /// Maximum requests per window.
    pub requests_per_minute: u32,
    /// Maximum tokens per window.
    pub tokens_per_minute: u32,
    /// Maximum concurrent requests (not enforced in this sandbox).
    pub concurrent_requests: u32,
}

impl Default for RateLimits {
    /// 100 requests and 100,000 tokens per window, 10 concurrent.
    fn default() -> (r: RateLimits)
        ensures
            r.requests_per_minute == 100,
            r.tokens_per_minute == 100000,
            r.concurrent_requests == 10,
    {
        RateLimits { requests_per_minute: 100, tokens_per_minute: 100000, concurrent_requests: 10 }
    }
}

/// One identity's counters in the current window.
#[derive(Clone, Copy, Debug)]
pub struct RateState {
    /// Requests seen in the current window.
    pub request_count: u32,
    /// Tokens recorded in the current window.
    pub token_count: u32,
    /// Second at which the current window began.
    pub window_start: u64,
}

/// The entry for `id` in an association list, if present; keys are unique,
/// so the first hit is the only one.
pub open spec fn lookup(s: Seq<(String, RateState)>, id: Seq<char>) -> Option<RateState>
    decreases s.len(),
{
    if s.len() == 0 {
        None
    } else if s[0].0@ == id {
        Some(s[0].1)
    } else {
        lookup(s.subrange(1, s.len() as int), id)
    }
}

/// No two entries share a key.
pub open spec fn keys_unique(s: Seq<(String, RateState)>) -> bool {
    forall|i: int, j: int| 0 <= i < j < s.len() ==> s[i].0@ != s[j].0@
}

/// A fresh entry: counting starts over with the window anchored at `now`.
pub open spec fn fresh_entry(now: u64) -> RateState {
    RateState { request_count: 0, token_count: 0, window_start: now }
}

/// The entry an identity is charged against at time `now`: its stored
/// entry, restarted if missing or if its window has lapsed.
pub open spec fn rolled_entry(prev: Option<RateState>, now: u64, window: u64) -> RateState {
    match prev {
        None => fresh_entry(now),
        Some(e) => if now >= e.window_start && now - e.window_start >= window {
            fresh_entry(now)
        } else {
            e
        },
    }
}

/// Seconds until the window anchored in `e` lapses, clamped to the window
/// length.
pub open spec fn spec_retry_after(e: RateState, now: u64, window: u64) -> int {
    let elapsed = if now >= e.window_start {
        now - e.window_start
    } else {
        0
    };
    window - vstd::math::min(elapsed as int, window as int)
}

/// Law: once the current time has passed `window_start + window`, the next
/// request check charges a fresh window, and — whenever at least one
/// request per window is allowed at all — admits the request and stores
/// exactly one request and zero tokens, anchored at the current time.
pub proof fn lemma_window_reset(prev: RateState, now: u64, window: u64, rpm: u32)
    requires
        now >= prev.window_start,
        now - prev.window_start >= window,
        rpm >= 1,
    ensures
        rolled_entry(Some(prev), now, window) == fresh_entry(now),
        rolled_entry(Some(prev), now, window).request_count < rpm,
        ({
            let cur = rolled_entry(Some(prev), now, window);
            let stored = RateState { request_count: (cur.request_count + 1) as u32, ..cur };
            stored == RateState { request_count: 1, token_count: 0, window_start: now }
        }),
{
}

/// Looking a key up in an updated list: the updated slot answers for its
/// own key, every other key is answered as before.
proof fn lemma_lookup_update(s: Seq<(String, RateState)>, i: int, v: (String, RateState))
    requires
        keys_unique(s),
        0 <= i < s.len(),
        v.0@ == s[i].0@,
    ensures
        forall|id: Seq<char>| #![auto] lookup(s.update(i, v), id) == if id == v.0@ {
            Some(v.1)
        } else {
            lookup(s, id)
        },
        keys_unique(s.update(i, v)),
    decreases s.len(),
{
    assert forall|id: Seq<char>| #![auto] lookup(s.update(i, v), id) == (if id == v.0@ {
        Some(v.1)
    } else {
        lookup(s, id)
    }) by {
        lemma_lookup_update_one(s, i, v, id);
    }
}

/// One key of [`lemma_lookup_update`].
proof fn lemma_lookup_update_one(
    s: Seq<(String, RateState)>,
    i: int,
    v: (String, RateState),
    id: Seq<char>,
)
    requires
        keys_unique(s),
        0 <= i < s.len(),
        v.0@ == s[i].0@,
    ensures
        lookup(s.update(i, v), id) == if id == v.0@ {
            Some(v.1)
        } else {
            lookup(s, id)
        },
    decreases s.len(),
{
    let su = s.update(i, v);
    if i == 0 {
        assert(su[0] == v);
        if id != v.0@ {
            assert(su.subrange(1, su.len() as int) =~= s.subrange(1, s.len() as int));
        }
    } else {
        assert(su[0] == s[0]);
        if s[0].0@ == id {
            if id == v.0@ {
                assert(s[0].0@ == s[i].0@);
            }
        } else {
            let st = s.subrange(1, s.len() as int);
            assert(su.subrange(1, su.len() as int) =~= st.update(i - 1, v));
            lemma_lookup_update_one(st, i - 1, v, id);
        }
    }
}

/// Appending a new key: the new slot answers for its key, every other key
/// as before.
proof fn lemma_lookup_push(s: Seq<(String, RateState)>, v: (String, RateState), id: Seq<char>)
    requires
        lookup(s, v.0@) is None,
    ensures
        lookup(s.push(v), id) == if id == v.0@ {
            Some(v.1)
        } else {
            lookup(s, id)
        },
    decreases s.len(),
{
    let sp = s.push(v);
    if s.len() == 0 {
        assert(sp[0] == v);
        assert(sp.subrange(1, sp.len() as int) =~= Seq::<(String, RateState)>::empty());
    } else {
        assert(sp[0] == s[0]);
        assert(s[0].0@ != v.0@);
        let st = s.subrange(1, s.len() as int);
        assert(sp.subrange(1, sp.len() as int) =~= st.push(v));
        lemma_lookup_push(st, v, id);
        if s[0].0@ == id {
            assert(lookup(sp, id) == Some(s[0].1));
            assert(lookup(s, id) == Some(s[0].1));
            assert(id != v.0@);
        } else {
            assert(lookup(sp, id) == lookup(sp.subrange(1, sp.len() as int), id));
            assert(lookup(sp.subrange(1, sp.len() as int), id) == lookup(st.push(v), id));
            assert(lookup(s, id) == lookup(st, id));
        }
    }
}

/// An absent key means no slot holds it.
proof fn lemma_lookup_none(s: Seq<(String, RateState)>, id: Seq<char>)
    requires
        lookup(s, id) is None,
    ensures
        forall|i: int| 0 <= i < s.len() ==> s[i].0@ != id,
    decreases s.len(),
{
    if s.len() > 0 {
        lemma_lookup_none(s.subrange(1, s.len() as int), id);
        assert forall|i: int| 0 <= i < s.len() implies s[i].0@ != id by {
            if i > 0 {
                assert(s.subrange(1, s.len() as int)[i - 1] == s[i]);
            }
        }
    }
}

/// A present key is answered by its slot.
proof fn lemma_lookup_index(s: Seq<(String, RateState)>, i: int)
    requires
        keys_unique(s),
        0 <= i < s.len(),
    ensures
        lookup(s, s[i].0@) == Some(s[i].1),
    decreases s.len(),
{
    if i > 0 {
        let st = s.subrange(1, s.len() as int);
        assert(st[i - 1] == s[i]);
        lemma_lookup_index(st, i - 1);
        assert(s[0].0@ != s[i].0@);
    }
}

/// Removing a slot: its key becomes absent, every other key as before.
proof fn lemma_lookup_remove(s: Seq<(String, RateState)>, i: int, id: Seq<char>)
    requires
        keys_unique(s),
        0 <= i < s.len(),
    ensures
        lookup(s.remove(i), id) == if id == s[i].0@ {
            None::<RateState>
        } else {
            lookup(s, id)
        },
        keys_unique(s.remove(i)),
    decreases s.len(),
{
    let sr = s.remove(i);
    if i == 0 {
        assert(sr =~= s.subrange(1, s.len() as int));
        if id == s[0].0@ {
            lemma_lookup_not_in_tail(s, id);
        }
    } else {
        assert(sr[0] == s[0]);
        assert(sr.subrange(1, sr.len() as int) =~= s.subrange(1, s.len() as int).remove(i - 1));
        if s[0].0@ != id {
            lemma_lookup_remove(s.subrange(1, s.len() as int), i - 1, id);
        } else {
            assert(sr[0].0@ == id);
        }
    }
}

/// With unique keys, the head's key does not recur in the tail.
proof fn lemma_lookup_not_in_tail(s: Seq<(String, RateState)>, id: Seq<char>)
    requires
        keys_unique(s),
        s.len() > 0,
        s[0].0@ == id,
    ensures
        lookup(s.subrange(1, s.len() as int), id) is None,
{
    let st = s.subrange(1, s.len() as int);
    if lookup(st, id) is Some {
        lemma_lookup_some_index(st, id);
        let i = choose|i: int| 0 <= i < st.len() && st[i].0@ == id;
        assert(s[i + 1].0@ == id);
    }
}

/// A present key occupies some slot.
proof fn lemma_lookup_some_index(s: Seq<(String, RateState)>, id: Seq<char>)
    requires
        lookup(s, id) is Some,
    ensures
        exists|i: int| 0 <= i < s.len() && s[i].0@ == id,
    decreases s.len(),
{
    if s.len() > 0 && s[0].0@ != id {
        lemma_lookup_some_index(s.subrange(1, s.len() as int), id);
        let i = choose|i: int|
            0 <= i < s.subrange(1, s.len() as int).len() && s.subrange(1, s.len() as int)[i].0@
                == id;
        assert(s[i + 1].0@ == id);
    }
}

/// Result of a rate limit check.
#[derive(Debug, Clone)]
pub enum RateDecision {
    /// The request is allowed.
    Allow,
    /// The request is rate limited.
    RateLimited(RateLimitInfo),
}

impl RateDecision {
    /// Whether the check rejected.
    pub fn is_limited(&self) -> (r: bool)
        ensures
            r == (self matches RateDecision::RateLimited(_)),
    {
        matches!(self, RateDecision::RateLimited(_))
    }

    /// The rejection detail, when rejected.
    pub fn limit_info(&self) -> (r: Option<&RateLimitInfo>)
        ensures
            match self {
                RateDecision::RateLimited(info) => r matches Some(i) && i == info,
                RateDecision::Allow => r is None,
            },
    {
        match self {
            RateDecision::RateLimited(info) => Some(info),
            RateDecision::Allow => None,
        }
    }
}

/// Why and for how long a check rejected.
#[derive(Debug, Clone)]
pub struct RateLimitInfo {
    /// Which limit was exceeded.
    pub reason: String,
    /// The limit that was exceeded.
    pub limit: u32,
    /// The counter's value when the check rejected.
    pub current: u32,
    /// Seconds until the window lapses.
    pub retry_after_secs: u64,
}

/// Public view of one identity's entry.
#[derive(Debug, Clone)]
pub struct RateStateInfo {
    /// Requests in the current window.
    pub request_count: u32,
    /// Tokens in the current window.
    pub token_count: u32,
    /// Second at which the window began.
    pub window_start: u64,
}

/// Per-identity fixed-window rate limiter.
pub struct RateLimiter {
    limits: RateLimits,
    state: Vec<(String, RateState)>,
    window_seconds: u64,
}

impl RateLimiter {
    /// The per-identity entries.
    pub closed spec fn entries(&self) -> Seq<(String, RateState)> {
        self.state@
    }

    /// The configured limits.
    pub closed spec fn limits_spec(&self) -> RateLimits {
        self.limits
    }

    /// The window length in seconds.
    pub closed spec fn window(&self) -> u64 {
        self.window_seconds
    }

    /// Keys are unique, so each identity owns one entry.
    pub closed spec fn wf(&self) -> bool {
        keys_unique(self.state@)
    }

    /// A limiter with the default limits.
    pub fn new() -> (r: RateLimiter)
        ensures
            r.wf(),
            r.entries() == Seq::<(String, RateState)>::empty(),
            r.limits_spec().requests_per_minute == 100,
            r.limits_spec().tokens_per_minute == 100000,
            r.window() == 60,
    {
        Self::with_limits(RateLimits::default())
    }

    /// A limiter with custom limits and a one-minute window.
    pub fn with_limits(limits: RateLimits) -> (r: RateLimiter)
        ensures
            r.wf(),
            r.entries() == Seq::<(String, RateState)>::empty(),
            r.limits_spec() == limits,
            r.window() == 60,
    {
        RateLimiter { limits, state: Vec::new(), window_seconds: 60 }
    }

    /// Find the slot holding `agent_id`, if any.
    #[verifier::loop_isolation(false)]
    fn find_index(&self, agent_id: &str) -> (r: Option<usize>)
        requires
            self.wf(),
        ensures
            match r {
                Some(i) => i < self.entries().len() && self.entries()[i as int].0@ == agent_id@
                    && lookup(self.entries(), agent_id@) == Some(self.entries()[i as int].1),
                None => lookup(self.entries(), agent_id@) is None,
            },
    {
        let mut i: usize = 0;
        while i < self.state.len()
            invariant
                i <= self.state@.len(),
                forall|j: int| 0 <= j < i ==> self.state@[j].0@ != agent_id@,
            decreases self.state@.len() - i,
        {
            if str_eq(self.state[i].0.as_str(), agent_id) {
                proof {
                    lemma_lookup_index(self.state@, i as int);
                }
                return Some(i);
            }
            i += 1;
        }
        proof {
            lemma_lookup_absent(self.state@, agent_id@);
        }
        None
    }

    /// Charge one request against `agent_id` at `current_time_secs`.
    ///
    /// The identity's entry is rolled to the current window first. If its
    /// request count has reached the limit the check rejects and reports
    /// how long to wait; otherwise the count is incremented and the check
    /// allows. Entries of other identities are never touched.
    pub fn check_request(&mut self, agent_id: &str, current_time_secs: u64) -> (r: RateDecision)
        requires
            old(self).wf(),
        ensures
            final(self).wf(),
            final(self).limits_spec() == old(self).limits_spec(),
            final(self).window() == old(self).window(),
            forall|id2: Seq<char>| #![auto]
                id2 != agent_id@ ==> lookup(final(self).entries(), id2) == lookup(
                    old(self).entries(),
                    id2,
                ),
            ({
                let cur = rolled_entry(
                    lookup(old(self).entries(), agent_id@),
                    current_time_secs,
                    old(self).window(),
                );
                if cur.request_count >= old(self).limits_spec().requests_per_minute {
                    &&& r matches RateDecision::RateLimited(info)
                        && info.reason@ == "requests_per_minute exceeded"@
                        && info.limit == old(self).limits_spec().requests_per_minute
                        && info.current == cur.request_count
                        && info.retry_after_secs == spec_retry_after(cur, current_time_secs, old(self).window())
                    &&& lookup(final(self).entries(), agent_id@) == Some(cur)
                } else {
                    &&& r matches RateDecision::Allow
                    &&& lookup(final(self).entries(), agent_id@) == Some(
                        RateState { request_count: (cur.request_count + 1) as u32, ..cur },
                    )
                }
            }),
    {
        let requests_per_minute = self.limits.requests_per_minute;
        let window_seconds = self.window_seconds;
        let (slot, cur) = self.roll_entry(agent_id, current_time_secs);
        if cur.request_count >= requests_per_minute {
            let retry = Self::retry_after(&cur, current_time_secs, window_seconds);
            return RateDecision::RateLimited(
                RateLimitInfo {
                    reason: "requests_per_minute exceeded".to_owned(),
                    limit: requests_per_minute,
                    current: cur.request_count,
                    retry_after_secs: retry,
                },
            );
        }
        let bumped = RateState { request_count: cur.request_count + 1, ..cur };
        self.store_at(slot, agent_id, bumped);
        RateDecision::Allow
    }

    /// Record `tokens` tokens for `agent_id` at `current_time_secs`.
    ///
    /// The identity's entry is rolled to the current window first. If the
    /// addition would push the token count past the limit the check rejects
    /// without recording; otherwise the tokens are added. Entries of other
    /// identities are never touched.
    pub fn record_tokens(&mut self, agent_id: &str, tokens: u32, current_time_secs: u64) -> (r:
        RateDecision)
        requires
            old(self).wf(),
        ensures
            final(self).wf(),
            final(self).limits_spec() == old(self).limits_spec(),
            final(self).window() == old(self).window(),
            forall|id2: Seq<char>| #![auto]
                id2 != agent_id@ ==> lookup(final(self).entries(), id2) == lookup(
                    old(self).entries(),
                    id2,
                ),
            ({
                let cur = rolled_entry(
                    lookup(old(self).entries(), agent_id@),
                    current_time_secs,
                    old(self).window(),
                );
                if cur.token_count + tokens > old(self).limits_spec().tokens_per_minute {
                    &&& r matches RateDecision::RateLimited(info)
                        && info.reason@ == "tokens_per_minute exceeded"@
                        && info.limit == old(self).limits_spec().tokens_per_minute
                        && info.current == cur.token_count
                        && info.retry_after_secs == spec_retry_after(cur, current_time_secs, old(self).window())
                    &&& lookup(final(self).entries(), agent_id@) == Some(cur)
                } else {
                    &&& r matches RateDecision::Allow
                    &&& lookup(final(self).entries(), agent_id@) == Some(
                        RateState { token_count: (cur.token_count + tokens) as u32, ..cur },
                    )
                }
            }),
    {
        let tokens_per_minute = self.limits.tokens_per_minute;
        let window_seconds = self.window_seconds;
        let (slot, cur) = self.roll_entry(agent_id, current_time_secs);
        if cur.token_count as u64 + tokens as u64 > tokens_per_minute as u64 {
            let retry = Self::retry_after(&cur, current_time_secs, window_seconds);
            return RateDecision::RateLimited(
                RateLimitInfo {
                    reason: "tokens_per_minute exceeded".to_owned(),
                    limit: tokens_per_minute,
                    current: cur.token_count,
                    retry_after_secs: retry,
                },
            );
        }
        let bumped = RateState { token_count: cur.token_count + tokens, ..cur };
        self.store_at(slot, agent_id, bumped);
        RateDecision::Allow
    }

    /// Roll `agent_id`'s entry to the window containing `now` and store it,
    /// returning its slot and the rolled value.
    fn roll_entry(&mut self, agent_id: &str, now: u64) -> (r: (usize, RateState))
        requires
            old(self).wf(),
        ensures
            final(self).wf(),
            final(self).limits_spec() == old(self).limits_spec(),
            final(self).window() == old(self).window(),
            r.1 == rolled_entry(lookup(old(self).entries(), agent_id@), now, old(self).window()),
            r.0 < final(self).entries().len(),
            final(self).entries()[r.0 as int].0@ == agent_id@,
            final(self).entries()[r.0 as int].1 == r.1,
            lookup(final(self).entries(), agent_id@) == Some(r.1),
            forall|id2: Seq<char>| #![auto]
                id2 != agent_id@ ==> lookup(final(self).entries(), id2) == lookup(
                    old(self).entries(),
                    id2,
                ),
    {
        let window_seconds = self.window_seconds;
        match self.find_index(agent_id) {
            Some(i) => {
                let e = self.state[i].1;
                let cur = if now >= e.window_start && now - e.window_start >= window_seconds {
                    RateState { request_count: 0, token_count: 0, window_start: now }
                } else {
                    e
                };
                let key = self.state[i].0.clone();
                let ghost pre = self.state@;
                self.state.set(i, (key, cur));
                proof {
                    assert(self.state@ == pre.update(i as int, (key, cur)));
                    lemma_lookup_update(pre, i as int, self.state@[i as int]);
                }
                (i, cur)
            },
            None => {
                let cur = RateState { request_count: 0, token_count: 0, window_start: now };
                let ghost pre = self.state@;
                self.state.push((agent_id.to_owned(), cur));
                let i = self.state.len() - 1;
                proof {
                    assert(self.state@ == pre.push(self.state@[i as int]));
                    assert forall|id2: Seq<char>| #![auto] lookup(self.state@, id2) == (if id2
                        == agent_id@ {
                        Some(cur)
                    } else {
                        lookup(pre, id2)
                    }) by {
                        lemma_lookup_push(pre, self.state@[i as int], id2);
                    }
                    lemma_lookup_none(pre, agent_id@);
                    assert(keys_unique(self.state@));
                }
                (i, cur)
            },
        }
    }

    /// Store `entry` in the slot owned by `agent_id`.
    fn store_at(&mut self, slot: usize, agent_id: &str, entry: RateState)
        requires
            old(self).wf(),
            slot < old(self).entries().len(),
            old(self).entries()[slot as int].0@ == agent_id@,
        ensures
            final(self).wf(),
            final(self).limits_spec() == old(self).limits_spec(),
            final(self).window() == old(self).window(),
            lookup(final(self).entries(), agent_id@) == Some(entry),
            forall|id2: Seq<char>| #![auto]
                id2 != agent_id@ ==> lookup(final(self).entries(), id2) == lookup(
                    old(self).entries(),
                    id2,
                ),
    {
        let key = self.state[slot].0.clone();
        let ghost pre = self.state@;
        self.state.set(slot, (key, entry));
        proof {
            assert(self.state@ == pre.update(slot as int, (key, entry)));
            lemma_lookup_update(pre, slot as int, self.state@[slot as int]);
        }
    }

    /// Seconds until the window anchored in `e` lapses, clamped to the
    /// window length.
    fn retry_after(e: &RateState, now: u64, window: u64) -> (r: u64)
        ensures
            r == spec_retry_after(*e, now, window),
    {
        let elapsed = if now >= e.window_start {
            now - e.window_start
        } else {
            0
        };
        let clamped = if elapsed < window {
            elapsed
        } else {
            window
        };
        window - clamped
    }

    /// The current entry for an identity, if one is stored.
    pub fn get_state(&self, agent_id: &str) -> (r: Option<RateStateInfo>)
        requires
            self.wf(),
        ensures
            match lookup(self.entries(), agent_id@) {
                Some(e) => r matches Some(info) && info.request_count == e.request_count
                    && info.token_count == e.token_count && info.window_start == e.window_start,
                None => r is None,
            },
    {
        match self.find_index(agent_id) {
            Some(i) => {
                let e = self.state[i].1;
                Some(
                    RateStateInfo {
                        request_count: e.request_count,
                        token_count: e.token_count,
                        window_start: e.window_start,
                    },
                )
            },
            None => None,
        }
    }

    /// Drop the entry for one identity.
    pub fn reset(&mut self, agent_id: &str)
        requires
            old(self).wf(),
        ensures
            final(self).wf(),
            final(self).limits_spec() == old(self).limits_spec(),
            final(self).window() == old(self).window(),
            lookup(final(self).entries(), agent_id@) is None,
            forall|id2: Seq<char>| #![auto]
                id2 != agent_id@ ==> lookup(final(self).entries(), id2) == lookup(
                    old(self).entries(),
                    id2,
                ),
    {
        match self.find_index(agent_id) {
            Some(i) => {
                let ghost pre = self.state@;
                self.state.remove(i);
                proof {
                    assert(self.state@ == pre.remove(i as int));
                    assert forall|id2: Seq<char>| #![auto] lookup(self.state@, id2) == (if id2
                        == agent_id@ {
                        None::<RateState>
                    } else {
                        lookup(pre, id2)
                    }) by {
                        lemma_lookup_remove(pre, i as int, id2);
                    }
                }
            },
            None => {},
        }
    }

    /// Drop every entry.
    pub fn reset_all(&mut self)
        requires
            old(self).wf(),
        ensures
            final(self).wf(),
            final(self).limits_spec() == old(self).limits_spec(),
            final(self).window() == old(self).window(),
            final(self).entries() == Seq::<(String, RateState)>::empty(),
            forall|id2: Seq<char>| #![auto] lookup(final(self).entries(), id2) is None,
    {
        self.state.clear();
    }
}

impl Default for RateLimiter {
    /// A limiter with the default limits.
    fn default() -> (r: RateLimiter)
        ensures
            r.wf(),
            r.entries() == Seq::<(String, RateState)>::empty(),
            r.window() == 60,
    {
        RateLimiter::new()
    }
}

/// An exhausted search means the key is absent.
proof fn lemma_lookup_absent(s: Seq<(String, RateState)>, id: Seq<char>)
    requires
        forall|i: int| 0 <= i < s.len() ==> s[i].0@ != id,
    ensures
        lookup(s, id) is None,
    decreases s.len(),
{
    if s.len() > 0 {
        assert forall|i: int| 0 <= i < s.len() - 1 implies s.subrange(1, s.len() as int)[i].0@
            != id by {
            assert(s.subrange(1, s.len() as int)[i] == s[i + 1]);
        }
        lemma_lookup_absent(s.subrange(1, s.len() as int), id);
    }
}

} // verus!
