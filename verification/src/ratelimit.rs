//! Fixed-window per-key request limiter. Window is 60 seconds.
use vstd::prelude::*;
use crate::text::{chars_of, same_chars};

verus! {

/// Length of one counting window, in seconds.
pub const WINDOW_SECS: u64 = 60;

/// The window a key was last seen in, and how many requests it was allowed there.
pub struct WindowEntry {
    pub key: Vec<char>,
    pub window: u64,
    pub count: u32,
}

pub struct RateLimiter {
    limit: u32,
    entries: Vec<WindowEntry>,
}

/// The `(window, count)` recorded for `key`: the first entry that names it.
pub open spec fn lookup(es: Seq<WindowEntry>, key: Seq<char>) -> Option<(u64, u32)>
    decreases es.len(),
{
    if es.len() == 0 {
        None
    } else if es[0].key@ == key {
        Some((es[0].window, es[0].count))
    } else {
        lookup(es.drop_first(), key)
    }
}

/// The entry a check leaves for a key that held `prev`, and whether it allows
/// the request: a record from another window starts over at zero, and a
/// request is allowed while the count is under the limit.
pub open spec fn check_step(prev: Option<(u64, u32)>, limit: u32, now_secs: u64) -> ((u64, u32), bool) {
    let window = now_secs / WINDOW_SECS;
    let count: u32 = match prev {
        Some((w, c)) => if w == window { c } else { 0 },
        None => 0,
    };
    if count >= limit {
        ((window, count), false)
    } else {
        ((window, (count + 1) as u32), true)
    }
}

proof fn lemma_lookup_hit(es: Seq<WindowEntry>, key: Seq<char>, i: int)
    requires
        0 <= i < es.len(),
        es[i].key@ == key,
        forall|j: int| 0 <= j < i ==> es[j].key@ != key,
    ensures
        lookup(es, key) == Some((es[i].window, es[i].count)),
    decreases i,
{
    if i > 0 {
        lemma_lookup_hit(es.drop_first(), key, i - 1);
    }
}

proof fn lemma_lookup_miss(es: Seq<WindowEntry>, key: Seq<char>)
    requires
        forall|j: int| 0 <= j < es.len() ==> es[j].key@ != key,
    ensures
        lookup(es, key) is None,
    decreases es.len(),
{
    if es.len() > 0 {
        lemma_lookup_miss(es.drop_first(), key);
    }
}

proof fn lemma_lookup_update(es: Seq<WindowEntry>, i: int, e: WindowEntry, other: Seq<char>)
    requires
        0 <= i < es.len(),
        e.key@ == es[i].key@,
        other != es[i].key@,
    ensures
        lookup(es.update(i, e), other) == lookup(es, other),
    decreases es.len(),
{
    if i > 0 {
        assert(es.update(i, e).drop_first() =~= es.drop_first().update(i - 1, e));
        lemma_lookup_update(es.drop_first(), i - 1, e, other);
    } else {
        assert(es.update(i, e).drop_first() =~= es.drop_first());
    }
}

proof fn lemma_lookup_push(es: Seq<WindowEntry>, e: WindowEntry, other: Seq<char>)
    requires
        lookup(es, e.key@) is None,
    ensures
        lookup(es.push(e), e.key@) == Some((e.window, e.count)),
        other != e.key@ ==> lookup(es.push(e), other) == lookup(es, other),
    decreases es.len(),
{
    if es.len() == 0 {
        assert(es.push(e)[0] == e);
        assert(es.push(e).drop_first() =~= es);
    } else {
        assert(es.push(e).drop_first() =~= es.drop_first().push(e));
        lemma_lookup_push(es.drop_first(), e, other);
    }
}

impl RateLimiter {
    /// The record of `key`, if the limiter has seen it.
    pub closed spec fn entry(&self, key: Seq<char>) -> Option<(u64, u32)> {
        lookup(self.entries@, key)
    }

    pub closed spec fn limit(&self) -> u32 {
        self.limit
    }

    pub fn new(limit: u32) -> (r: Self)
        ensures
            r.limit() == limit,
            forall|k: Seq<char>| r.entry(k) is None,
            r.after_run(Seq::<(Seq<char>, u64)>::empty()),
    {
        RateLimiter { limit, entries: Vec::new() }
    }

    /// Returns true if the request is allowed, false if the key is over its limit.
    pub fn check(&mut self, key: &str, now_secs: u64) -> (r: bool)
        ensures
            final(self).limit() == old(self).limit(),
            final(self).entry(key@) == Some(check_step(old(self).entry(key@), old(self).limit(), now_secs).0),
            r == check_step(old(self).entry(key@), old(self).limit(), now_secs).1,
            forall|k: Seq<char>| k != key@ ==> final(self).entry(k) == old(self).entry(k),
    {
        let window = now_secs / WINDOW_SECS;
        let kc = chars_of(key);
        let mut i: usize = 0;
        while i < self.entries.len()
            invariant
                i <= self.entries.len(),
                forall|j: int| 0 <= j < i ==> self.entries@[j].key@ != kc@,
            ensures
                i <= self.entries.len(),
                forall|j: int| 0 <= j < i ==> self.entries@[j].key@ != kc@,
                i < self.entries.len() ==> self.entries@[i as int].key@ == kc@,
            decreases self.entries.len() - i,
        {
            if same_chars(&self.entries[i].key, &kc) {
                break;
            }
            i += 1;
        }
        proof {
            if i < self.entries.len() {
                lemma_lookup_hit(self.entries@, key@, i as int);
            } else {
                lemma_lookup_miss(self.entries@, key@);
            }
        }
        let ghost es = self.entries@;
        let prev_count: u32 = if i < self.entries.len() {
            if self.entries[i].window == window { self.entries[i].count } else { 0 }
        } else {
            0
        };
        let allowed = prev_count < self.limit;
        let count = if allowed { prev_count + 1 } else { prev_count };
        let e = WindowEntry { key: kc, window, count };
        if i < self.entries.len() {
            self.entries.set(i, e);
            proof {
                lemma_lookup_hit(self.entries@, key@, i as int);
                assert forall|k: Seq<char>| k != key@ implies lookup(self.entries@, k) == lookup(es, k) by {
                    lemma_lookup_update(es, i as int, e, k);
                    assert(self.entries@ == es.update(i as int, e));
                }
            }
        } else {
            self.entries.push(e);
            proof {
                assert forall|k: Seq<char>| k != key@ implies lookup(self.entries@, k) == lookup(es, k) by {
                    lemma_lookup_push(es, e, k);
                }
                lemma_lookup_push(es, e, key@);
            }
        }
        allowed
    }
}


} // verus!

verus! {

/// The record a key holds after `n` checks at the same moment, starting unseen.
pub open spec fn after_checks(limit: u32, now_secs: u64, n: nat) -> Option<(u64, u32)>
    decreases n,
{
    if n == 0 {
        None
    } else {
        Some(check_step(after_checks(limit, now_secs, (n - 1) as nat), limit, now_secs).0)
    }
}

/// Within one window a key is allowed exactly `limit` requests: the
/// `(n + 1)`-th check is allowed if and only if `n < limit`.
pub proof fn allows_up_to_the_limit_then_blocks(limit: u32, now_secs: u64, n: nat)
    ensures
        check_step(after_checks(limit, now_secs, n), limit, now_secs).1 == (n < limit),
        n > 0 ==> after_checks(limit, now_secs, n) == Some(
            (now_secs / WINDOW_SECS, if n < limit { n as u32 } else { limit }),
        ),
    decreases n,
{
    if n > 0 {
        allows_up_to_the_limit_then_blocks(limit, now_secs, (n - 1) as nat);
    }
}

/// A record from an earlier window does not count against the current one.
pub proof fn next_window_resets_the_count(prev: (u64, u32), limit: u32, now_secs: u64)
    requires
        prev.0 != now_secs / WINDOW_SECS,
    ensures
        check_step(Some(prev), limit, now_secs) == check_step(None, limit, now_secs),
        limit > 0 ==> check_step(Some(prev), limit, now_secs) == ((now_secs / WINDOW_SECS, 1u32), true),
{
}

/// No check ever records more than `limit` requests for a key that was
/// within the limit.
pub proof fn count_stays_within_the_limit(prev: Option<(u64, u32)>, limit: u32, now_secs: u64)
    requires
        prev matches Some((w, c)) ==> c <= limit,
    ensures
        check_step(prev, limit, now_secs).0.1 <= limit,
{
}

/// The record a key holds after a run of checks `(key, now_secs)` made on a
/// new limiter; checks of other keys leave it alone.
pub open spec fn run_entry(calls: Seq<(Seq<char>, u64)>, limit: u32, k: Seq<char>) -> Option<(u64, u32)>
    decreases calls.len(),
{
    if calls.len() == 0 {
        None
    } else {
        let prev = run_entry(calls.drop_last(), limit, k);
        if calls.last().0 == k {
            Some(check_step(prev, limit, calls.last().1).0)
        } else {
            prev
        }
    }
}

/// Whether the last check of a run was allowed.
pub open spec fn last_allowed(calls: Seq<(Seq<char>, u64)>, limit: u32) -> bool
    recommends
        calls.len() > 0,
{
    check_step(run_entry(calls.drop_last(), limit, calls.last().0), limit, calls.last().1).1
}

/// How many checks of `k` were allowed in the key's latest unbroken stretch
/// of checks within window `w` (0 when its latest check was in another
/// window).
pub open spec fn allowed_in_window(calls: Seq<(Seq<char>, u64)>, limit: u32, k: Seq<char>, w: u64) -> nat
    decreases calls.len(),
{
    if calls.len() == 0 {
        0
    } else if calls.last().0 != k {
        allowed_in_window(calls.drop_last(), limit, k, w)
    } else if calls.last().1 / WINDOW_SECS != w {
        0
    } else {
        allowed_in_window(calls.drop_last(), limit, k, w) + (if last_allowed(calls, limit) { 1nat } else { 0nat })
    }
}

proof fn lemma_window_of_entry(calls: Seq<(Seq<char>, u64)>, limit: u32, k: Seq<char>, w: u64)
    ensures
        (match run_entry(calls, limit, k) {
            Some((w2, _)) => w2 != w,
            None => true,
        }) ==> allowed_in_window(calls, limit, k, w) == 0,
    decreases calls.len(),
{
    if calls.len() > 0 {
        lemma_window_of_entry(calls.drop_last(), limit, k, w);
    }
}

/// A check of one key leaves the record of every other key as it was.
pub proof fn other_keys_are_untouched(
    calls: Seq<(Seq<char>, u64)>,
    limit: u32,
    k: Seq<char>,
    other: Seq<char>,
    now_secs: u64,
)
    requires
        other != k,
    ensures
        run_entry(calls.push((other, now_secs)), limit, k) == run_entry(calls, limit, k),
{
    assert(calls.push((other, now_secs)).drop_last() =~= calls);
}

/// Over any run of checks on a new limiter, the count a key holds is the
/// number of its checks allowed in its current unbroken window, and never
/// more than the limit: within one window at most `limit` checks of a key
/// pass, and checks of other keys never change that.
pub proof fn a_window_allows_at_most_the_limit(calls: Seq<(Seq<char>, u64)>, limit: u32, k: Seq<char>)
    ensures
        run_entry(calls, limit, k) matches Some((w, c)) ==> c == allowed_in_window(calls, limit, k, w) && c <= limit,
    decreases calls.len(),
{
    if calls.len() > 0 {
        let d = calls.drop_last();
        a_window_allows_at_most_the_limit(d, limit, k);
        if calls.last().0 == k {
            let prev = run_entry(d, limit, k);
            let w = calls.last().1 / WINDOW_SECS;
            lemma_window_of_entry(d, limit, k, w);
            count_stays_within_the_limit(prev, limit, calls.last().1);
        }
    }
}

impl RateLimiter {
    /// A limiter whose records are those of a run of checks on a new one.
    pub open spec fn after_run(&self, calls: Seq<(Seq<char>, u64)>) -> bool {
        forall|k: Seq<char>| #[trigger] self.entry(k) == run_entry(calls, self.limit(), k)
    }
}

/// A new limiter is the one after no checks, and each check extends the
/// run it stands for by that check, answering as the run says.
pub proof fn checks_follow_the_run(before: RateLimiter, after: RateLimiter, calls: Seq<(Seq<char>, u64)>, key: Seq<char>, now_secs: u64, r: bool)
    requires
        before.after_run(calls),
        after.limit() == before.limit(),
        after.entry(key) == Some(check_step(before.entry(key), before.limit(), now_secs).0),
        r == check_step(before.entry(key), before.limit(), now_secs).1,
        forall|k: Seq<char>| k != key ==> after.entry(k) == before.entry(k),
    ensures
        after.after_run(calls.push((key, now_secs))),
        r == last_allowed(calls.push((key, now_secs)), before.limit()),
{
    let c2 = calls.push((key, now_secs));
    assert(c2.drop_last() =~= calls);
    assert forall|k: Seq<char>| #[trigger] after.entry(k) == run_entry(c2, after.limit(), k) by {
        assert(before.entry(k) == run_entry(calls, before.limit(), k));
    }
}

} // verus!
