//! Server metrics and the per-key rate limiter. Times are milliseconds on
//! the caller's monotonic clock.

use crate::registry::{elapsed_secs, elapsed_secs_exec};
use dashmap::DashMap;
use vstd::prelude::*;
use vstd::string::*;

verus! {

/// Server-wide metrics.
#[derive(Debug, Clone, Copy, PartialEq, Eq, Structural)]
pub struct Metrics {
    pub started_at_ms: u64,
    pub total_requests: u64,
    pub total_bytes_in: u64,
    pub total_bytes_out: u64,
    pub active_connections: u64,
    pub total_connections: u64,
    pub failed_auth: u64,
    pub rate_limited: u64,
}

/// Serializable metrics snapshot for the dashboard.
#[derive(Debug, Clone, Copy, PartialEq, Eq, Structural)]
pub struct MetricsSnapshot {
    pub uptime_secs: u64,
    pub total_requests: u64,
    pub total_bytes_in: u64,
    pub total_bytes_out: u64,
    pub active_connections: u64,
    pub total_connections: u64,
    pub failed_auth: u64,
    pub rate_limited: u64,
}

impl Metrics {
    /// Metrics of a server started at `now_ms`, every counter at zero.
    pub fn new(now_ms: u64) -> (r: Self)
        ensures
            r == (Metrics {
                started_at_ms: now_ms,
                total_requests: 0,
                total_bytes_in: 0,
                total_bytes_out: 0,
                active_connections: 0,
                total_connections: 0,
                failed_auth: 0,
                rate_limited: 0,
            }),
    {
        Metrics {
            started_at_ms: now_ms,
            total_requests: 0,
            total_bytes_in: 0,
            total_bytes_out: 0,
            active_connections: 0,
            total_connections: 0,
            failed_auth: 0,
            rate_limited: 0,
        }
    }

    /// The counters as they are, and the whole seconds since the start.
    pub fn snapshot(&self, now_ms: u64) -> (r: MetricsSnapshot)
        ensures
            r == (MetricsSnapshot {
                uptime_secs: elapsed_secs(self.started_at_ms, now_ms),
                total_requests: self.total_requests,
                total_bytes_in: self.total_bytes_in,
                total_bytes_out: self.total_bytes_out,
                active_connections: self.active_connections,
                total_connections: self.total_connections,
                failed_auth: self.failed_auth,
                rate_limited: self.rate_limited,
            }),
    {
        MetricsSnapshot {
            uptime_secs: elapsed_secs_exec(self.started_at_ms, now_ms),
            total_requests: self.total_requests,
            total_bytes_in: self.total_bytes_in,
            total_bytes_out: self.total_bytes_out,
            active_connections: self.active_connections,
            total_connections: self.total_connections,
            failed_auth: self.failed_auth,
            rate_limited: self.rate_limited,
        }
    }
}

// ─── Rate limiter ────────────────────────────────────────────────

/// The admission times a rate-limiter map holds, by key: when each of the
/// key's recently admitted requests passed, oldest first.
pub uninterp spec fn rate_history(m: DashMap<String, Vec<u64>>) -> Map<Seq<char>, Seq<u64>>;

/// The table of a limiter that has seen no key.
pub open spec fn no_history() -> Map<Seq<char>, Seq<u64>> {
    Map::empty()
}

/// `DashMap::new`: an empty map.
#[verifier::external_body]
fn history_new() -> (r: DashMap<String, Vec<u64>>)
    ensures
        rate_history(r) == no_history(),
{
    DashMap::new()
}

/// `DashMap::get`, copying the value: the admission times under the key, if any.
#[verifier::external_body]
fn history_get(m: &DashMap<String, Vec<u64>>, key: &str) -> (r: Option<Vec<u64>>)
    ensures
        r is Some <==> rate_history(*m).dom().contains(key@),
        r matches Some(h) ==> h@ == rate_history(*m)[key@],
{
    m.get(key).map(|e| e.value().clone())
}

/// `DashMap::insert`: the key now maps to the value; nothing else changes.
#[verifier::external_body]
fn history_insert(m: &mut DashMap<String, Vec<u64>>, key: String, value: Vec<u64>)
    ensures
        rate_history(*final(m)) == rate_history(*old(m)).insert(key@, value@),
{
    m.insert(key, value);
}

/// A request admitted at `t` lies in the second before `now_ms`.
pub open spec fn in_last_second(t: u64, now_ms: u64) -> bool {
    now_ms < t + 1000
}

/// The admission times of `h` that lie in the second before `now_ms`, in order.
pub open spec fn recent(h: Seq<u64>, now_ms: u64) -> Seq<u64>
    decreases h.len(),
{
    if h.len() == 0 {
        Seq::empty()
    } else if in_last_second(h.last(), now_ms) {
        recent(h.drop_last(), now_ms).push(h.last())
    } else {
        recent(h.drop_last(), now_ms)
    }
}

/// The admission times recorded for a key (none for an unseen key).
pub open spec fn history_of(history: Map<Seq<char>, Seq<u64>>, key: Seq<char>) -> Seq<u64> {
    if history.dom().contains(key) {
        history[key]
    } else {
        Seq::empty()
    }
}

/// One check of the limiter: the answer and the table after it. With no
/// limit every request passes and nothing is recorded. Otherwise the key's
/// admissions older than a second are forgotten; the request passes when
/// fewer than the limit remain, and its time is recorded; it is refused when
/// the limit was reached in the second before it.
pub open spec fn rate_check(
    max: u32,
    history: Map<Seq<char>, Seq<u64>>,
    key: Seq<char>,
    now_ms: u64,
) -> (bool, Map<Seq<char>, Seq<u64>>) {
    if max == 0 {
        (true, history)
    } else {
        let r = recent(history_of(history, key), now_ms);
        if r.len() < max {
            (true, history.insert(key, r.push(now_ms)))
        } else {
            (false, history.insert(key, r))
        }
    }
}

/// The admission times of `h` in the second before `now_ms`.
fn recent_times(h: &Vec<u64>, now_ms: u64) -> (r: Vec<u64>)
    ensures
        r@ == recent(h@, now_ms),
{
    let mut r: Vec<u64> = Vec::new();
    let mut i: usize = 0;
    assert(h@.take(0) =~= Seq::<u64>::empty());
    while i < h.len()
        invariant
            i <= h@.len(),
            r@ == recent(h@.take(i as int), now_ms),
        decreases h.len() - i,
    {
        let t = h[i];
        assert(h@.take(i + 1).drop_last() =~= h@.take(i as int));
        assert(h@.take(i + 1).last() == t);
        if t > now_ms || now_ms - t < 1000 {
            r.push(t);
        }
        i = i + 1;
    }
    assert(h@.take(h@.len() as int) =~= h@);
    r
}

/// Simple per-key sliding-window rate limiter.
pub struct RateLimiter {
    max_per_second: u32,
    counters: DashMap<String, Vec<u64>>,
}

impl View for RateLimiter {
    type V = (u32, Map<Seq<char>, Seq<u64>>);

    closed spec fn view(&self) -> (u32, Map<Seq<char>, Seq<u64>>) {
        (self.max_per_second, rate_history(self.counters))
    }
}

impl RateLimiter {
    /// A limiter admitting at most `max_per_second` requests per key within
    /// any second (0: no limit).
    pub fn new(max_per_second: u32) -> (r: Self)
        ensures
            r@ == (max_per_second, no_history()),
    {
        RateLimiter { max_per_second, counters: history_new() }
    }

    /// Returns true if the request is allowed.
    pub fn check(&mut self, key: &str, now_ms: u64) -> (r: bool)
        ensures
            final(self)@.0 == old(self)@.0,
            (r, final(self)@.1) == rate_check(old(self)@.0, old(self)@.1, key@, now_ms),
    {
        if self.max_per_second == 0 {
            return true;
        }
        let hist = match history_get(&self.counters, key) {
            Some(h) => h,
            None => Vec::new(),
        };
        assert(hist@ == history_of(self@.1, key@));
        let mut kept = recent_times(&hist, now_ms);
        let k = String::from_str(key);
        if (kept.len() as u64) < (self.max_per_second as u64) {
            kept.push(now_ms);
            history_insert(&mut self.counters, k, kept);
            true
        } else {
            history_insert(&mut self.counters, k, kept);
            false
        }
    }
}

} // verus!

verus! {

// ─── Laws of the rate limiter ────────────────────────────────────

/// The checks of one key at the given times, in order: the answers, and the
/// table after the last.
pub open spec fn replay(
    max: u32,
    history: Map<Seq<char>, Seq<u64>>,
    key: Seq<char>,
    times: Seq<u64>,
) -> (Seq<bool>, Map<Seq<char>, Seq<u64>>)
    decreases times.len(),
{
    if times.len() == 0 {
        (Seq::empty(), history)
    } else {
        let prev = replay(max, history, key, times.drop_last());
        let step = rate_check(max, prev.1, key, times.last());
        (prev.0.push(step.0), step.1)
    }
}

/// The times of the requests among `times` whose answer in `answers` is yes.
pub open spec fn admitted_times(answers: Seq<bool>, times: Seq<u64>) -> Seq<u64>
    decreases times.len(),
{
    if times.len() == 0 {
        Seq::empty()
    } else if answers[times.len() - 1] {
        admitted_times(answers, times.drop_last()).push(times.last())
    } else {
        admitted_times(answers, times.drop_last())
    }
}

/// The times run forward (a monotonic clock).
pub open spec fn nondecreasing(times: Seq<u64>) -> bool {
    forall|i: int, j: int| 0 <= i <= j < times.len() ==> times[i] <= times[j]
}

/// Any admission is at least a second later than every admission `max` or
/// more places before it: no span shorter than a second holds more than
/// `max` admissions.
pub open spec fn spaced_by_a_second(a: Seq<u64>, max: u32) -> bool {
    forall|i: int, j: int|
        #![trigger a[i], a[j]]
        0 <= i && i + max <= j < a.len() ==> a[i] + 1000 <= a[j]
}

/// With no limit, every request passes and nothing is recorded.
pub proof fn lemma_rate_unlimited(
    history: Map<Seq<char>, Seq<u64>>,
    key: Seq<char>,
    now_ms: u64,
)
    ensures
        rate_check(0, history, key, now_ms) == (true, history),
{
}

/// A check touches only its own key.
pub proof fn lemma_rate_keys_independent(
    max: u32,
    history: Map<Seq<char>, Seq<u64>>,
    key: Seq<char>,
    other: Seq<char>,
    now_ms: u64,
)
    requires
        other != key,
    ensures
        rate_check(max, history, key, now_ms).1.dom().contains(other) == history.dom().contains(
            other,
        ),
        history.dom().contains(other) ==> rate_check(max, history, key, now_ms).1[other]
            == history[other],
{
}

/// Forgetting old admissions never adds any.
proof fn lemma_recent_len(h: Seq<u64>, now_ms: u64)
    ensures
        recent(h, now_ms).len() <= h.len(),
    decreases h.len(),
{
    if h.len() > 0 {
        lemma_recent_len(h.drop_last(), now_ms);
    }
}

/// When every admission from position `k` on lies in the last second, at
/// least that many remain.
proof fn lemma_recent_len_lower(h: Seq<u64>, now_ms: u64, k: int)
    requires
        0 <= k <= h.len(),
        forall|m: int| k <= m < h.len() ==> in_last_second(#[trigger] h[m], now_ms),
    ensures
        recent(h, now_ms).len() >= h.len() - k,
    decreases h.len(),
{
    if h.len() > k {
        let d = h.drop_last();
        assert forall|m: int| k <= m < d.len() implies in_last_second(#[trigger] d[m], now_ms) by {
            assert(d[m] == h[m]);
        }
        lemma_recent_len_lower(d, now_ms, k);
    }
}

/// Forgetting at an earlier time and then at a later one is forgetting at
/// the later one.
proof fn lemma_recent_later(h: Seq<u64>, t1: u64, t2: u64)
    requires
        t1 <= t2,
    ensures
        recent(recent(h, t1), t2) == recent(h, t2),
    decreases h.len(),
{
    if h.len() > 0 {
        let d = h.drop_last();
        lemma_recent_later(d, t1, t2);
        if in_last_second(h.last(), t1) {
            let r1 = recent(d, t1);
            assert(r1.push(h.last()).drop_last() =~= r1);
        }
    }
}

/// A history stays within the limit: every check keeps at most `max`
/// admission times per key.
pub proof fn lemma_rate_count_bounded(
    max: u32,
    history: Map<Seq<char>, Seq<u64>>,
    key: Seq<char>,
    now_ms: u64,
)
    requires
        max > 0,
        forall|k: Seq<char>| #[trigger] history.dom().contains(k) ==> history[k].len() <= max,
    ensures
        forall|k: Seq<char>|
            #[trigger] rate_check(max, history, key, now_ms).1.dom().contains(k) ==> rate_check(
                max,
                history,
                key,
                now_ms,
            ).1[k].len() <= max,
{
    lemma_recent_len(history_of(history, key), now_ms);
}

/// The answers depend only on the answers of the requests before.
proof fn lemma_admitted_prefix(a1: Seq<bool>, a2: Seq<bool>, times: Seq<u64>)
    requires
        forall|i: int| 0 <= i < times.len() ==> a1[i] == a2[i],
    ensures
        admitted_times(a1, times) == admitted_times(a2, times),
    decreases times.len(),
{
    if times.len() > 0 {
        lemma_admitted_prefix(a1, a2, times.drop_last());
    }
}

/// What a run of checks of one new key keeps: the table holds the admissions
/// of the last second, the admissions run forward, the sliding-window bound
/// and the rule for each answer.
proof fn lemma_replay_state(max: u32, history: Map<Seq<char>, Seq<u64>>, key: Seq<char>, times: Seq<u64>)
    requires
        max > 0,
        !history.dom().contains(key),
        nondecreasing(times),
    ensures
        replay(max, history, key, times).0.len() == times.len(),
        times.len() == 0 ==> !replay(max, history, key, times).1.dom().contains(key),
        times.len() > 0 ==> replay(max, history, key, times).1.dom().contains(key)
            && replay(max, history, key, times).1[key] == recent(
            admitted_times(replay(max, history, key, times).0, times),
            times.last(),
        ),
        forall|i: int, j: int|
            0 <= i <= j < admitted_times(replay(max, history, key, times).0, times).len()
                ==> admitted_times(replay(max, history, key, times).0, times)[i]
                <= admitted_times(replay(max, history, key, times).0, times)[j],
        times.len() > 0 ==> forall|i: int|
            0 <= i < admitted_times(replay(max, history, key, times).0, times).len()
                ==> admitted_times(replay(max, history, key, times).0, times)[i] <= times.last(),
        spaced_by_a_second(admitted_times(replay(max, history, key, times).0, times), max),
        forall|i: int|
            0 <= i < times.len() ==> (replay(max, history, key, times).0[i] <==> recent(
                admitted_times(replay(max, history, key, times).0, times.take(i)),
                times[i],
            ).len() < max),
    decreases times.len(),
{
    if times.len() > 0 {
        let n = times.len();
        let d = times.drop_last();
        let t = times.last();
        assert(nondecreasing(d)) by {
            assert forall|i: int, j: int| 0 <= i <= j < d.len() implies d[i] <= d[j] by {
                assert(d[i] == times[i] && d[j] == times[j]);
            }
        }
        lemma_replay_state(max, history, key, d);
        let prev = replay(max, history, key, d);
        let rs = replay(max, history, key, times).0;
        assert(rs == prev.0.push(rate_check(max, prev.1, key, t).0));
        let b = rs[n - 1];
        lemma_admitted_prefix(rs, prev.0, d);
        let ap = admitted_times(prev.0, d);
        let a = admitted_times(rs, times);
        assert(admitted_times(rs, d) == ap);
        // The table before this check holds the recent admissions.
        if n > 1 {
            assert(d.last() == times[n - 2]);
            assert(d.last() <= t);
            lemma_recent_later(ap, d.last(), t);
        } else {
            assert(ap =~= Seq::<u64>::empty());
        }
        assert(recent(history_of(prev.1, key), t) == recent(ap, t));
        assert(b <==> recent(ap, t).len() < max);
        if b {
            assert(a == ap.push(t));
            assert(recent(a, t) =~= recent(ap, t).push(t)) by {
                assert(a.drop_last() =~= ap);
            }
        } else {
            assert(a == ap);
        }
        // Admissions run forward and none is later than `t`.
        if n > 1 {
            assert forall|i: int| 0 <= i < ap.len() implies ap[i] <= t by {
                assert(ap[i] <= d.last());
            }
        }
        // The sliding-window bound for the new admission.
        if b {
            assert forall|i: int, j: int| 0 <= i && i + max <= j < a.len() implies a[i] + 1000
                <= a[j] by {
                if j < ap.len() {
                    assert(a[i] == ap[i] && a[j] == ap[j]);
                } else {
                    assert(a[j] == t);
                    assert(a[i] == ap[i]);
                    if ap[i] + 1000 > t {
                        assert forall|m: int| i <= m < ap.len() implies in_last_second(
                            #[trigger] ap[m],
                            t,
                        ) by {
                            assert(ap[i] <= ap[m]);
                        }
                        lemma_recent_len_lower(ap, t, i);
                        assert(false);
                    }
                }
            }
        }
        // The rule for each answer.
        assert forall|i: int| 0 <= i < times.len() implies (rs[i] <==> recent(
            admitted_times(rs, times.take(i)),
            times[i],
        ).len() < max) by {
            if i < n - 1 {
                assert(times.take(i) =~= d.take(i));
                lemma_admitted_prefix(rs, prev.0, d.take(i));
                assert(rs[i] == prev.0[i]);
                assert(times[i] == d[i]);
            } else {
                assert(times.take(i) =~= d);
            }
        }
    }
}

/// The limiter is a sliding window. For the checks of a key the limiter has
/// not seen, at times that run forward: among the admitted requests, any one
/// is at least a second later than every one `max` or more places before
/// it, so no span shorter than a second holds more than `max` admitted
/// requests; and
/// a request is refused exactly when `max` requests were admitted in the
/// second before it.
pub proof fn lemma_rate_sliding_window(
    max: u32,
    history: Map<Seq<char>, Seq<u64>>,
    key: Seq<char>,
    times: Seq<u64>,
)
    requires
        max > 0,
        !history.dom().contains(key),
        nondecreasing(times),
    ensures
        replay(max, history, key, times).0.len() == times.len(),
        spaced_by_a_second(admitted_times(replay(max, history, key, times).0, times), max),
        forall|i: int|
            0 <= i < times.len() ==> (!replay(max, history, key, times).0[i] <==> recent(
                admitted_times(replay(max, history, key, times).0, times.take(i)),
                times[i],
            ).len() >= max),
{
    lemma_replay_state(max, history, key, times);
}

} // verus!

verus! {

// ─── Calls on several keys ───────────────────────────────────────

/// Checks of any keys, each a key and a time, in order: the answers, and
/// the table after the last.
pub open spec fn replay_calls(
    max: u32,
    history: Map<Seq<char>, Seq<u64>>,
    calls: Seq<(Seq<char>, u64)>,
) -> (Seq<bool>, Map<Seq<char>, Seq<u64>>)
    decreases calls.len(),
{
    if calls.len() == 0 {
        (Seq::empty(), history)
    } else {
        let prev = replay_calls(max, history, calls.drop_last());
        let step = rate_check(max, prev.1, calls.last().0, calls.last().1);
        (prev.0.push(step.0), step.1)
    }
}

/// The times of the calls on `key`, in order.
pub open spec fn times_of(calls: Seq<(Seq<char>, u64)>, key: Seq<char>) -> Seq<u64>
    decreases calls.len(),
{
    if calls.len() == 0 {
        Seq::empty()
    } else if calls.last().0 == key {
        times_of(calls.drop_last(), key).push(calls.last().1)
    } else {
        times_of(calls.drop_last(), key)
    }
}

/// The answers to the calls on `key`, in order.
pub open spec fn answers_of(
    calls: Seq<(Seq<char>, u64)>,
    answers: Seq<bool>,
    key: Seq<char>,
) -> Seq<bool>
    decreases calls.len(),
{
    if calls.len() == 0 {
        Seq::empty()
    } else if calls.last().0 == key {
        answers_of(calls.drop_last(), answers, key).push(answers[calls.len() - 1])
    } else {
        answers_of(calls.drop_last(), answers, key)
    }
}

proof fn lemma_answers_of_prefix(
    calls: Seq<(Seq<char>, u64)>,
    a1: Seq<bool>,
    a2: Seq<bool>,
    key: Seq<char>,
)
    requires
        forall|i: int| 0 <= i < calls.len() ==> a1[i] == a2[i],
    ensures
        answers_of(calls, a1, key) == answers_of(calls, a2, key),
    decreases calls.len(),
{
    if calls.len() > 0 {
        lemma_answers_of_prefix(calls.drop_last(), a1, a2, key);
    }
}

/// Seen from one key, a run of calls on several keys is the run of that
/// key's calls alone: the same answers, and the same recorded history.
proof fn lemma_replay_projection(
    max: u32,
    history: Map<Seq<char>, Seq<u64>>,
    calls: Seq<(Seq<char>, u64)>,
    key: Seq<char>,
)
    ensures
        replay_calls(max, history, calls).0.len() == calls.len(),
        answers_of(calls, replay_calls(max, history, calls).0, key) == replay(
            max,
            history,
            key,
            times_of(calls, key),
        ).0,
        history_of(replay_calls(max, history, calls).1, key) == history_of(
            replay(max, history, key, times_of(calls, key)).1,
            key,
        ),
    decreases calls.len(),
{
    if calls.len() > 0 {
        let d = calls.drop_last();
        lemma_replay_projection(max, history, d, key);
        let prev = replay_calls(max, history, d);
        let rs = replay_calls(max, history, calls).0;
        assert(rs == prev.0.push(rate_check(max, prev.1, calls.last().0, calls.last().1).0));
        lemma_answers_of_prefix(d, rs, prev.0, key);
        let c = calls.last();
        if c.0 == key {
            let tk = times_of(calls, key);
            assert(tk.drop_last() =~= times_of(d, key));
            assert(tk.last() == c.1);
        } else {
            lemma_rate_keys_independent(max, prev.1, c.0, key, c.1);
        }
    }
}

/// The sliding window holds for each key on its own, whatever the calls on
/// other keys in between: for a key the limiter had not seen, whose calls
/// come at times that run forward, no span shorter than a second holds more
/// than `max` of its admitted calls, and a call on it is refused exactly
/// when `max` of its calls were admitted in the second before.
pub proof fn lemma_rate_sliding_window_interleaved(
    max: u32,
    history: Map<Seq<char>, Seq<u64>>,
    calls: Seq<(Seq<char>, u64)>,
    key: Seq<char>,
)
    requires
        max > 0,
        !history.dom().contains(key),
        nondecreasing(times_of(calls, key)),
    ensures
        answers_of(calls, replay_calls(max, history, calls).0, key).len() == times_of(
            calls,
            key,
        ).len(),
        spaced_by_a_second(
            admitted_times(
                answers_of(calls, replay_calls(max, history, calls).0, key),
                times_of(calls, key),
            ),
            max,
        ),
        forall|i: int|
            0 <= i < times_of(calls, key).len() ==> (!answers_of(
                calls,
                replay_calls(max, history, calls).0,
                key,
            )[i] <==> recent(
                admitted_times(
                    answers_of(calls, replay_calls(max, history, calls).0, key),
                    times_of(calls, key).take(i),
                ),
                times_of(calls, key)[i],
            ).len() >= max),
{
    lemma_replay_projection(max, history, calls, key);
    lemma_rate_sliding_window(max, history, key, times_of(calls, key));
}

} // verus!

verus! {

/// `n` checks of one key at one instant: how many pass, and the table after.
pub open spec fn repeat_checks(
    max: u32,
    history: Map<Seq<char>, Seq<u64>>,
    key: Seq<char>,
    now_ms: u64,
    n: nat,
) -> (nat, Map<Seq<char>, Seq<u64>>)
    decreases n,
{
    if n == 0 {
        (0, history)
    } else {
        let (passed, w) = repeat_checks(max, history, key, now_ms, (n - 1) as nat);
        let (ok, w2) = rate_check(max, w, key, now_ms);
        ((passed + if ok { 1nat } else { 0nat }) as nat, w2)
    }
}

/// Admissions that all lie in the last second are all kept.
proof fn lemma_recent_keeps_all(h: Seq<u64>, now_ms: u64)
    requires
        forall|i: int| 0 <= i < h.len() ==> in_last_second(#[trigger] h[i], now_ms),
    ensures
        recent(h, now_ms) == h,
    decreases h.len(),
{
    if h.len() > 0 {
        let d = h.drop_last();
        assert forall|i: int| 0 <= i < d.len() implies in_last_second(#[trigger] d[i], now_ms) by {
            assert(d[i] == h[i]);
        }
        lemma_recent_keeps_all(d, now_ms);
        assert(d.push(h.last()) =~= h);
    }
}

/// Of `n` requests from a new key within one instant, exactly the first
/// `max` pass (all of them when there is no limit).
pub proof fn lemma_rate_burst(
    max: u32,
    history: Map<Seq<char>, Seq<u64>>,
    key: Seq<char>,
    now_ms: u64,
    n: nat,
)
    requires
        !history.dom().contains(key),
    ensures
        max == 0 ==> repeat_checks(max, history, key, now_ms, n).0 == n,
        max > 0 ==> repeat_checks(max, history, key, now_ms, n).0 == (if n < max {
            n
        } else {
            max as nat
        }),
        max > 0 && n > 0 ==> repeat_checks(max, history, key, now_ms, n).1.dom().contains(key)
            && repeat_checks(max, history, key, now_ms, n).1[key] == Seq::new(
            (if n < max {
                n
            } else {
                max as nat
            }),
            |i: int| now_ms,
        ),
    decreases n,
{
    if n > 0 {
        lemma_rate_burst(max, history, key, now_ms, (n - 1) as nat);
        if max == 0 {
            assert(repeat_checks(max, history, key, now_ms, (n - 1) as nat).1 == history) by {
                lemma_rate_unchanged_unlimited(history, key, now_ms, (n - 1) as nat);
            }
        } else {
            let w = repeat_checks(max, history, key, now_ms, (n - 1) as nat).1;
            let c: nat = if n - 1 < max {
                (n - 1) as nat
            } else {
                max as nat
            };
            let h = Seq::new(c, |i: int| now_ms);
            assert(history_of(w, key) =~= h) by {
                if n == 1 {
                    assert(!w.dom().contains(key));
                }
            }
            lemma_recent_keeps_all(h, now_ms);
            if c < max {
                assert(h.push(now_ms) =~= Seq::new(c + 1, |i: int| now_ms));
            }
        }
    }
}

proof fn lemma_rate_unchanged_unlimited(
    history: Map<Seq<char>, Seq<u64>>,
    key: Seq<char>,
    now_ms: u64,
    n: nat,
)
    ensures
        repeat_checks(0, history, key, now_ms, n).1 == history,
    decreases n,
{
    if n > 0 {
        lemma_rate_unchanged_unlimited(history, key, now_ms, (n - 1) as nat);
    }
}

} // verus!
