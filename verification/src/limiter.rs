//! Fixed-window request limiter keyed by a client string.
//!
//! Each key owns one window: the time its window started and how many
//! requests were admitted in it. A request is admitted while the count is
//! below the limit; once the window has run out, the next request opens a
//! fresh window and is admitted.
use vstd::prelude::*;

use dashmap::DashMap;
use std::time::Instant;

verus! {

#[verifier::external_type_specification]
#[verifier::external_body]
#[verifier::reject_recursive_types(K)]
#[verifier::reject_recursive_types(V)]
#[verifier::reject_recursive_types(S)]
pub struct ExDashMap<K, V, S>(DashMap<K, V, S>);

#[verifier::external_type_specification]
#[verifier::external_body]
pub struct ExInstant(Instant);

/// The table the limiter keeps: key to (admitted count, window start in ns).
pub type WindowTable = DashMap<String, (u32, u64)>;

/// What a `DashMap` of the limiter holds: for each key (by its characters),
/// the admitted count and the start of its window in nanoseconds.
pub uninterp spec fn window_table(m: WindowTable) -> Map<Seq<char>, (u32, u64)>;

/// `DashMap::new`: the new map holds no entry.
#[verifier::external_body]
fn table_new() -> (fresh: WindowTable)
    ensures
        window_table(fresh).dom() == Set::<Seq<char>>::empty(),
{
    DashMap::new()
}

/// `DashMap::get`, with the entry copied out: the value stored under the key,
/// if there is one.
#[verifier::external_body]
fn table_get(m: &WindowTable, key: &String) -> (r: Option<(u32, u64)>)
    ensures
        r == (if window_table(*m).contains_key(key@) {
            Some(window_table(*m)[key@])
        } else {
            None
        }),
{
    match m.get(key) {
        Some(entry) => Some(*entry),
        None => None,
    }
}

/// `DashMap::insert`: afterwards the key maps to the value and every other
/// entry is as it was. The map is taken by `&mut` so that no other code can
/// change it during the call.
#[verifier::external_body]
fn table_insert(m: &mut WindowTable, key: String, value: (u32, u64))
    ensures
        window_table(*final(m)) == window_table(*old(m)).insert(key@, value),
{
    m.insert(key, value);
}

/// `Instant::now`: a reading of the monotonic clock. Nothing is stated of it.
#[verifier::external_body]
fn clock_now() -> Instant {
    Instant::now()
}

/// `Instant::elapsed`, in nanoseconds. The value depends on the
/// clock, so nothing is stated of it.
#[verifier::external_body]
fn nanos_since(origin: &Instant) -> u64 {
    origin.elapsed().as_nanos() as u64
}

/// Time passed from `since` to `now`; zero when `now` is the earlier reading.
pub open spec fn elapsed(now: u64, since: u64) -> nat {
    if now >= since {
        (now - since) as nat
    } else {
        0
    }
}

/// The entry a request finds: the stored one, or a new window opened now
/// with nothing admitted yet.
pub open spec fn entry_or_fresh(entry: Option<(u32, u64)>, now: u64) -> (u32, u64) {
    match entry {
        Some(e) => e,
        None => (0, now),
    }
}

/// One request against one key: the entry stored afterwards and whether the
/// request is admitted.
pub open spec fn limit_step(entry: Option<(u32, u64)>, max: u32, window_ns: u64, now: u64) -> (
    (u32, u64),
    bool,
) {
    let e = entry_or_fresh(entry, now);
    if elapsed(now, e.1) > window_ns {
        ((1, now), true)
    } else if e.0 >= max {
        (e, false)
    } else {
        (((e.0 + 1) as u32, e.1), true)
    }
}

/// The entry stored under a key of a table, if any.
pub open spec fn lookup(t: Map<Seq<char>, (u32, u64)>, key: Seq<char>) -> Option<(u32, u64)> {
    if t.contains_key(key) {
        Some(t[key])
    } else {
        None
    }
}

/// The table and answer after one request for `key` at time `now`.
pub open spec fn limit_post(
    before: Map<Seq<char>, (u32, u64)>,
    after: Map<Seq<char>, (u32, u64)>,
    key: Seq<char>,
    max: u32,
    window_ns: u64,
    now: u64,
    admitted: bool,
) -> bool {
    let (e, a) = limit_step(lookup(before, key), max, window_ns, now);
    &&& after == before.insert(key, e)
    &&& admitted == a
}

/// Request counts per key, with the clock they are measured against and
/// the latest reading of that clock that a request was counted at.
pub struct RateLimiter {
    table: WindowTable,
    origin: Instant,
    latest: u64,
}

impl RateLimiter {
    /// The windows of every key, by the key's characters.
    pub closed spec fn windows(&self) -> Map<Seq<char>, (u32, u64)> {
        window_table(self.table)
    }

    /// The latest clock reading (nanoseconds since the limiter was made) at
    /// which a request was counted; zero before the first.
    pub closed spec fn last_reading(&self) -> u64 {
        self.latest
    }

    /// A limiter with no key seen yet; its clock starts now.
    pub fn new() -> (r: RateLimiter)
        ensures
            r.windows().dom() == Set::<Seq<char>>::empty(),
            r.last_reading() == 0,
    {
        RateLimiter { table: table_new(), origin: clock_now(), latest: 0 }
    }

    /// Nanoseconds since the limiter was made. `Instant` is monotonic, so a
    /// reading is never earlier than one taken before; the latest counted
    /// reading is kept so that this holds by construction.
    pub fn now_ns(&self) -> (r: u64)
        ensures
            r >= self.last_reading(),
    {
        let raw = nanos_since(&self.origin);
        if raw < self.latest {
            self.latest
        } else {
            raw
        }
    }
}

/// Elapsed nanoseconds between two readings of the limiter's clock.
pub fn elapsed_ns(now: u64, since: u64) -> (r: u64)
    ensures
        r == elapsed(now, since),
{
    if now >= since {
        now - since
    } else {
        0
    }
}

/// Counts one request for `key` at time `now` (nanoseconds on the limiter's
/// clock) and says whether it is admitted: at most `max` per key in a window
/// of `window_ns`.
pub fn check_rate_limit_at(
    limiter: &mut RateLimiter,
    key: String,
    max: u32,
    window_ns: u64,
    now: u64,
) -> (admitted: bool)
    ensures
        limit_post(old(limiter).windows(), final(limiter).windows(), key@, max, window_ns, now, admitted),
        final(limiter).last_reading() == old(limiter).last_reading(),
{
    let found = table_get(&limiter.table, &key);
    let e: (u32, u64) = match found {
        Some(e) => e,
        None => (0, now),
    };
    if elapsed_ns(now, e.1) > window_ns {
        table_insert(&mut limiter.table, key, (1, now));
        true
    } else if e.0 >= max {
        table_insert(&mut limiter.table, key, e);
        false
    } else {
        table_insert(&mut limiter.table, key, (e.0 + 1, e.1));
        true
    }
}

/// One request for `key` counted at the limiter's current clock reading:
/// the reading is no earlier than the last one counted, becomes the new
/// last reading, and the table and answer are those of one `limit_step` at
/// that reading.
pub open spec fn counted_now(
    before: RateLimiter,
    after: RateLimiter,
    key: Seq<char>,
    max: u32,
    window_ns: u64,
    admitted: bool,
) -> bool {
    &&& before.last_reading() <= after.last_reading()
    &&& limit_post(before.windows(), after.windows(), key, max, window_ns, after.last_reading(), admitted)
}

/// Counts one request for `key` now and says whether it is admitted: at most
/// `max` per key in a window of `window_ns` nanoseconds.
pub fn check_rate_limit(limiter: &mut RateLimiter, key: String, max: u32, window_ns: u64) -> (admitted: bool)
    ensures
        counted_now(*old(limiter), *final(limiter), key@, max, window_ns, admitted),
{
    let now = limiter.now_ns();
    limiter.latest = now;
    check_rate_limit_at(limiter, key, max, window_ns, now)
}


/// The smaller of two naturals.
pub open spec fn min_nat(a: nat, b: nat) -> nat {
    if a <= b {
        a
    } else {
        b
    }
}

/// The entry of one key and how many requests were admitted, after
/// requests for that key at `times`, in order, starting from `entry`.
pub open spec fn run_requests(entry: Option<(u32, u64)>, max: u32, window_ns: u64, times: Seq<u64>) -> (
    Option<(u32, u64)>,
    nat,
)
    decreases times.len(),
{
    if times.len() == 0 {
        (entry, 0)
    } else {
        let (e, n) = run_requests(entry, max, window_ns, times.drop_last());
        let (e2, a) = limit_step(e, max, window_ns, times.last());
        (Some(e2), if a {
            n + 1
        } else {
            n
        })
    }
}

/// Within one window, a client is admitted exactly up to the limit: for a
/// key seen for the first time, requests that all come no later than
/// `window_ns` after the first are admitted `min(count, max)` times; the
/// window keeps its start and counts the admitted ones.
pub proof fn lemma_window_admits_up_to_limit(max: u32, window_ns: u64, times: Seq<u64>)
    requires
        times.len() > 0,
        forall|i: int| 0 <= i < times.len() ==> times[0] <= #[trigger] times[i] && times[i] <= times[0] + window_ns,
    ensures
        run_requests(None, max, window_ns, times) == (
            Some((min_nat(times.len(), max as nat) as u32, times[0])),
            min_nat(times.len(), max as nat),
        ),
    decreases times.len(),
{
    if times.len() == 1 {
        assert(times.drop_last().len() == 0);
    } else {
        let p = times.drop_last();
        assert forall|i: int| 0 <= i < p.len() implies p[0] <= #[trigger] p[i] && p[i] <= p[0] + window_ns by {
            assert(p[i] == times[i]);
        }
        lemma_window_admits_up_to_limit(max, window_ns, p);
        assert(times.last() == times[times.len() - 1]);
    }
}

/// Once a window has run out, the next request opens a new one at its own
/// time and is admitted, whatever the count was.
pub proof fn lemma_expired_window_readmits(e: (u32, u64), max: u32, window_ns: u64, now: u64)
    requires
        elapsed(now, e.1) > window_ns,
    ensures
        limit_step(Some(e), max, window_ns, now) == ((1u32, now), true),
{
}

/// A refused request leaves its window as it was.
pub proof fn lemma_refusal_keeps_window(entry: Option<(u32, u64)>, max: u32, window_ns: u64, now: u64)
    requires
        !limit_step(entry, max, window_ns, now).1,
    ensures
        limit_step(entry, max, window_ns, now).0 == entry_or_fresh(entry, now),
{
}


/// `n` requests for a key the table does not hold yet, each counted by
/// `check_rate_limit_at` (one `limit_post` step per call, tables in order),
/// all within one window of the first: call `i` (from 0) is admitted exactly
/// when `i < max`, and the key ends with `min(n, max)` admitted requests in
/// the window opened by the first.
pub proof fn lemma_calls_within_window(
    tables: Seq<Map<Seq<char>, (u32, u64)>>,
    answers: Seq<bool>,
    key: Seq<char>,
    max: u32,
    window_ns: u64,
    times: Seq<u64>,
)
    requires
        times.len() > 0,
        tables.len() == times.len() + 1,
        answers.len() == times.len(),
        !tables[0].contains_key(key),
        forall|i: int| 0 <= i < times.len() ==> times[0] <= #[trigger] times[i] && times[i] <= times[0] + window_ns,
        forall|i: int|
            0 <= i < times.len() ==> limit_post(
                tables[i],
                #[trigger] tables[i + 1],
                key,
                max,
                window_ns,
                times[i],
                answers[i],
            ),
    ensures
        forall|i: int| 0 <= i < times.len() ==> #[trigger] answers[i] == (i < max),
        lookup(tables[times.len() as int], key) == Some((min_nat(times.len(), max as nat) as u32, times[0])),
{
    lemma_calls_prefix(tables, answers, key, max, window_ns, times, times.len() as int);
}

proof fn lemma_calls_prefix(
    tables: Seq<Map<Seq<char>, (u32, u64)>>,
    answers: Seq<bool>,
    key: Seq<char>,
    max: u32,
    window_ns: u64,
    times: Seq<u64>,
    k: int,
)
    requires
        1 <= k <= times.len(),
        tables.len() == times.len() + 1,
        answers.len() == times.len(),
        !tables[0].contains_key(key),
        forall|i: int| 0 <= i < times.len() ==> times[0] <= #[trigger] times[i] && times[i] <= times[0] + window_ns,
        forall|i: int|
            0 <= i < times.len() ==> limit_post(
                tables[i],
                #[trigger] tables[i + 1],
                key,
                max,
                window_ns,
                times[i],
                answers[i],
            ),
    ensures
        forall|i: int| 0 <= i < k ==> #[trigger] answers[i] == (i < max),
        lookup(tables[k], key) == Some((min_nat(k as nat, max as nat) as u32, times[0])),
    decreases k,
{
    let j = k - 1;
    assert(limit_post(tables[j], tables[j + 1], key, max, window_ns, times[j], answers[j]));
    assert(times[0] <= times[j] && times[j] <= times[0] + window_ns);
    if k > 1 {
        lemma_calls_prefix(tables, answers, key, max, window_ns, times, k - 1);
    }
    assert(tables[j + 1].contains_key(key));
}

/// Every window in the table has admitted at least one and at most its
/// key's limit.
pub open spec fn counts_within(t: Map<Seq<char>, (u32, u64)>, limit: spec_fn(Seq<char>) -> u32) -> bool {
    forall|k: Seq<char>| #[trigger] t.contains_key(k) ==> 1 <= t[k].0 <= limit(k)
}

/// A new limiter holds no window, so every count is within its limit.
pub proof fn lemma_new_counts_within(t: Map<Seq<char>, (u32, u64)>, limit: spec_fn(Seq<char>) -> u32)
    requires
        t.dom() == Set::<Seq<char>>::empty(),
    ensures
        counts_within(t, limit),
{
    assert forall|k: Seq<char>| #[trigger] t.contains_key(k) implies 1 <= t[k].0 <= limit(k) by {
        assert(t.dom().contains(k));
    }
}

/// When each key is always counted against one limit of at least one,
/// every count stays between one and that limit: a request keeps it so for
/// its key and leaves the other keys alone.
pub proof fn lemma_counts_stay_within(
    before: Map<Seq<char>, (u32, u64)>,
    after: Map<Seq<char>, (u32, u64)>,
    key: Seq<char>,
    max: u32,
    window_ns: u64,
    now: u64,
    admitted: bool,
    limit: spec_fn(Seq<char>) -> u32,
)
    requires
        counts_within(before, limit),
        limit(key) == max,
        max >= 1,
        limit_post(before, after, key, max, window_ns, now, admitted),
    ensures
        counts_within(after, limit),
{
    assert forall|k: Seq<char>| #[trigger] after.contains_key(k) implies 1 <= after[k].0 <= limit(k) by {
        if k != key {
            assert(before.contains_key(k));
        }
    }
}


/// Clients do not share a window: a request for one key leaves the window
/// of every other key as it was.
pub proof fn lemma_other_keys_untouched(
    before: Map<Seq<char>, (u32, u64)>,
    after: Map<Seq<char>, (u32, u64)>,
    key: Seq<char>,
    other: Seq<char>,
    max: u32,
    window_ns: u64,
    now: u64,
    admitted: bool,
)
    requires
        key != other,
        limit_post(before, after, key, max, window_ns, now, admitted),
    ensures
        lookup(after, other) == lookup(before, other),
{
}

/// Two clients behind one proxy count apart: when client `a`'s request is
/// counted and then client `b`'s, under keys made of one prefix and their
/// different addresses, `b` is answered as if `a` had made no request, and
/// `b`'s request leaves `a`'s window as `a`'s own request left it.
pub proof fn lemma_clients_independent(
    t0: Map<Seq<char>, (u32, u64)>,
    t1: Map<Seq<char>, (u32, u64)>,
    t2: Map<Seq<char>, (u32, u64)>,
    prefix: Seq<char>,
    a: Seq<char>,
    b: Seq<char>,
    max: u32,
    window_ns: u64,
    now_a: u64,
    now_b: u64,
    admitted_a: bool,
    admitted_b: bool,
)
    requires
        a != b,
        limit_post(t0, t1, prefix + a, max, window_ns, now_a, admitted_a),
        limit_post(t1, t2, prefix + b, max, window_ns, now_b, admitted_b),
    ensures
        admitted_b == limit_step(lookup(t0, prefix + b), max, window_ns, now_b).1,
        lookup(t2, prefix + b) == Some(limit_step(lookup(t0, prefix + b), max, window_ns, now_b).0),
        lookup(t2, prefix + a) == lookup(t1, prefix + a),
{
    assert((prefix + a).skip(prefix.len() as int) =~= a);
    assert((prefix + b).skip(prefix.len() as int) =~= b);
    assert(prefix + a != prefix + b);
}


/// Requests counted one after another on one limiter are counted at clock
/// readings that never go backwards: in a run of counted requests, each
/// limiter's last reading is at least that of every earlier one.
pub proof fn lemma_readings_never_go_back(
    limiters: Seq<RateLimiter>,
    keys: Seq<Seq<char>>,
    maxes: Seq<u32>,
    windows: Seq<u64>,
    answers: Seq<bool>,
)
    requires
        limiters.len() == keys.len() + 1,
        maxes.len() == keys.len(),
        windows.len() == keys.len(),
        answers.len() == keys.len(),
        forall|i: int|
            0 <= i < keys.len() ==> counted_now(
                limiters[i],
                #[trigger] limiters[i + 1],
                keys[i],
                maxes[i],
                windows[i],
                answers[i],
            ),
    ensures
        forall|i: int, j: int|
            0 <= i <= j < limiters.len() ==> (#[trigger] limiters[i]).last_reading() <= (#[trigger] limiters[j]).last_reading(),
    decreases keys.len(),
{
    if keys.len() > 0 {
        let n = keys.len() - 1;
        lemma_readings_never_go_back(
            limiters.drop_last(),
            keys.drop_last(),
            maxes.drop_last(),
            windows.drop_last(),
            answers.drop_last(),
        );
        assert forall|i: int, j: int|
            0 <= i <= j < limiters.len() implies (#[trigger] limiters[i]).last_reading() <= (#[trigger] limiters[j]).last_reading() by {
            if j == limiters.len() - 1 && i < j {
                assert(counted_now(limiters[n], limiters[n + 1], keys[n], maxes[n], windows[n], answers[n]));
                assert(limiters.drop_last()[i] == limiters[i]);
                assert(limiters.drop_last()[n] == limiters[n]);
            } else if i < j {
                assert(limiters.drop_last()[i] == limiters[i]);
                assert(limiters.drop_last()[j] == limiters[j]);
            }
        }
    }
}

/// A request counted at a reading more than one window after its key's
/// window opened is admitted and opens a new window at that reading, with a
/// count of one, whatever the count was.
pub proof fn lemma_counted_after_window_reopens(
    before: RateLimiter,
    after: RateLimiter,
    key: Seq<char>,
    max: u32,
    window_ns: u64,
    admitted: bool,
)
    requires
        counted_now(before, after, key, max, window_ns, admitted),
        before.windows().contains_key(key),
        after.last_reading() - before.windows()[key].1 > window_ns,
    ensures
        admitted,
        after.windows()[key] == (1u32, after.last_reading()),
        after.windows().dom() == before.windows().dom(),
{
    assert(after.windows().dom() =~= before.windows().dom());
}

} // verus!
