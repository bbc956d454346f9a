//! Service counters and the per-key request rate limiter.

use vstd::prelude::*;
use crate::crypto::{sha256_of_text, sha256_text};
use crate::text::{chars_of, extend_str, int_decimal, nat_decimal, push_i64_decimal, push_u64_decimal, string_of};

verus! {

/// Service counters. Each counter wraps around at `u64::MAX`, as an atomic
/// `fetch_add` does.
#[derive(Debug, Clone)]
pub struct Metrics {
    pub uploads_completed: u64,
    pub uploads_failed: u64,
    pub downloads_started: u64,
    pub requests_rejected: u64,
    pub cleanup_failures: u64,
    pub shelves_cleaned: u64,
    pub conversion_millis: u64,
}

impl Default for Metrics {
    fn default() -> (r: Metrics)
        ensures
            r.uploads_completed == 0 && r.uploads_failed == 0 && r.downloads_started == 0
                && r.requests_rejected == 0 && r.cleanup_failures == 0 && r.shelves_cleaned == 0
                && r.conversion_millis == 0,
    {
        Metrics {
            uploads_completed: 0,
            uploads_failed: 0,
            downloads_started: 0,
            requests_rejected: 0,
            cleanup_failures: 0,
            shelves_cleaned: 0,
            conversion_millis: 0,
        }
    }
}

impl Metrics {
    /// Counts one more event.
    pub fn increment(counter: &mut u64)
        ensures
            *final(counter) == (*old(counter) + 1) % 0x1_0000_0000_0000_0000,
    {
        *counter = counter.wrapping_add(1);
    }

    /// Counts `value` more events.
    pub fn add(counter: &mut u64, value: u64)
        ensures
            *final(counter) == (*old(counter) + value) % 0x1_0000_0000_0000_0000,
    {
        *counter = counter.wrapping_add(value);
    }

    /// The counters in the Prometheus text format, after the three gauges
    /// measured from the database.
    pub fn render(&self, active_shelves: i64, stored_bytes: i64, cleanup_lag: i64) -> (r: String)
        ensures
            r@ == spec_render(*self, active_shelves as int, stored_bytes as int, cleanup_lag as int),
    {
        let mut v: Vec<char> = Vec::new();
        extend_str(&mut v, "kobo_active_shelves ");
        push_i64_decimal(&mut v, active_shelves);
        extend_str(&mut v, "\nkobo_stored_bytes ");
        push_i64_decimal(&mut v, stored_bytes);
        extend_str(&mut v, "\nkobo_cleanup_lag_seconds ");
        push_i64_decimal(&mut v, cleanup_lag);
        extend_str(&mut v, "\nkobo_uploads_completed ");
        push_u64_decimal(&mut v, self.uploads_completed);
        extend_str(&mut v, "\nkobo_uploads_failed ");
        push_u64_decimal(&mut v, self.uploads_failed);
        extend_str(&mut v, "\nkobo_downloads_started ");
        push_u64_decimal(&mut v, self.downloads_started);
        extend_str(&mut v, "\nkobo_requests_rejected ");
        push_u64_decimal(&mut v, self.requests_rejected);
        extend_str(&mut v, "\nkobo_cleanup_failures ");
        push_u64_decimal(&mut v, self.cleanup_failures);
        extend_str(&mut v, "\nkobo_shelves_cleaned ");
        push_u64_decimal(&mut v, self.shelves_cleaned);
        extend_str(&mut v, "\nkobo_conversion_milliseconds_total ");
        push_u64_decimal(&mut v, self.conversion_millis);
        extend_str(&mut v, "\n");
        string_of(&v)
    }
}

/// The rendered metrics: one `name value` line per gauge and counter.
pub open spec fn spec_render(m: Metrics, active_shelves: int, stored_bytes: int, cleanup_lag: int) -> Seq<char> {
    "kobo_active_shelves "@ + int_decimal(active_shelves)
        + "\nkobo_stored_bytes "@ + int_decimal(stored_bytes)
        + "\nkobo_cleanup_lag_seconds "@ + int_decimal(cleanup_lag)
        + "\nkobo_uploads_completed "@ + nat_decimal(m.uploads_completed as nat)
        + "\nkobo_uploads_failed "@ + nat_decimal(m.uploads_failed as nat)
        + "\nkobo_downloads_started "@ + nat_decimal(m.downloads_started as nat)
        + "\nkobo_requests_rejected "@ + nat_decimal(m.requests_rejected as nat)
        + "\nkobo_cleanup_failures "@ + nat_decimal(m.cleanup_failures as nat)
        + "\nkobo_shelves_cleaned "@ + nat_decimal(m.shelves_cleaned as nat)
        + "\nkobo_conversion_milliseconds_total "@ + nat_decimal(m.conversion_millis as nat)
        + "\n"@
}

/// One hour in nanoseconds: windows untouched for this long are forgotten.
pub const WINDOW_RETENTION: u64 = 3_600_000_000_000;

/// The character of a hexadecimal digit, lower case.
pub open spec fn hex_digit(n: int) -> char {
    if n < 10 {
        ((('0' as u8) + n) as u8) as char
    } else {
        ((('a' as u8) + n - 10) as u8) as char
    }
}

/// The first sixteen bytes in lower-case hexadecimal, two digits per byte.
pub open spec fn spec_hex_prefix(bytes: Seq<u8>) -> Seq<char> {
    Seq::new(32, |i: int| hex_digit(if i % 2 == 0 { bytes[i / 2] / 16 } else { bytes[i / 2] % 16 } as int))
}

fn hex_digit_exec(n: u8) -> (r: char)
    requires
        n < 16,
    ensures
        r == hex_digit(n as int),
{
    if n < 10 {
        (48u8 + n) as char
    } else {
        (97u8 + n - 10) as char
    }
}

/// The first sixteen bytes in lower-case hexadecimal.
pub fn hex_prefix(bytes: &[u8]) -> (r: String)
    requires
        bytes@.len() >= 16,
    ensures
        r@ == spec_hex_prefix(bytes@),
{
    let v = hex_prefix_chars(bytes);
    string_of(&v)
}

fn hex_prefix_chars(bytes: &[u8]) -> (r: Vec<char>)
    requires
        bytes@.len() >= 16,
    ensures
        r@ == spec_hex_prefix(bytes@),
{
    let mut r: Vec<char> = Vec::new();
    let mut i: usize = 0;
    while i < 16
        invariant
            i <= 16,
            bytes@.len() >= 16,
            r@.len() == 2 * i,
            forall|j: int| 0 <= j < 2 * i ==> r@[j] == spec_hex_prefix(bytes@)[j],
        decreases 16 - i,
    {
        let b = bytes[i];
        r.push(hex_digit_exec(b / 16));
        r.push(hex_digit_exec(b % 16));
        i = i + 1;
    }
    assert(r@ =~= spec_hex_prefix(bytes@));
    r
}

/// A counting window: when it started (nanoseconds on the limiter's
/// monotonic clock) and how many requests it has let through.
#[derive(Debug, Clone, Copy)]
pub struct Window {
    pub started: u64,
    pub count: u32,
}

/// Requests allowed per key and window. Keys are made from a category and a
/// digest of a secret, so secrets are never kept.
#[derive(Debug)]
pub struct RateLimiter {
    windows: Vec<(String, Window)>,
}

/// Time elapsed from `started` to `now`, zero when `now` is earlier.
pub open spec fn elapsed(now: int, started: int) -> int {
    if now >= started { now - started } else { 0 }
}

/// The map from key to (window start, count) held by a list of windows.
pub open spec fn windows_map(s: Seq<(String, Window)>) -> Map<Seq<char>, (u64, u32)>
    decreases s.len(),
{
    if s.len() == 0 {
        Map::empty()
    } else {
        windows_map(s.drop_last()).insert(s.last().0@, (s.last().1.started, s.last().1.count))
    }
}

/// No key occurs twice.
pub open spec fn keys_distinct(s: Seq<(String, Window)>) -> bool {
    forall|i: int, j: int| 0 <= i < j < s.len() ==> #[trigger] s[i].0@ != #[trigger] s[j].0@
}

/// The windows that survive at `now`: those started less than an hour ago.
pub open spec fn retained(m: Map<Seq<char>, (u64, u32)>, now: int) -> Map<Seq<char>, (u64, u32)> {
    Map::new(
        |k: Seq<char>| m.dom().contains(k) && elapsed(now, m[k].0 as int) < WINDOW_RETENTION,
        |k: Seq<char>| m[k],
    )
}

/// The window a request under `key` is counted in: the retained window of
/// the key, or a new one; restarted when `duration` has passed since it began.
pub open spec fn current_window(m: Map<Seq<char>, (u64, u32)>, key: Seq<char>, now: int, duration: int) -> (u64, u32) {
    let kept = retained(m, now);
    let w = if kept.dom().contains(key) { kept[key] } else { (now as u64, 0u32) };
    if elapsed(now, w.0 as int) >= duration { (now as u64, 0u32) } else { w }
}

/// Whether a request under `key` at `now` is allowed.
pub open spec fn allow_decision(m: Map<Seq<char>, (u64, u32)>, key: Seq<char>, limit: int, duration: int, now: int) -> bool {
    current_window(m, key, now, duration).1 < limit
}

/// The windows after a request under `key` at `now`: old windows are
/// forgotten and the key's window counts the request if it was allowed.
pub open spec fn windows_after(m: Map<Seq<char>, (u64, u32)>, key: Seq<char>, limit: int, duration: int, now: int) -> Map<Seq<char>, (u64, u32)> {
    let w = current_window(m, key, now, duration);
    retained(m, now).insert(
        key,
        if allow_decision(m, key, limit, duration, now) { (w.0, (w.1 + 1) as u32) } else { w },
    )
}

/// The key of a request: `category:` and the hexadecimal prefix of the
/// SHA-256 digest of the secret.
pub open spec fn limiter_key(category: Seq<char>, secret: Seq<char>) -> Seq<char> {
    category + seq![':'] + spec_hex_prefix(sha256_of_text(secret))
}

proof fn lemma_windows_map_dom(s: Seq<(String, Window)>)
    ensures
        forall|k: Seq<char>| #[trigger] windows_map(s).dom().contains(k) <==> exists|i: int| 0 <= i < s.len() && s[i].0@ == k,
    decreases s.len(),
{
    if s.len() > 0 {
        let p = s.drop_last();
        lemma_windows_map_dom(p);
        assert forall|k: Seq<char>| #[trigger] windows_map(s).dom().contains(k) <==> exists|i: int| 0 <= i < s.len() && s[i].0@ == k by {
            if windows_map(s).dom().contains(k) {
                if k == s.last().0@ {
                    assert(s[s.len() - 1].0@ == k);
                } else {
                    assert(windows_map(p).dom().contains(k));
                    let i = choose|i: int| 0 <= i < p.len() && p[i].0@ == k;
                    assert(s[i].0@ == k);
                }
            }
            if exists|i: int| 0 <= i < s.len() && s[i].0@ == k {
                let i = choose|i: int| 0 <= i < s.len() && s[i].0@ == k;
                if i < s.len() - 1 {
                    assert(p[i].0@ == k);
                    assert(windows_map(p).dom().contains(k));
                }
            }
        }
    }
}

proof fn lemma_windows_map_at(s: Seq<(String, Window)>, j: int)
    requires
        keys_distinct(s),
        0 <= j < s.len(),
    ensures
        windows_map(s).dom().contains(s[j].0@),
        windows_map(s)[s[j].0@] == (s[j].1.started, s[j].1.count),
    decreases s.len(),
{
    if j < s.len() - 1 {
        let p = s.drop_last();
        assert(keys_distinct(p)) by {
            assert forall|a: int, b: int| 0 <= a < b < p.len() implies #[trigger] p[a].0@ != #[trigger] p[b].0@ by {
                assert(p[a] == s[a] && p[b] == s[b]);
            }
        }
        lemma_windows_map_at(p, j);
        assert(p[j] == s[j]);
        assert(s[j].0@ != s[s.len() - 1].0@);
    }
}

proof fn lemma_windows_map_update(s: Seq<(String, Window)>, j: int, w: Window)
    requires
        keys_distinct(s),
        0 <= j < s.len(),
    ensures
        windows_map(s.update(j, (s[j].0, w))) == windows_map(s).insert(s[j].0@, (w.started, w.count)),
    decreases s.len(),
{
    let t = s.update(j, (s[j].0, w));
    if j == s.len() - 1 {
        assert(t.drop_last() =~= s.drop_last());
        lemma_windows_map_dom(s.drop_last());
        if windows_map(s.drop_last()).dom().contains(s[j].0@) {
            let i = choose|i: int| 0 <= i < s.drop_last().len() && s.drop_last()[i].0@ == s[j].0@;
            assert(s[i].0@ == s[j].0@);
        }
        assert(windows_map(t) =~= windows_map(s).insert(s[j].0@, (w.started, w.count)));
    } else {
        let p = s.drop_last();
        assert(keys_distinct(p)) by {
            assert forall|a: int, b: int| 0 <= a < b < p.len() implies #[trigger] p[a].0@ != #[trigger] p[b].0@ by {
                assert(p[a] == s[a] && p[b] == s[b]);
            }
        }
        lemma_windows_map_update(p, j, w);
        assert(t.drop_last() =~= p.update(j, (p[j].0, w)));
        assert(s[j].0@ != s[s.len() - 1].0@);
        assert(windows_map(t) =~= windows_map(s).insert(s[j].0@, (w.started, w.count)));
    }
}


/// What a run of requests under `key` at the times `times` is answered,
/// starting from the windows `m`.
pub open spec fn window_results(m: Map<Seq<char>, (u64, u32)>, key: Seq<char>, limit: int, duration: int, times: Seq<int>) -> Seq<bool>
    decreases times.len(),
{
    if times.len() == 0 {
        Seq::empty()
    } else {
        seq![allow_decision(m, key, limit, duration, times[0])] + window_results(
            windows_after(m, key, limit, duration, times[0]),
            key,
            limit,
            duration,
            times.drop_first(),
        )
    }
}

/// Within one window (started at `w`, with `c` requests already counted and
/// no longer than the hour a window is kept), the requests are allowed
/// exactly while the count stays under the limit: the `i`-th one is allowed
/// iff `c + i < limit`, so of `n` requests the first `min(n, limit - c)` pass
/// and the rest are refused.
pub proof fn requests_in_one_window_pass_up_to_the_limit(
    m: Map<Seq<char>, (u64, u32)>,
    key: Seq<char>,
    w: u64,
    c: u32,
    limit: int,
    duration: int,
    times: Seq<int>,
)
    requires
        0 < duration <= WINDOW_RETENTION,
        0 <= limit <= u32::MAX,
        m.dom().contains(key),
        m[key] == (w, c),
        forall|i: int| 0 <= i < times.len() ==> w <= #[trigger] times[i] < w + duration,
    ensures
        window_results(m, key, limit, duration, times).len() == times.len(),
        forall|i: int| 0 <= i < times.len() ==> #[trigger] window_results(m, key, limit, duration, times)[i] == (c + i < limit),
    decreases times.len(),
{
    if times.len() > 0 {
        let now = times[0];
        assert(retained(m, now).dom().contains(key));
        assert(current_window(m, key, now, duration) == (w, c));
        let m2 = windows_after(m, key, limit, duration, now);
        let c2: u32 = if c < limit { (c + 1) as u32 } else { c };
        assert(m2.dom().contains(key) && m2[key] == (w, c2));
        let rest = times.drop_first();
        assert forall|i: int| 0 <= i < rest.len() implies w <= #[trigger] rest[i] < w + duration by {
            assert(rest[i] == times[i + 1]);
        }
        requests_in_one_window_pass_up_to_the_limit(m2, key, w, c2, limit, duration, rest);
        let r = window_results(m, key, limit, duration, times);
        let r2 = window_results(m2, key, limit, duration, rest);
        assert forall|i: int| 0 <= i < times.len() implies #[trigger] r[i] == (c + i < limit) by {
            if i > 0 {
                assert(r[i] == r2[i - 1]);
            }
        }
    }
}

/// The whole rate-limit law for one key: when a request finds no live
/// window for its key (none kept, or the kept one has run its duration), it
/// starts a window, and of the requests that follow within that window's
/// duration exactly the first `limit` are allowed, in order: request `i`
/// passes iff `i < limit` (with a limit of zero, none passes).
pub proof fn a_new_window_passes_the_first_limit_requests(
    m: Map<Seq<char>, (u64, u32)>,
    key: Seq<char>,
    limit: int,
    duration: int,
    times: Seq<int>,
)
    requires
        0 < duration <= WINDOW_RETENTION,
        0 <= limit <= u32::MAX,
        times.len() > 0,
        0 <= times[0] <= u64::MAX,
        !retained(m, times[0]).dom().contains(key) || elapsed(times[0], retained(m, times[0])[key].0 as int) >= duration,
        forall|i: int| 0 <= i < times.len() ==> times[0] <= #[trigger] times[i] < times[0] + duration,
    ensures
        window_results(m, key, limit, duration, times).len() == times.len(),
        forall|i: int| 0 <= i < times.len() ==> #[trigger] window_results(m, key, limit, duration, times)[i] == (i < limit),
{
    let t0 = times[0];
    let w = t0 as u64;
    assert(current_window(m, key, t0, duration) == (w, 0u32));
    let m2 = windows_after(m, key, limit, duration, t0);
    let c2: u32 = if 0 < limit { 1u32 } else { 0u32 };
    assert(m2.dom().contains(key) && m2[key] == (w, c2));
    let rest = times.drop_first();
    assert forall|i: int| 0 <= i < rest.len() implies w <= #[trigger] rest[i] < w + duration by {
        assert(rest[i] == times[i + 1]);
    }
    requests_in_one_window_pass_up_to_the_limit(m2, key, w, c2, limit, duration, rest);
    let r = window_results(m, key, limit, duration, times);
    let r2 = window_results(m2, key, limit, duration, rest);
    assert forall|i: int| 0 <= i < times.len() implies #[trigger] r[i] == (i < limit) by {
        if i > 0 {
            assert(r[i] == r2[i - 1]);
        }
    }
}

/// A request that comes once its key's window has run its duration starts
/// a new window at `now`, and is allowed exactly when the limit is not zero.
pub proof fn an_ended_window_restarts(
    m: Map<Seq<char>, (u64, u32)>,
    key: Seq<char>,
    limit: int,
    duration: int,
    now: u64,
)
    requires
        0 < duration,
        m.dom().contains(key),
        now >= m[key].0 + duration,
    ensures
        current_window(m, key, now as int, duration) == (now, 0u32),
        allow_decision(m, key, limit, duration, now as int) == (0 < limit),
{
}

impl RateLimiter {
    #[verifier::type_invariant]
    spec fn inv(self) -> bool {
        keys_distinct(self.windows@)
    }

    /// The windows the limiter holds, by key.
    pub closed spec fn windows_view(self) -> Map<Seq<char>, (u64, u32)> {
        windows_map(self.windows@)
    }

    /// A limiter holding no window.
    pub fn new() -> (r: RateLimiter)
        ensures
            r.windows_view() == Map::<Seq<char>, (u64, u32)>::empty(),
    {
        RateLimiter { windows: Vec::new() }
    }

    /// Counts a request of `category` made with `secret` at `now`
    /// (nanoseconds on a monotonic clock) and says whether it is allowed: at
    /// most `limit` requests per key in each window of `duration`
    /// nanoseconds. Windows started an hour or more ago are forgotten first.
    pub fn allow(&mut self, category: &str, secret: &str, limit: u32, duration: u64, now: u64) -> (r: bool)
        ensures
            r == allow_decision(old(self).windows_view(), limiter_key(category@, secret@), limit as int, duration as int, now as int),
            final(self).windows_view() == windows_after(old(self).windows_view(), limiter_key(category@, secret@), limit as int, duration as int, now as int),
    {
        proof {
            use_type_invariant(&*self);
        }
        let digest = sha256_text(secret);
        let mut key_chars = chars_of(category);
        key_chars.push(':');
        let hex = hex_prefix_chars(digest.as_slice());
        crate::text::extend_chars(&mut key_chars, &hex);
        let key = string_of(&key_chars);
        let ghost key_v = limiter_key(category@, secret@);
        assert(key@ == key_v);
        let ghost old_map = windows_map(self.windows@);

        // Forget windows older than an hour.
        let mut kept: Vec<(String, Window)> = Vec::new();
        let mut i: usize = 0;
        let ghost s = self.windows@;
        while i < self.windows.len()
            invariant
                s == self.windows@,
                keys_distinct(s),
                i <= s.len(),
                keys_distinct(kept@),
                forall|a: int| 0 <= a < kept@.len() ==> exists|b: int| 0 <= b < i && #[trigger] kept@[a].0@ == s[b].0@,
                windows_map(kept@) == retained(windows_map(s.take(i as int)), now as int),
            decreases s.len() - i,
        {
            let (k, w) = (&self.windows[i].0, self.windows[i].1);
            let age: u64 = if now >= w.started { now - w.started } else { 0 };
            let ghost before = kept@;
            proof {
                assert(s.take(i + 1).drop_last() == s.take(i as int));
                assert(s.take(i + 1).last() == s[i as int]);
                lemma_windows_map_dom(s.take(i as int));
                if windows_map(s.take(i as int)).dom().contains(s[i as int].0@) {
                    let b = choose|b: int| 0 <= b < s.take(i as int).len() && s.take(i as int)[b].0@ == s[i as int].0@;
                    assert(s[b].0@ == s[i as int].0@);
                }
            }
            if age < WINDOW_RETENTION {
                kept.push((k.clone(), w));
                proof {
                    assert(kept@.drop_last() == before);
                    assert forall|a: int, c: int| 0 <= a < c < kept@.len() implies #[trigger] kept@[a].0@ != #[trigger] kept@[c].0@ by {
                        if c == kept@.len() - 1 {
                            assert(kept@[a] == before[a]);
                            let b = choose|b: int| 0 <= b < i && #[trigger] before[a].0@ == s[b].0@;
                            assert(s[b].0@ != s[i as int].0@);
                        } else {
                            assert(kept@[a] == before[a] && kept@[c] == before[c]);
                        }
                    }
                    assert forall|a: int| 0 <= a < kept@.len() implies exists|b: int| 0 <= b < i + 1 && #[trigger] kept@[a].0@ == s[b].0@ by {
                        if a == kept@.len() - 1 {
                            assert(kept@[a].0@ == s[i as int].0@);
                        } else {
                            assert(kept@[a] == before[a]);
                            let b = choose|b: int| 0 <= b < i && #[trigger] before[a].0@ == s[b].0@;
                            assert(kept@[a].0@ == s[b].0@);
                        }
                    }
                    assert(windows_map(kept@) =~= retained(windows_map(s.take(i + 1)), now as int));
                }
            } else {
                proof {
                    assert(windows_map(kept@) =~= retained(windows_map(s.take(i + 1)), now as int));
                }
            }
            i = i + 1;
        }
        proof {
            assert(s.take(s.len() as int) == s);
        }
        assert(windows_map(kept@) == retained(old_map, now as int));

        // Find the key's window.
        let mut j: usize = 0;
        while j < kept.len()
            invariant
                j <= kept@.len(),
                key@ == key_v,
                forall|a: int| 0 <= a < j ==> kept@[a].0@ != key_v,
            ensures
                j == kept@.len() || (j < kept@.len() && kept@[j as int].0@ == key_v),
                forall|a: int| 0 <= a < j ==> kept@[a].0@ != key_v,
            decreases kept@.len() - j,
        {
            if kept[j].0 == key {
                break;
            }
            j = j + 1;
        }
        let ghost kept_map = windows_map(kept@);
        proof {
            lemma_windows_map_dom(kept@);
        }
        let found = j < kept.len() && kept[j].0 == key;
        let mut w = if found {
            proof {
                lemma_windows_map_at(kept@, j as int);
            }
            kept[j].1
        } else {
            proof {
                assert(j == kept@.len());
                assert(!kept_map.dom().contains(key_v));
            }
            Window { started: now, count: 0 }
        };
        let age: u64 = if now >= w.started { now - w.started } else { 0 };
        if age >= duration {
            w = Window { started: now, count: 0 };
        }
        let allowed = w.count < limit;
        if allowed {
            w.count = w.count + 1;
        }
        if found {
            proof {
                lemma_windows_map_update(kept@, j as int, w);
            }
            let name = kept[j].0.clone();
            kept.set(j, (name, w));
        } else {
            let ghost before = kept@;
            kept.push((key, w));
            proof {
                assert(kept@.drop_last() == before);
                assert forall|a: int, c: int| 0 <= a < c < kept@.len() implies #[trigger] kept@[a].0@ != #[trigger] kept@[c].0@ by {
                    if c == kept@.len() - 1 {
                        assert(kept@[a] == before[a]);
                    } else {
                        assert(kept@[a] == before[a] && kept@[c] == before[c]);
                    }
                }
            }
        }
        self.windows = kept;
        allowed
    }
}

/// A request counts only against its own key: every other key's window is
/// kept, unchanged, exactly when it is less than an hour old.
pub proof fn requests_under_one_key_leave_other_keys_alone(
    m: Map<Seq<char>, (u64, u32)>,
    key: Seq<char>,
    other: Seq<char>,
    limit: int,
    duration: int,
    now: int,
)
    requires
        other != key,
    ensures
        windows_after(m, key, limit, duration, now).dom().contains(other) <==> (m.dom().contains(other)
            && elapsed(now, m[other].0 as int) < WINDOW_RETENTION),
        windows_after(m, key, limit, duration, now).dom().contains(other) ==> windows_after(m, key, limit, duration, now)[other] == m[other],
{
}

/// With a fixed limit, no window ever counts more requests than the limit:
/// if every window is within it before a request, every window is within it
/// after, and an allowed request always finds its window below the limit.
pub proof fn window_counts_stay_within_limit(
    m: Map<Seq<char>, (u64, u32)>,
    key: Seq<char>,
    limit: int,
    duration: int,
    now: int,
)
    requires
        0 <= limit <= u32::MAX,
        forall|k: Seq<char>| #[trigger] m.dom().contains(k) ==> m[k].1 <= limit,
    ensures
        forall|k: Seq<char>| #[trigger] windows_after(m, key, limit, duration, now).dom().contains(k)
            ==> windows_after(m, key, limit, duration, now)[k].1 <= limit,
        allow_decision(m, key, limit, duration, now) ==> current_window(m, key, now, duration).1 < limit,
{
    let after = windows_after(m, key, limit, duration, now);
    assert forall|k: Seq<char>| #[trigger] after.dom().contains(k) implies after[k].1 <= limit by {
        if k != key {
            assert(m.dom().contains(k));
        } else if retained(m, now).dom().contains(key) {
            assert(m.dom().contains(key));
        }
    }
}

/// A refused request changes nothing in the key's window beyond restarting
/// it when its duration has run out.
pub proof fn refused_requests_are_not_counted(
    m: Map<Seq<char>, (u64, u32)>,
    key: Seq<char>,
    limit: int,
    duration: int,
    now: int,
)
    requires
        !allow_decision(m, key, limit, duration, now),
    ensures
        windows_after(m, key, limit, duration, now)[key] == current_window(m, key, now, duration),
{
}


/// Limiter keys keep categories and secrets apart: every key is the
/// category, `:` and 32 hexadecimal digits, so two categories never share
/// a key, and under one category two secrets share a key only when their
/// digests begin with the same sixteen bytes. A request in one category
/// therefore never changes the window of another category, even for the
/// same capability.
pub proof fn categories_and_secrets_have_their_own_windows(
    m: Map<Seq<char>, (u64, u32)>,
    c1: Seq<char>,
    c2: Seq<char>,
    secret: Seq<char>,
    limit: int,
    duration: int,
    now: int,
)
    ensures
        limiter_key(c1, secret).len() == c1.len() + 33,
        limiter_key(c1, secret).subrange(0, c1.len() as int) == c1,
        limiter_key(c1, secret)[c1.len() as int] == ':',
        c1 != c2 ==> limiter_key(c1, secret) != limiter_key(c2, secret),
        c1 != c2 && windows_after(m, limiter_key(c1, secret), limit, duration, now).dom().contains(limiter_key(c2, secret))
            ==> windows_after(m, limiter_key(c1, secret), limit, duration, now)[limiter_key(c2, secret)]
            == m[limiter_key(c2, secret)],
{
    let k1 = limiter_key(c1, secret);
    let k2 = limiter_key(c2, secret);
    assert(spec_hex_prefix(sha256_of_text(secret)).len() == 32);
    assert(k1.len() == c1.len() + 33);
    assert(k2.len() == c2.len() + 33);
    assert(k1.subrange(0, c1.len() as int) =~= c1);
    assert(k1[c1.len() as int] == ':');
    if c1 != c2 && k1 == k2 {
        assert(c1.len() == c2.len());
        assert(k2.subrange(0, c2.len() as int) =~= c2);
        assert(c1 =~= c2);
    }
    if c1 != c2 {
        requests_under_one_key_leave_other_keys_alone(m, k1, k2, limit, duration, now);
    }
}

/// Under one category, two secrets share a key exactly when the hexadecimal
/// prefixes of their digests agree.
pub proof fn one_category_keys_follow_the_digest(category: Seq<char>, s1: Seq<char>, s2: Seq<char>)
    ensures
        limiter_key(category, s1) == limiter_key(category, s2) <==> spec_hex_prefix(sha256_of_text(s1))
            == spec_hex_prefix(sha256_of_text(s2)),
{
    let k1 = limiter_key(category, s1);
    let k2 = limiter_key(category, s2);
    let n = category.len() + 1;
    assert(spec_hex_prefix(sha256_of_text(s1)).len() == 32);
    assert(spec_hex_prefix(sha256_of_text(s2)).len() == 32);
    assert(k1.subrange(n as int, k1.len() as int) =~= spec_hex_prefix(sha256_of_text(s1)));
    assert(k2.subrange(n as int, k2.len() as int) =~= spec_hex_prefix(sha256_of_text(s2)));
    if spec_hex_prefix(sha256_of_text(s1)) == spec_hex_prefix(sha256_of_text(s2)) {
        assert(k1 =~= k2);
    }
}



/// `part` occurs somewhere in `text`.
pub open spec fn contains_text(text: Seq<char>, part: Seq<char>) -> bool {
    exists|i: int| 0 <= i && i + part.len() <= text.len() && #[trigger] text.subrange(i, i + part.len()) == part
}

/// The first `n` lines, one after the other.
pub open spec fn joined(ls: Seq<Seq<char>>, n: nat) -> Seq<char>
    decreases n,
{
    if n == 0 {
        Seq::empty()
    } else {
        joined(ls, (n - 1) as nat) + ls[n - 1]
    }
}

proof fn joined_contains_each(ls: Seq<Seq<char>>, n: nat, k: int)
    requires
        0 <= k < n,
    ensures
        contains_text(joined(ls, n), ls[k]),
    decreases n,
{
    let prev = joined(ls, (n - 1) as nat);
    let t = joined(ls, n);
    if k == n - 1 {
        assert(t.subrange(prev.len() as int, (prev.len() + ls[k].len()) as int) =~= ls[k]);
    } else {
        joined_contains_each(ls, (n - 1) as nat, k);
        let i = choose|i: int| 0 <= i && i + ls[k].len() <= prev.len() && #[trigger] prev.subrange(i, i + ls[k].len()) == ls[k];
        assert(t.subrange(i, i + ls[k].len()) =~= prev.subrange(i, i + ls[k].len()));
    }
}

/// Each metric appears on a line of its own, its name followed by the value
/// of its own gauge or counter: the rendered text holds
/// `kobo_uploads_failed <uploads_failed>` and a line break, and so on for
/// every gauge and counter.
#[verifier::rlimit(50)]
pub proof fn every_metric_line_carries_its_own_value(m: Metrics, active_shelves: int, stored_bytes: int, cleanup_lag: int)
    ensures
        contains_text(spec_render(m, active_shelves, stored_bytes, cleanup_lag), ("kobo_active_shelves "@ + int_decimal(active_shelves) + "\n"@)),
        contains_text(spec_render(m, active_shelves, stored_bytes, cleanup_lag), ("kobo_stored_bytes "@ + int_decimal(stored_bytes) + "\n"@)),
        contains_text(spec_render(m, active_shelves, stored_bytes, cleanup_lag), ("kobo_cleanup_lag_seconds "@ + int_decimal(cleanup_lag) + "\n"@)),
        contains_text(spec_render(m, active_shelves, stored_bytes, cleanup_lag), ("kobo_uploads_completed "@ + nat_decimal(m.uploads_completed as nat) + "\n"@)),
        contains_text(spec_render(m, active_shelves, stored_bytes, cleanup_lag), ("kobo_uploads_failed "@ + nat_decimal(m.uploads_failed as nat) + "\n"@)),
        contains_text(spec_render(m, active_shelves, stored_bytes, cleanup_lag), ("kobo_downloads_started "@ + nat_decimal(m.downloads_started as nat) + "\n"@)),
        contains_text(spec_render(m, active_shelves, stored_bytes, cleanup_lag), ("kobo_requests_rejected "@ + nat_decimal(m.requests_rejected as nat) + "\n"@)),
        contains_text(spec_render(m, active_shelves, stored_bytes, cleanup_lag), ("kobo_cleanup_failures "@ + nat_decimal(m.cleanup_failures as nat) + "\n"@)),
        contains_text(spec_render(m, active_shelves, stored_bytes, cleanup_lag), ("kobo_shelves_cleaned "@ + nat_decimal(m.shelves_cleaned as nat) + "\n"@)),
        contains_text(spec_render(m, active_shelves, stored_bytes, cleanup_lag), ("kobo_conversion_milliseconds_total "@ + nat_decimal(m.conversion_millis as nat) + "\n"@)),
{
    let nl = seq!['\n'];
    assert("\n"@ == nl) by { reveal_strlit("\n"); }
    assert("\nkobo_stored_bytes "@ == nl + "kobo_stored_bytes "@) by {
        reveal_strlit("\nkobo_stored_bytes ");
        reveal_strlit("kobo_stored_bytes ");
        assert("\nkobo_stored_bytes "@ =~= nl + "kobo_stored_bytes "@);
    }
    assert("\nkobo_cleanup_lag_seconds "@ == nl + "kobo_cleanup_lag_seconds "@) by {
        reveal_strlit("\nkobo_cleanup_lag_seconds ");
        reveal_strlit("kobo_cleanup_lag_seconds ");
        assert("\nkobo_cleanup_lag_seconds "@ =~= nl + "kobo_cleanup_lag_seconds "@);
    }
    assert("\nkobo_uploads_completed "@ == nl + "kobo_uploads_completed "@) by {
        reveal_strlit("\nkobo_uploads_completed ");
        reveal_strlit("kobo_uploads_completed ");
        assert("\nkobo_uploads_completed "@ =~= nl + "kobo_uploads_completed "@);
    }
    assert("\nkobo_uploads_failed "@ == nl + "kobo_uploads_failed "@) by {
        reveal_strlit("\nkobo_uploads_failed ");
        reveal_strlit("kobo_uploads_failed ");
        assert("\nkobo_uploads_failed "@ =~= nl + "kobo_uploads_failed "@);
    }
    assert("\nkobo_downloads_started "@ == nl + "kobo_downloads_started "@) by {
        reveal_strlit("\nkobo_downloads_started ");
        reveal_strlit("kobo_downloads_started ");
        assert("\nkobo_downloads_started "@ =~= nl + "kobo_downloads_started "@);
    }
    assert("\nkobo_requests_rejected "@ == nl + "kobo_requests_rejected "@) by {
        reveal_strlit("\nkobo_requests_rejected ");
        reveal_strlit("kobo_requests_rejected ");
        assert("\nkobo_requests_rejected "@ =~= nl + "kobo_requests_rejected "@);
    }
    assert("\nkobo_cleanup_failures "@ == nl + "kobo_cleanup_failures "@) by {
        reveal_strlit("\nkobo_cleanup_failures ");
        reveal_strlit("kobo_cleanup_failures ");
        assert("\nkobo_cleanup_failures "@ =~= nl + "kobo_cleanup_failures "@);
    }
    assert("\nkobo_shelves_cleaned "@ == nl + "kobo_shelves_cleaned "@) by {
        reveal_strlit("\nkobo_shelves_cleaned ");
        reveal_strlit("kobo_shelves_cleaned ");
        assert("\nkobo_shelves_cleaned "@ =~= nl + "kobo_shelves_cleaned "@);
    }
    assert("\nkobo_conversion_milliseconds_total "@ == nl + "kobo_conversion_milliseconds_total "@) by {
        reveal_strlit("\nkobo_conversion_milliseconds_total ");
        reveal_strlit("kobo_conversion_milliseconds_total ");
        assert("\nkobo_conversion_milliseconds_total "@ =~= nl + "kobo_conversion_milliseconds_total "@);
    }
    let ls = seq![("kobo_active_shelves "@ + int_decimal(active_shelves) + "\n"@), ("kobo_stored_bytes "@ + int_decimal(stored_bytes) + "\n"@), ("kobo_cleanup_lag_seconds "@ + int_decimal(cleanup_lag) + "\n"@), ("kobo_uploads_completed "@ + nat_decimal(m.uploads_completed as nat) + "\n"@), ("kobo_uploads_failed "@ + nat_decimal(m.uploads_failed as nat) + "\n"@), ("kobo_downloads_started "@ + nat_decimal(m.downloads_started as nat) + "\n"@), ("kobo_requests_rejected "@ + nat_decimal(m.requests_rejected as nat) + "\n"@), ("kobo_cleanup_failures "@ + nat_decimal(m.cleanup_failures as nat) + "\n"@), ("kobo_shelves_cleaned "@ + nat_decimal(m.shelves_cleaned as nat) + "\n"@), ("kobo_conversion_milliseconds_total "@ + nat_decimal(m.conversion_millis as nat) + "\n"@)];
    assert(ls[0] == ("kobo_active_shelves "@ + int_decimal(active_shelves) + "\n"@));
    assert(ls[1] == ("kobo_stored_bytes "@ + int_decimal(stored_bytes) + "\n"@));
    assert(ls[2] == ("kobo_cleanup_lag_seconds "@ + int_decimal(cleanup_lag) + "\n"@));
    assert(ls[3] == ("kobo_uploads_completed "@ + nat_decimal(m.uploads_completed as nat) + "\n"@));
    assert(ls[4] == ("kobo_uploads_failed "@ + nat_decimal(m.uploads_failed as nat) + "\n"@));
    assert(ls[5] == ("kobo_downloads_started "@ + nat_decimal(m.downloads_started as nat) + "\n"@));
    assert(ls[6] == ("kobo_requests_rejected "@ + nat_decimal(m.requests_rejected as nat) + "\n"@));
    assert(ls[7] == ("kobo_cleanup_failures "@ + nat_decimal(m.cleanup_failures as nat) + "\n"@));
    assert(ls[8] == ("kobo_shelves_cleaned "@ + nat_decimal(m.shelves_cleaned as nat) + "\n"@));
    assert(ls[9] == ("kobo_conversion_milliseconds_total "@ + nat_decimal(m.conversion_millis as nat) + "\n"@));
    assert(joined(ls, 0) == Seq::<char>::empty());
    assert("kobo_active_shelves "@ + int_decimal(active_shelves) + "\nkobo_stored_bytes "@ =~= joined(ls, 1) + "kobo_stored_bytes "@);
    assert("kobo_active_shelves "@ + int_decimal(active_shelves) + "\nkobo_stored_bytes "@ + int_decimal(stored_bytes) + "\nkobo_cleanup_lag_seconds "@ =~= joined(ls, 2) + "kobo_cleanup_lag_seconds "@) by {
        assert(joined(ls, 2) == joined(ls, 1) + ls[1]);
    }
    assert("kobo_active_shelves "@ + int_decimal(active_shelves) + "\nkobo_stored_bytes "@ + int_decimal(stored_bytes) + "\nkobo_cleanup_lag_seconds "@ + int_decimal(cleanup_lag) + "\nkobo_uploads_completed "@ =~= joined(ls, 3) + "kobo_uploads_completed "@) by {
        assert(joined(ls, 3) == joined(ls, 2) + ls[2]);
    }
    assert("kobo_active_shelves "@ + int_decimal(active_shelves) + "\nkobo_stored_bytes "@ + int_decimal(stored_bytes) + "\nkobo_cleanup_lag_seconds "@ + int_decimal(cleanup_lag) + "\nkobo_uploads_completed "@ + nat_decimal(m.uploads_completed as nat) + "\nkobo_uploads_failed "@ =~= joined(ls, 4) + "kobo_uploads_failed "@) by {
        assert(joined(ls, 4) == joined(ls, 3) + ls[3]);
    }
    assert("kobo_active_shelves "@ + int_decimal(active_shelves) + "\nkobo_stored_bytes "@ + int_decimal(stored_bytes) + "\nkobo_cleanup_lag_seconds "@ + int_decimal(cleanup_lag) + "\nkobo_uploads_completed "@ + nat_decimal(m.uploads_completed as nat) + "\nkobo_uploads_failed "@ + nat_decimal(m.uploads_failed as nat) + "\nkobo_downloads_started "@ =~= joined(ls, 5) + "kobo_downloads_started "@) by {
        assert(joined(ls, 5) == joined(ls, 4) + ls[4]);
    }
    assert("kobo_active_shelves "@ + int_decimal(active_shelves) + "\nkobo_stored_bytes "@ + int_decimal(stored_bytes) + "\nkobo_cleanup_lag_seconds "@ + int_decimal(cleanup_lag) + "\nkobo_uploads_completed "@ + nat_decimal(m.uploads_completed as nat) + "\nkobo_uploads_failed "@ + nat_decimal(m.uploads_failed as nat) + "\nkobo_downloads_started "@ + nat_decimal(m.downloads_started as nat) + "\nkobo_requests_rejected "@ =~= joined(ls, 6) + "kobo_requests_rejected "@) by {
        assert(joined(ls, 6) == joined(ls, 5) + ls[5]);
    }
    assert("kobo_active_shelves "@ + int_decimal(active_shelves) + "\nkobo_stored_bytes "@ + int_decimal(stored_bytes) + "\nkobo_cleanup_lag_seconds "@ + int_decimal(cleanup_lag) + "\nkobo_uploads_completed "@ + nat_decimal(m.uploads_completed as nat) + "\nkobo_uploads_failed "@ + nat_decimal(m.uploads_failed as nat) + "\nkobo_downloads_started "@ + nat_decimal(m.downloads_started as nat) + "\nkobo_requests_rejected "@ + nat_decimal(m.requests_rejected as nat) + "\nkobo_cleanup_failures "@ =~= joined(ls, 7) + "kobo_cleanup_failures "@) by {
        assert(joined(ls, 7) == joined(ls, 6) + ls[6]);
    }
    assert("kobo_active_shelves "@ + int_decimal(active_shelves) + "\nkobo_stored_bytes "@ + int_decimal(stored_bytes) + "\nkobo_cleanup_lag_seconds "@ + int_decimal(cleanup_lag) + "\nkobo_uploads_completed "@ + nat_decimal(m.uploads_completed as nat) + "\nkobo_uploads_failed "@ + nat_decimal(m.uploads_failed as nat) + "\nkobo_downloads_started "@ + nat_decimal(m.downloads_started as nat) + "\nkobo_requests_rejected "@ + nat_decimal(m.requests_rejected as nat) + "\nkobo_cleanup_failures "@ + nat_decimal(m.cleanup_failures as nat) + "\nkobo_shelves_cleaned "@ =~= joined(ls, 8) + "kobo_shelves_cleaned "@) by {
        assert(joined(ls, 8) == joined(ls, 7) + ls[7]);
    }
    assert("kobo_active_shelves "@ + int_decimal(active_shelves) + "\nkobo_stored_bytes "@ + int_decimal(stored_bytes) + "\nkobo_cleanup_lag_seconds "@ + int_decimal(cleanup_lag) + "\nkobo_uploads_completed "@ + nat_decimal(m.uploads_completed as nat) + "\nkobo_uploads_failed "@ + nat_decimal(m.uploads_failed as nat) + "\nkobo_downloads_started "@ + nat_decimal(m.downloads_started as nat) + "\nkobo_requests_rejected "@ + nat_decimal(m.requests_rejected as nat) + "\nkobo_cleanup_failures "@ + nat_decimal(m.cleanup_failures as nat) + "\nkobo_shelves_cleaned "@ + nat_decimal(m.shelves_cleaned as nat) + "\nkobo_conversion_milliseconds_total "@ =~= joined(ls, 9) + "kobo_conversion_milliseconds_total "@) by {
        assert(joined(ls, 9) == joined(ls, 8) + ls[8]);
    }
    assert(spec_render(m, active_shelves, stored_bytes, cleanup_lag) =~= joined(ls, 10)) by {
        assert(joined(ls, 10) == joined(ls, 9) + ls[9]);
    }
    joined_contains_each(ls, 10, 0);
    joined_contains_each(ls, 10, 1);
    joined_contains_each(ls, 10, 2);
    joined_contains_each(ls, 10, 3);
    joined_contains_each(ls, 10, 4);
    joined_contains_each(ls, 10, 5);
    joined_contains_each(ls, 10, 6);
    joined_contains_each(ls, 10, 7);
    joined_contains_each(ls, 10, 8);
    joined_contains_each(ls, 10, 9);
}

} // verus!
