//! A fixed-window rate limiter: each key may make a bounded number of
//! requests per window of time.
use vstd::prelude::*;

use crate::text::str_eq;

verus! {

/// The window of one key: when it started, in milliseconds, and how many
/// requests it has let through.
#[derive(Debug)]
pub struct RateLimitBucket {
    pub key: String,
    pub window_started_at_ms: u64,
    pub request_count: u32,
}

/// Per-key request windows.
#[derive(Debug)]
pub struct RateLimiterState {
    buckets: Vec<RateLimitBucket>,
    window_ms: u64,
    max_requests_per_window: u32,
}

/// The windows of a limiter, by key: (start, count).
pub open spec fn buckets_map(buckets: Seq<RateLimitBucket>) -> Map<Seq<char>, (int, int)>
    decreases buckets.len(),
{
    if buckets.len() == 0 {
        Map::empty()
    } else {
        let last = buckets.last();
        buckets_map(buckets.drop_last()).insert(
            last.key@,
            (last.window_started_at_ms as int, last.request_count as int),
        )
    }
}

/// Time since `start`, zero when `now` is earlier.
pub open spec fn elapsed_since(now: int, start: int) -> int {
    if now >= start {
        now - start
    } else {
        0
    }
}

/// The window of `key` at `now`: a fresh one when the key has none or its
/// window has run out.
pub open spec fn current_window(
    windows: Map<Seq<char>, (int, int)>,
    key: Seq<char>,
    now: int,
    window: int,
) -> (int, int) {
    if windows.contains_key(key) && elapsed_since(now, windows[key].0) <= window {
        windows[key]
    } else {
        (now, 0)
    }
}

/// Whether a request of `key` at `now` is let through.
pub open spec fn request_allowed(
    windows: Map<Seq<char>, (int, int)>,
    key: Seq<char>,
    now: int,
    window: int,
    max: int,
) -> bool {
    current_window(windows, key, now, window).1 < max
}

/// The windows after a request of `key` at `now`: the key's current window,
/// counting the request when it is let through.
pub open spec fn windows_after_request(
    windows: Map<Seq<char>, (int, int)>,
    key: Seq<char>,
    now: int,
    window: int,
    max: int,
) -> Map<Seq<char>, (int, int)> {
    let w = current_window(windows, key, now, window);
    if w.1 < max {
        windows.insert(key, (w.0, w.1 + 1))
    } else {
        windows.insert(key, w)
    }
}

impl View for RateLimiterState {
    type V = Map<Seq<char>, (int, int)>;

    closed spec fn view(&self) -> Map<Seq<char>, (int, int)> {
        buckets_map(self.buckets@)
    }
}

/// The position of the bucket of `key`, if any.
fn find_bucket(buckets: &Vec<RateLimitBucket>, key: &str) -> (r: Option<usize>)
    ensures
        r matches Some(i) ==> i < buckets@.len() && buckets@[i as int].key@ == key@,
        r is None ==> forall|k: int| 0 <= k < buckets@.len() ==> (#[trigger] buckets@[k]).key@ != key@,
{
    let mut i: usize = 0;
    while i < buckets.len()
        invariant
            i <= buckets@.len(),
            forall|k: int| 0 <= k < i ==> (#[trigger] buckets@[k]).key@ != key@,
        decreases buckets.len() - i,
    {
        if str_eq(buckets[i].key.as_str(), key) {
            return Some(i);
        }
        i = i + 1;
    }
    None
}

/// Keys are unique in a list of buckets.
pub open spec fn unique_keys(buckets: Seq<RateLimitBucket>) -> bool {
    forall|i: int, j: int|
        0 <= i < buckets.len() && 0 <= j < buckets.len() && i != j ==> (#[trigger] buckets[i]).key@
            != (#[trigger] buckets[j]).key@
}

proof fn lemma_buckets_map_absent(buckets: Seq<RateLimitBucket>, key: Seq<char>)
    requires
        forall|k: int| 0 <= k < buckets.len() ==> (#[trigger] buckets[k]).key@ != key,
    ensures
        !buckets_map(buckets).contains_key(key),
    decreases buckets.len(),
{
    if buckets.len() > 0 {
        lemma_buckets_map_absent(buckets.drop_last(), key);
    }
}

proof fn lemma_buckets_map_at(buckets: Seq<RateLimitBucket>, i: int)
    requires
        0 <= i < buckets.len(),
        unique_keys(buckets),
    ensures
        buckets_map(buckets).contains_key(buckets[i].key@),
        buckets_map(buckets)[buckets[i].key@] == (
            buckets[i].window_started_at_ms as int,
            buckets[i].request_count as int,
        ),
    decreases buckets.len(),
{
    if i < buckets.len() - 1 {
        let t = buckets.drop_last();
        assert(unique_keys(t));
        lemma_buckets_map_at(t, i);
        assert(buckets.last().key@ != buckets[i].key@);
    }
}

proof fn lemma_buckets_map_update(buckets: Seq<RateLimitBucket>, i: int, b: RateLimitBucket)
    requires
        0 <= i < buckets.len(),
        unique_keys(buckets),
        b.key@ == buckets[i].key@,
    ensures
        unique_keys(buckets.update(i, b)),
        buckets_map(buckets.update(i, b)) == buckets_map(buckets).insert(
            b.key@,
            (b.window_started_at_ms as int, b.request_count as int),
        ),
    decreases buckets.len(),
{
    let u = buckets.update(i, b);
    if i == buckets.len() - 1 {
        assert(u.drop_last() =~= buckets.drop_last());
        let t = buckets.drop_last();
        assert forall|k: int| 0 <= k < t.len() implies (#[trigger] t[k]).key@ != b.key@ by {
            assert(buckets[k] == t[k]);
        }
        lemma_buckets_map_absent(t, b.key@);
        assert(buckets_map(u) =~= buckets_map(buckets).insert(
            b.key@,
            (b.window_started_at_ms as int, b.request_count as int),
        ));
    } else {
        let t = buckets.drop_last();
        assert(unique_keys(t));
        lemma_buckets_map_update(t, i, b);
        assert(u.drop_last() =~= t.update(i, b));
        assert(buckets.last().key@ != b.key@);
        assert(buckets_map(u) =~= buckets_map(buckets).insert(
            b.key@,
            (b.window_started_at_ms as int, b.request_count as int),
        ));
    }
}

impl RateLimiterState {
    #[verifier::type_invariant]
    spec fn inv(self) -> bool {
        &&& unique_keys(self.buckets@)
        &&& forall|i: int|
            0 <= i < self.buckets@.len() ==> (#[trigger] self.buckets@[i]).request_count
                <= self.max_requests_per_window
    }

    pub closed spec fn window(&self) -> int {
        self.window_ms as int
    }

    pub closed spec fn max_requests(&self) -> int {
        self.max_requests_per_window as int
    }

    /// A limiter with no windows yet.
    pub fn new(window_ms: u64, max_requests_per_window: u32) -> (r: Self)
        ensures
            r@ == Map::<Seq<char>, (int, int)>::empty(),
            r.window() == window_ms,
            r.max_requests() == max_requests_per_window,
    {
        let r = RateLimiterState { buckets: Vec::new(), window_ms, max_requests_per_window };
        assert(buckets_map(r.buckets@) =~= Map::<Seq<char>, (int, int)>::empty());
        r
    }

    /// Counts a request of `key` at `now_ms` and says whether it may go
    /// through: a key may make at most `max_requests_per_window` requests in
    /// a window, and a window runs out `window_ms` after it began.
    pub fn allow_request(&mut self, key: &str, now_ms: u64) -> (r: bool)
        ensures
            r == request_allowed(
                old(self)@,
                key@,
                now_ms as int,
                old(self).window(),
                old(self).max_requests(),
            ),
            final(self)@ == windows_after_request(
                old(self)@,
                key@,
                now_ms as int,
                old(self).window(),
                old(self).max_requests(),
            ),
            final(self).window() == old(self).window(),
            final(self).max_requests() == old(self).max_requests(),
    {
        proof {
            use_type_invariant(&*self);
        }
        let ghost before = self@;
        let ghost bs = self.buckets@;
        let window_ms = self.window_ms;
        let max = self.max_requests_per_window;
        let index = match find_bucket(&self.buckets, key) {
            Some(i) => {
                proof {
                    lemma_buckets_map_at(bs, i as int);
                }
                i
            },
            None => {
                proof {
                    lemma_buckets_map_absent(bs, key@);
                }
                let ghost old_buckets = self.buckets@;
                let bucket = RateLimitBucket {
                    key: String::from_str(key),
                    window_started_at_ms: now_ms,
                    request_count: 0,
                };
                let mut buckets: Vec<RateLimitBucket> = Vec::new();
        std::mem::swap(&mut buckets, &mut self.buckets);
                buckets.push(bucket);
                proof {
                    assert(buckets@.drop_last() =~= old_buckets);
                    assert forall|i: int, j: int|
                        0 <= i < buckets@.len() && 0 <= j < buckets@.len() && i != j implies (
                        #[trigger] buckets@[i]).key@ != (#[trigger] buckets@[j]).key@ by {
                        if i < old_buckets.len() && j < old_buckets.len() {
                            assert(buckets@[i] == old_buckets[i]);
                            assert(buckets@[j] == old_buckets[j]);
                        } else if i < old_buckets.len() {
                            assert(buckets@[i] == old_buckets[i]);
                        } else {
                            assert(buckets@[j] == old_buckets[j]);
                        }
                    }
                }
                self.buckets = buckets;
                self.buckets.len() - 1
            },
        };
        let ghost mid = self.buckets@;
        proof {
            lemma_buckets_map_at(mid, index as int);
        }
        let start = self.buckets[index].window_started_at_ms;
        let count = self.buckets[index].request_count;
        let elapsed: u64 = if now_ms >= start {
            now_ms - start
        } else {
            0
        };
        let (new_start, new_count) = if elapsed > window_ms {
            (now_ms, 0u32)
        } else {
            (start, count)
        };
        let allowed = new_count < max;
        let final_count: u32 = if allowed {
            new_count + 1
        } else {
            new_count
        };
        let updated = RateLimitBucket {
            key: String::from_str(key),
            window_started_at_ms: new_start,
            request_count: final_count,
        };
        proof {
            lemma_buckets_map_update(mid, index as int, updated);
        }
        let mut buckets: Vec<RateLimitBucket> = Vec::new();
        std::mem::swap(&mut buckets, &mut self.buckets);
        buckets.set(index, updated);
        self.buckets = buckets;
        proof {
            assert(buckets_map(mid) =~= before.insert(
                key@,
                (mid[index as int].window_started_at_ms as int, mid[index as int].request_count as int),
            )) by {
                if !before.contains_key(key@) {
                } else {
                }
            }
        }
        allowed
    }
}

/// A key whose window is full and has not run out is refused, and the
/// limiter keeps what it had.
pub proof fn lemma_full_window_refuses(
    windows: Map<Seq<char>, (int, int)>,
    key: Seq<char>,
    now: int,
    window: int,
    max: int,
)
    requires
        windows.contains_key(key),
        windows[key].1 >= max,
        elapsed_since(now, windows[key].0) <= window,
    ensures
        !request_allowed(windows, key, now, window, max),
        windows_after_request(windows, key, now, window, max) == windows,
{
    assert(windows.insert(key, windows[key]) =~= windows);
}

/// Once a key's window has run out, its next request goes through (when
/// the limit lets any request through at all) and opens a new window.
pub proof fn lemma_expired_window_allows(
    windows: Map<Seq<char>, (int, int)>,
    key: Seq<char>,
    now: int,
    window: int,
    max: int,
)
    requires
        max > 0,
        !windows.contains_key(key) || elapsed_since(now, windows[key].0) > window,
    ensures
        request_allowed(windows, key, now, window, max),
        windows_after_request(windows, key, now, window, max)[key] == (now, 1int),
{
}

/// Within one window, a key never gets more requests through than the
/// limit: the count of a window never goes past `max`.
pub proof fn lemma_window_count_bounded(
    windows: Map<Seq<char>, (int, int)>,
    key: Seq<char>,
    now: int,
    window: int,
    max: int,
)
    requires
        max >= 0,
        forall|k: Seq<char>| #[trigger] windows.contains_key(k) ==> 0 <= windows[k].1 <= max,
    ensures
        forall|k: Seq<char>| #[trigger] windows_after_request(windows, key, now, window, max).contains_key(k)
            ==> 0 <= windows_after_request(windows, key, now, window, max)[k].1 <= max,
        request_allowed(windows, key, now, window, max) ==> windows_after_request(
            windows,
            key,
            now,
            window,
            max,
        )[key].1 == current_window(windows, key, now, window).1 + 1,
{
}


/// The windows after `count` requests of `key`, all made at `now`.
pub open spec fn windows_after_requests(
    windows: Map<Seq<char>, (int, int)>,
    key: Seq<char>,
    now: int,
    window: int,
    max: int,
    count: nat,
) -> Map<Seq<char>, (int, int)>
    decreases count,
{
    if count == 0 {
        windows
    } else {
        windows_after_request(
            windows_after_requests(windows, key, now, window, max, (count - 1) as nat),
            key,
            now,
            window,
            max,
        )
    }
}

proof fn lemma_requests_fill_window(
    key: Seq<char>,
    now: int,
    window: int,
    max: int,
    count: nat,
)
    requires
        window >= 0,
        count <= max,
    ensures
        ({
            let w = windows_after_requests(Map::empty(), key, now, window, max, count);
            &&& w.dom() =~= (if count == 0 {
                Set::<Seq<char>>::empty()
            } else {
                set![key]
            })
            &&& count > 0 ==> w[key] == (now, count as int)
        }),
    decreases count,
{
    if count > 0 {
        lemma_requests_fill_window(key, now, window, max, (count - 1) as nat);
    }
}

/// A fresh limiter lets a key make `max` requests at one moment and refuses
/// the next one, also at the last moment of the window; once the window has
/// run out the key is let through again; and another key is let through
/// all along, since each key has a window of its own.
pub proof fn lemma_fresh_limiter_sequence(
    key: Seq<char>,
    other: Seq<char>,
    now: int,
    window: int,
    max: int,
    later: int,
)
    requires
        max >= 1,
        window >= 0,
        key != other,
    ensures
        forall|count: nat|
            count < max ==> request_allowed(
                #[trigger] windows_after_requests(Map::empty(), key, now, window, max, count),
                key,
                now,
                window,
                max,
            ),
        !request_allowed(
            windows_after_requests(Map::empty(), key, now, window, max, max as nat),
            key,
            now,
            window,
            max,
        ),
        !request_allowed(
            windows_after_requests(Map::empty(), key, now, window, max, max as nat),
            key,
            now + window,
            window,
            max,
        ),
        later > now + window ==> request_allowed(
            windows_after_requests(Map::empty(), key, now, window, max, max as nat),
            key,
            later,
            window,
            max,
        ),
        request_allowed(
            windows_after_requests(Map::empty(), key, now, window, max, max as nat),
            other,
            now,
            window,
            max,
        ),
{
    assert forall|count: nat| count < max implies request_allowed(
        #[trigger] windows_after_requests(Map::empty(), key, now, window, max, count),
        key,
        now,
        window,
        max,
    ) by {
        lemma_requests_fill_window(key, now, window, max, count);
    }
    lemma_requests_fill_window(key, now, window, max, max as nat);
    let full = windows_after_requests(Map::empty(), key, now, window, max, max as nat);
    assert(full.contains_key(key));
    assert(!full.contains_key(other));
}

} // verus!
