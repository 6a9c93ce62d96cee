//! Fixed-window rate limiter: one counter per key, reset when the window
//! rolls over. A burst straddling a window boundary can admit up to twice
//! the configured rate in close succession; that approximation is part of
//! the design, not a defect.

use vstd::prelude::*;
use crate::text::str_eq;

verus! {

/// How clients are told apart for rate limiting.
#[derive(Clone, Copy, Debug, PartialEq, Eq, Structural)]
pub enum RateLimitKey {
    /// Limit by client network address.
    ByIp,
    /// Limit by presented API key, falling back to the address.
    ByApiKey,
}

impl Default for RateLimitKey {
    /// Limiting by network address.
    fn default() -> (r: Self)
        ensures
            r == RateLimitKey::ByIp,
    {
        RateLimitKey::ByIp
    }
}

/// Configuration of the rate limiter.
#[derive(Clone, Copy, Debug, PartialEq, Eq, Structural)]
pub struct RateLimitConfig {
    /// Most requests admitted per window.
    pub max_requests: u32,
    /// Window length in milliseconds.
    pub window_ms: u64,
    /// How clients are told apart.
    pub key_strategy: RateLimitKey,
}

impl Default for RateLimitConfig {
    /// One hundred requests per minute, keyed by network address.
    fn default() -> (r: Self)
        ensures
            r.max_requests == 100,
            r.window_ms == 60000,
            r.key_strategy == RateLimitKey::ByIp,
    {
        RateLimitConfig { max_requests: 100, window_ms: 60000, key_strategy: RateLimitKey::ByIp }
    }
}

/// One key's counter: how many requests were admitted to the window that
/// began at `window_start_ms`.
#[derive(Clone, Copy, Debug, PartialEq, Eq, Structural)]
pub struct RateLimitEntry {
    /// Requests counted in the current window.
    pub count: u32,
    /// When the current window began, in milliseconds.
    pub window_start_ms: u64,
}

/// Time passed since `start`, or zero when `now` reads earlier.
pub open spec fn elapsed(now: u64, start: u64) -> u64 {
    if now >= start {
        (now - start) as u64
    } else {
        0
    }
}

/// The entry a request finds after window rollover: a missing or expired
/// entry starts a fresh window at `now`.
pub open spec fn rolled_entry(e: Option<RateLimitEntry>, now: u64, window_ms: u64) -> RateLimitEntry {
    match e {
        None => RateLimitEntry { count: 0, window_start_ms: now },
        Some(e) => if elapsed(now, e.window_start_ms) >= window_ms {
            RateLimitEntry { count: 0, window_start_ms: now }
        } else {
            e
        },
    }
}

/// A count incremented by one, stopping at the largest representable
/// count.
pub open spec fn bumped(count: u32) -> u32 {
    if count < u32::MAX {
        (count + 1) as u32
    } else {
        count
    }
}

/// The counter entry a key holds after one request at `now` is counted
/// against the map `m`.
pub open spec fn next_entry(
    m: Map<Seq<char>, RateLimitEntry>,
    window_ms: u64,
    key: Seq<char>,
    now_ms: u64,
) -> RateLimitEntry {
    let prior = if m.dom().contains(key) {
        Some(m[key])
    } else {
        None
    };
    let rolled = rolled_entry(prior, now_ms, window_ms);
    RateLimitEntry { count: bumped(rolled.count), window_start_ms: rolled.window_start_ms }
}

/// The map an association list of counters denotes.
pub open spec fn map_of_entries(entries: Seq<(String, RateLimitEntry)>) -> Map<
    Seq<char>,
    RateLimitEntry,
> {
    Map::new(
        |k: Seq<char>| exists|i: int| 0 <= i < entries.len() && entries[i].0@ == k,
        |k: Seq<char>| entries[choose|i: int| 0 <= i < entries.len() && entries[i].0@ == k].1,
    )
}

/// True when no key appears twice in the list.
pub open spec fn entries_unique(entries: Seq<(String, RateLimitEntry)>) -> bool {
    forall|i: int, j: int| 0 <= i < j < entries.len() ==> entries[i].0@ != entries[j].0@
}

/// In a duplicate-free association list, every position agrees with the
/// denoted map.
proof fn lemma_assoc_view_correspondence(entries: Seq<(String, RateLimitEntry)>)
    requires
        entries_unique(entries),
    ensures
        forall|i: int|
            0 <= i < entries.len() ==> map_of_entries(entries).dom().contains(
                #[trigger] entries[i].0@,
            ) && map_of_entries(entries)[entries[i].0@] == entries[i].1,
{
    assert forall|i: int| 0 <= i < entries.len() implies map_of_entries(entries).dom().contains(
        #[trigger] entries[i].0@,
    ) && map_of_entries(entries)[entries[i].0@] == entries[i].1 by {
        let k = entries[i].0@;
        assert(0 <= i < entries.len() && entries[i].0@ == k);
        assert(exists|j: int| #![trigger entries[j].0@] 0 <= j < entries.len() && entries[j].0@
            == k);
        let w = choose|j: int| 0 <= j < entries.len() && entries[j].0@ == k;
        assert(w == i);
    }
}

/// Removing a position from a duplicate-free association list keeps it
/// duplicate-free, and no surviving key reads as the removed one.
proof fn lemma_unique_after_remove(entries: Seq<(String, RateLimitEntry)>, i: int)
    requires
        0 <= i < entries.len(),
        entries_unique(entries),
    ensures
        entries_unique(entries.remove(i)),
        forall|a: int|
            0 <= a < entries.remove(i).len() ==> #[trigger] entries.remove(i)[a].0@
                != entries[i].0@,
{
    let shorter = entries.remove(i);
    assert forall|a: int, b: int| 0 <= a < b < shorter.len() implies shorter[a].0@
        != shorter[b].0@ by {
        assert(shorter[a] == if a < i {
            entries[a]
        } else {
            entries[a + 1]
        });
        assert(shorter[b] == if b < i {
            entries[b]
        } else {
            entries[b + 1]
        });
    }
    assert forall|a: int| 0 <= a < shorter.len() implies #[trigger] shorter[a].0@
        != entries[i].0@ by {
        assert(shorter[a] == if a < i {
            entries[a]
        } else {
            entries[a + 1]
        });
    }
}

/// Appending an entry for a key that does not occur in a duplicate-free
/// association list keeps it duplicate-free and extends the denoted map by
/// exactly that key.
proof fn lemma_view_after_push(
    entries: Seq<(String, RateLimitEntry)>,
    item: (String, RateLimitEntry),
)
    requires
        entries_unique(entries),
        forall|a: int| 0 <= a < entries.len() ==> #[trigger] entries[a].0@ != item.0@,
    ensures
        entries_unique(entries.push(item)),
        map_of_entries(entries.push(item)) =~= map_of_entries(entries).insert(item.0@, item.1),
{
    let pushed = entries.push(item);
    assert forall|a: int, b: int| 0 <= a < b < pushed.len() implies pushed[a].0@
        != pushed[b].0@ by {
        assert(pushed[a] == entries[a]);
        if b < pushed.len() - 1 {
            assert(pushed[b] == entries[b]);
        }
    }
    lemma_assoc_view_correspondence(entries);
    lemma_assoc_view_correspondence(pushed);
    let target = map_of_entries(entries).insert(item.0@, item.1);
    assert forall|k: Seq<char>| #[trigger]
        map_of_entries(pushed).dom().contains(k) implies target.dom().contains(k) && target[k]
        == map_of_entries(pushed)[k] by {
        let a = choose|a: int| 0 <= a < pushed.len() && pushed[a].0@ == k;
        if a < pushed.len() - 1 {
            assert(pushed[a] == entries[a]);
            assert(k != item.0@);
        }
    }
    assert forall|k: Seq<char>| #[trigger] target.dom().contains(k) implies map_of_entries(
        pushed,
    ).dom().contains(k) by {
        if k == item.0@ {
            assert(pushed[pushed.len() - 1].0@ == k);
        } else {
            let a = choose|a: int| 0 <= a < entries.len() && entries[a].0@ == k;
            assert(pushed[a] == entries[a]);
            assert(pushed[a].0@ == k);
        }
    }
    assert(map_of_entries(pushed) =~= target);
}

/// True when `item` stands among the first `i` old entries and its
/// window still runs at `now_ms`.
pub open spec fn appears_live_before(
    old_entries: Seq<(String, RateLimitEntry)>,
    i: int,
    item: (String, RateLimitEntry),
    now_ms: u64,
    window_ms: u64,
) -> bool {
    exists|b: int|
        #![trigger old_entries[b]]
        0 <= b < i && old_entries[b] == item && elapsed(
            now_ms,
            old_entries[b].1.window_start_ms,
        ) < window_ms
}

/// True when `item` stands somewhere in `kept`.
pub open spec fn has_entry(kept: Seq<(String, RateLimitEntry)>, item: (String, RateLimitEntry)) -> bool {
    exists|a: int| #![trigger kept[a]] 0 <= a < kept.len() && kept[a] == item
}

/// The loop relation of [`RateLimitState::cleanup`]: `kept` holds exactly
/// the entries among the first `i` whose window still runs.
pub open spec fn kept_matches(
    old_entries: Seq<(String, RateLimitEntry)>,
    kept: Seq<(String, RateLimitEntry)>,
    i: int,
    now_ms: u64,
    window_ms: u64,
) -> bool {
    &&& entries_unique(kept)
    &&& forall|a: int| #![trigger kept[a]]
        0 <= a < kept.len() ==> appears_live_before(old_entries, i, kept[a], now_ms, window_ms)
    &&& forall|b: int| #![trigger old_entries[b]]
        0 <= b < i && elapsed(now_ms, old_entries[b].1.window_start_ms) < window_ms ==> has_entry(
            kept,
            old_entries[b],
        )
}

/// A live appearance among the first `i` entries is one among the first
/// `i + 1` as well.
proof fn lemma_live_widen(
    old_entries: Seq<(String, RateLimitEntry)>,
    i: int,
    item: (String, RateLimitEntry),
    now_ms: u64,
    window_ms: u64,
)
    requires
        appears_live_before(old_entries, i, item, now_ms, window_ms),
    ensures
        appears_live_before(old_entries, i + 1, item, now_ms, window_ms),
{
    let b0 = choose|b: int|
        #![trigger old_entries[b]]
        0 <= b < i && old_entries[b] == item && elapsed(
            now_ms,
            old_entries[b].1.window_start_ms,
        ) < window_ms;
    assert(0 <= b0 < i + 1 && old_entries[b0] == item && elapsed(
        now_ms,
        old_entries[b0].1.window_start_ms,
    ) < window_ms);
}

/// What a list holds, a longer list holds too.
proof fn lemma_has_entry_push(
    kept: Seq<(String, RateLimitEntry)>,
    item: (String, RateLimitEntry),
    appended: (String, RateLimitEntry),
)
    requires
        has_entry(kept, item),
    ensures
        has_entry(kept.push(appended), item),
{
    let a0 = choose|a: int| #![trigger kept[a]] 0 <= a < kept.len() && kept[a] == item;
    assert(kept.push(appended)[a0] == item);
}

/// Keeping a live entry preserves the cleanup loop relation.
#[verifier::rlimit(60)]
proof fn lemma_keep_step(
    old_entries: Seq<(String, RateLimitEntry)>,
    kept: Seq<(String, RateLimitEntry)>,
    i: int,
    now_ms: u64,
    window_ms: u64,
)
    requires
        entries_unique(old_entries),
        0 <= i < old_entries.len(),
        kept_matches(old_entries, kept, i, now_ms, window_ms),
        elapsed(now_ms, old_entries[i].1.window_start_ms) < window_ms,
    ensures
        kept_matches(old_entries, kept.push(old_entries[i]), i + 1, now_ms, window_ms),
{
    let pushed = kept.push(old_entries[i]);
    assert forall|a: int, b: int| 0 <= a < b < pushed.len() implies pushed[a].0@
        != pushed[b].0@ by {
        assert(pushed[a] == kept[a]);
        if b < pushed.len() - 1 {
            assert(pushed[b] == kept[b]);
        } else {
            assert(appears_live_before(old_entries, i, kept[a], now_ms, window_ms));
            let b0 = choose|b0: int|
                #![trigger old_entries[b0]]
                0 <= b0 < i && old_entries[b0] == kept[a] && elapsed(
                    now_ms,
                    old_entries[b0].1.window_start_ms,
                ) < window_ms;
            assert(old_entries[b0].0@ != old_entries[i].0@);
        }
    }
    assert forall|a: int| #![trigger pushed[a]] 0 <= a < pushed.len() implies appears_live_before(
        old_entries,
        i + 1,
        pushed[a],
        now_ms,
        window_ms,
    ) by {
        if a == pushed.len() - 1 {
            assert(0 <= i < i + 1 && old_entries[i] == pushed[a] && elapsed(
                now_ms,
                old_entries[i].1.window_start_ms,
            ) < window_ms);
        } else {
            assert(pushed[a] == kept[a]);
            assert(appears_live_before(old_entries, i, kept[a], now_ms, window_ms));
            lemma_live_widen(old_entries, i, kept[a], now_ms, window_ms);
        }
    }
    assert forall|b: int| #![trigger old_entries[b]]
        0 <= b < i + 1 && elapsed(now_ms, old_entries[b].1.window_start_ms)
        < window_ms implies has_entry(pushed, old_entries[b]) by {
        if b == i {
            assert(pushed[pushed.len() - 1] == old_entries[b]);
        } else {
            assert(has_entry(kept, old_entries[b]));
            lemma_has_entry_push(kept, old_entries[b], old_entries[i]);
        }
    }
}

/// Skipping an expired entry preserves the cleanup loop relation.
#[verifier::rlimit(60)]
proof fn lemma_skip_step(
    old_entries: Seq<(String, RateLimitEntry)>,
    kept: Seq<(String, RateLimitEntry)>,
    i: int,
    now_ms: u64,
    window_ms: u64,
)
    requires
        entries_unique(old_entries),
        0 <= i < old_entries.len(),
        kept_matches(old_entries, kept, i, now_ms, window_ms),
        elapsed(now_ms, old_entries[i].1.window_start_ms) >= window_ms,
    ensures
        kept_matches(old_entries, kept, i + 1, now_ms, window_ms),
{
    assert forall|a: int| #![trigger kept[a]] 0 <= a < kept.len() implies appears_live_before(
        old_entries,
        i + 1,
        kept[a],
        now_ms,
        window_ms,
    ) by {
        assert(appears_live_before(old_entries, i, kept[a], now_ms, window_ms));
        lemma_live_widen(old_entries, i, kept[a], now_ms, window_ms);
    }
    assert forall|b: int| #![trigger old_entries[b]]
        0 <= b < i + 1 && elapsed(now_ms, old_entries[b].1.window_start_ms)
        < window_ms implies has_entry(kept, old_entries[b]) by {
        assert(b != i);
        assert(has_entry(kept, old_entries[b]));
    }
}

/// When the loop relation holds over the whole list, the kept entries
/// denote the restriction of the old map to live windows.
#[verifier::rlimit(60)]
proof fn lemma_cleanup_final(
    old_entries: Seq<(String, RateLimitEntry)>,
    kept: Seq<(String, RateLimitEntry)>,
    now_ms: u64,
    window_ms: u64,
)
    requires
        entries_unique(old_entries),
        kept_matches(old_entries, kept, old_entries.len() as int, now_ms, window_ms),
    ensures
        map_of_entries(kept) == map_of_entries(old_entries).restrict(
            Set::new(
                |k: Seq<char>| map_of_entries(old_entries).dom().contains(k) && elapsed(
                    now_ms,
                    map_of_entries(old_entries)[k].window_start_ms,
                ) < window_ms,
            ),
        ),
{
    let target = map_of_entries(old_entries).restrict(
        Set::new(
            |k: Seq<char>| map_of_entries(old_entries).dom().contains(k) && elapsed(
                now_ms,
                map_of_entries(old_entries)[k].window_start_ms,
            ) < window_ms,
        ),
    );
    lemma_assoc_view_correspondence(old_entries);
    lemma_assoc_view_correspondence(kept);
    assert forall|k: Seq<char>| #[trigger]
        map_of_entries(kept).dom().contains(k) implies target.dom().contains(k) && target[k]
        == map_of_entries(kept)[k] by {
        let a = choose|a: int| 0 <= a < kept.len() && kept[a].0@ == k;
        assert(appears_live_before(
            old_entries,
            old_entries.len() as int,
            kept[a],
            now_ms,
            window_ms,
        ));
        let b = choose|b: int|
            #![trigger old_entries[b]]
            0 <= b < old_entries.len() && old_entries[b] == kept[a] && elapsed(
                now_ms,
                old_entries[b].1.window_start_ms,
            ) < window_ms;
        assert(old_entries[b].0@ == k);
        assert(map_of_entries(old_entries)[k] == old_entries[b].1);
        assert(map_of_entries(kept)[k] == kept[a].1);
    }
    assert forall|k: Seq<char>| #[trigger] target.dom().contains(k) implies map_of_entries(
        kept,
    ).dom().contains(k) by {
        let b = choose|b: int| 0 <= b < old_entries.len() && old_entries[b].0@ == k;
        assert(map_of_entries(old_entries)[k] == old_entries[b].1);
        assert(elapsed(now_ms, old_entries[b].1.window_start_ms) < window_ms);
        assert(has_entry(kept, old_entries[b]));
        let a = choose|a: int| #![trigger kept[a]] 0 <= a < kept.len() && kept[a] == old_entries[b];
        assert(kept[a].0@ == k);
    }
    assert(map_of_entries(kept) =~= target);
}

/// Per-key fixed-window request counters.
pub struct RateLimitState {
    /// The limiter's configuration.
    pub config: RateLimitConfig,
    entries: Vec<(String, RateLimitEntry)>,
}

impl RateLimitState {
    /// The limiter's configuration, for contracts.
    pub closed spec fn spec_config(&self) -> RateLimitConfig {
        self.config
    }

    /// A copy of the limiter's configuration.
    pub fn get_config(&self) -> (r: RateLimitConfig)
        ensures
            r == self.spec_config(),
    {
        self.config
    }

    /// The map from key to its counter entry.
    pub closed spec fn entries_view(&self) -> Map<Seq<char>, RateLimitEntry> {
        map_of_entries(self.entries@)
    }

    /// The internal invariant: no key appears twice.
    pub closed spec fn wf(&self) -> bool {
        entries_unique(self.entries@)
    }

    /// A new limiter with the given configuration and no counters.
    pub fn new(config: RateLimitConfig) -> (r: Self)
        ensures
            r.wf(),
            r.spec_config() == config,
            r.entries_view() =~= Map::empty(),
    {
        let r = RateLimitState { config, entries: Vec::new() };
        proof {
            assert(r.entries_view() =~= Map::empty());
        }
        r
    }

    /// Resolves a key, opening or rolling its window as needed, then
    /// counts this request against it. Admits the request with the
    /// remaining budget and the limit, or rejects it with the count and
    /// the time until the window ends.
    pub fn check_and_increment(&mut self, key: String, now_ms: u64) -> (r: Result<
        (u32, u32),
        (u32, u64),
    >)
        requires
            old(self).wf(),
        ensures
            final(self).wf(),
            final(self).spec_config() == old(self).spec_config(),
            ({
                let e = next_entry(
                    old(self).entries_view(),
                    old(self).spec_config().window_ms,
                    key@,
                    now_ms,
                );
                &&& final(self).entries_view() == old(self).entries_view().insert(key@, e)
                &&& (r is Ok <==> e.count <= old(self).spec_config().max_requests)
                &&& (r matches Ok(ok) ==> ok == ((
                    (old(self).spec_config().max_requests - e.count) as u32,
                    old(self).spec_config().max_requests,
                )))
                &&& (r matches Err(err) ==> elapsed(now_ms, e.window_start_ms) <= old(
                    self,
                ).spec_config().window_ms && err == ((
                    e.count,
                    (old(self).spec_config().window_ms - elapsed(now_ms, e.window_start_ms)) as u64,
                )))
            }),
    {
        let ghost old_entries = self.entries@;
        let position = self.find(key.as_str());
        let prior_entry: Option<RateLimitEntry> = match position {
            Some(i) => Some(self.entries[i].1),
            None => None,
        };
        let rolled = match prior_entry {
            None => RateLimitEntry { count: 0, window_start_ms: now_ms },
            Some(e) => {
                let gone = if now_ms >= e.window_start_ms {
                    now_ms - e.window_start_ms
                } else {
                    0
                };
                if gone >= self.config.window_ms {
                    RateLimitEntry { count: 0, window_start_ms: now_ms }
                } else {
                    e
                }
            },
        };
        let count = if rolled.count < u32::MAX {
            rolled.count + 1
        } else {
            rolled.count
        };
        let updated = RateLimitEntry { count, window_start_ms: rolled.window_start_ms };
        match position {
            Some(i) => {
                let kept = self.entries.remove(i);
                proof {
                    lemma_unique_after_remove(old_entries, i as int);
                    lemma_view_after_push(old_entries.remove(i as int), (kept.0, updated));
                    lemma_assoc_view_correspondence(old_entries);
                    lemma_assoc_view_correspondence(old_entries.remove(i as int));
                    assert forall|k: Seq<char>| #[trigger]
                        map_of_entries(old_entries.remove(i as int)).insert(
                            key@,
                            updated,
                        ).dom().contains(k) implies map_of_entries(old_entries).insert(
                        key@,
                        updated,
                    ).dom().contains(k) && map_of_entries(old_entries.remove(i as int)).insert(
                        key@,
                        updated,
                    )[k] == map_of_entries(old_entries).insert(key@, updated)[k] by {
                        if k != key@ {
                            let a = choose|a: int|
                                0 <= a < old_entries.remove(i as int).len()
                                    && old_entries.remove(i as int)[a].0@ == k;
                            assert(old_entries.remove(i as int)[a] == if a < i as int {
                                old_entries[a]
                            } else {
                                old_entries[a + 1]
                            });
                        }
                    }
                    assert forall|k: Seq<char>| #[trigger]
                        map_of_entries(old_entries).insert(key@, updated).dom().contains(
                            k,
                        ) implies map_of_entries(old_entries.remove(i as int)).insert(
                        key@,
                        updated,
                    ).dom().contains(k) by {
                        if k != key@ {
                            let a = choose|a: int|
                                0 <= a < old_entries.len() && old_entries[a].0@ == k;
                            assert(a != i as int);
                            if a < i as int {
                                assert(old_entries.remove(i as int)[a] == old_entries[a]);
                                assert(old_entries.remove(i as int)[a].0@ == k);
                            } else {
                                assert(old_entries.remove(i as int)[a - 1] == old_entries[a]);
                                assert(old_entries.remove(i as int)[a - 1].0@ == k);
                            }
                        }
                    }
                    assert(map_of_entries(old_entries.remove(i as int)).insert(key@, updated)
                        =~= map_of_entries(old_entries).insert(key@, updated));
                }
                self.entries.push((kept.0, updated));
            },
            None => {
                proof {
                    lemma_view_after_push(old_entries, (key, updated));
                }
                self.entries.push((key, updated));
            },
        }
        if count > self.config.max_requests {
            let gone = if now_ms >= rolled.window_start_ms {
                now_ms - rolled.window_start_ms
            } else {
                0
            };
            let retry_after_ms = self.config.window_ms - gone;
            Err((count, retry_after_ms))
        } else {
            Ok((self.config.max_requests - count, self.config.max_requests))
        }
    }

    /// Drops every counter whose window has already ended.
    pub fn cleanup(&mut self, now_ms: u64)
        requires
            old(self).wf(),
        ensures
            final(self).wf(),
            final(self).spec_config() == old(self).spec_config(),
            final(self).entries_view() == old(self).entries_view().restrict(
                Set::new(
                    |k: Seq<char>| old(self).entries_view().dom().contains(k) && elapsed(
                        now_ms,
                        old(self).entries_view()[k].window_start_ms,
                    ) < old(self).spec_config().window_ms,
                ),
            ),
    {
        let window_ms = self.config.window_ms;
        let ghost old_entries = self.entries@;
        let mut kept: Vec<(String, RateLimitEntry)> = Vec::new();
        let mut i: usize = 0;
        while i < self.entries.len()
            invariant
                i <= self.entries@.len(),
                self.entries@ == old_entries,
                entries_unique(old_entries),
                kept_matches(old_entries, kept@, i as int, now_ms, window_ms),
            decreases self.entries@.len() - i,
        {
            let ghost kept0 = kept@;
            let gone = if now_ms >= self.entries[i].1.window_start_ms {
                now_ms - self.entries[i].1.window_start_ms
            } else {
                0
            };
            if gone < window_ms {
                let keep = (self.entries[i].0.clone(), self.entries[i].1);
                proof {
                    assert(keep.0@ == old_entries[i as int].0@);
                    assert(keep.1 == old_entries[i as int].1);
                    assert(keep == old_entries[i as int]);
                    lemma_keep_step(old_entries, kept0, i as int, now_ms, window_ms);
                }
                kept.push(keep);
                proof {
                    assert(kept@ == kept0.push(old_entries[i as int]));
                }
            } else {
                proof {
                    assert(elapsed(now_ms, old_entries[i as int].1.window_start_ms) >= window_ms);
                    lemma_skip_step(old_entries, kept0, i as int, now_ms, window_ms);
                }
            }
            i = i + 1;
        }
        self.entries = kept;
        proof {
            lemma_cleanup_final(old_entries, self.entries@, now_ms, window_ms);
        }
    }

    /// The position of the key among the counters, if present.
    fn find(&self, key: &str) -> (r: Option<usize>)
        requires
            self.wf(),
        ensures
            match r {
                Some(i) => i < self.entries@.len() && self.entries@[i as int].0@ == key@
                    && self.entries_view().dom().contains(key@) && self.entries_view()[key@]
                    == self.entries@[i as int].1,
                None => !self.entries_view().dom().contains(key@),
            },
    {
        let mut i: usize = 0;
        while i < self.entries.len()
            invariant
                self.wf(),
                i <= self.entries@.len(),
                forall|j: int| 0 <= j < i ==> self.entries@[j].0@ != key@,
            decreases self.entries@.len() - i,
        {
            if str_eq(self.entries[i].0.as_str(), key) {
                proof {
                    lemma_assoc_view_correspondence(self.entries@);
                    assert(self.entries@[i as int].0@ == key@);
                }
                return Some(i);
            }
            i = i + 1;
        }
        proof {
            if self.entries_view().dom().contains(key@) {
                let w = choose|w: int| 0 <= w < self.entries@.len() && self.entries@[w].0@ == key@;
                assert(self.entries@[w].0@ == key@);
            }
        }
        None
    }
}

} // verus!
