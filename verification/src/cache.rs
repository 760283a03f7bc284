//! Content-addressed translation cache: entries keyed by the SHA-256
//! digest of the source text together with the model, bounded in age by
//! a thirty-day time-to-live and in size by a configured capacity, with
//! oldest-by-timestamp eviction. Hit and miss counters are kept as the
//! cache is consulted. Persistence of the entries is the surrounding
//! shell's concern; this type owns the rules.
use vstd::prelude::*;
use vstd::string::StringExecFns;
use crate::mask::{create_safe_preview, spec_mask_all, spec_preview_source};

verus! {

/// Most entries the cache holds by default.
pub const MAX_TRANSLATION_CACHE: usize = 100;

/// Age, in seconds, at which an entry no longer counts as live.
pub const CACHE_TTL_SECS: i64 = 30 * 24 * 60 * 60;

/// Names the lowercase hex digest that sha2's SHA-256 assigns to the
/// UTF-8 bytes of a text; it depends on the text alone.
pub uninterp spec fn sha256_hex(s: Seq<char>) -> Seq<char>;

/// A lowercase hexadecimal digit.
pub open spec fn spec_is_lower_hex(c: char) -> bool {
    ('0' <= c <= '9') || ('a' <= c <= 'f')
}

/// Relies on sha2::Sha256 through the Digest trait: the digest is a pure
/// function of the input bytes, a 32-byte value rendered as lowercase
/// hex, two digits per byte.
#[verifier::external_body]
fn hash_text(text: &str) -> (r: String)
    ensures
        r@ == sha256_hex(text@),
        r@.len() == 64,
        forall|i: int| 0 <= i < 64 ==> spec_is_lower_hex(#[trigger] r@[i]),
{
    format!("{:x}", <sha2::Sha256 as sha2::Digest>::digest(text.as_bytes()))
}

/// One cached translation.
#[derive(Debug)]
pub struct CachedTranslation {
    /// SHA-256 hex digest of the source text, the lookup key
    pub source_hash: String,
    /// Truncated, masked preview of the source, for diagnostics only
    pub source_preview: String,
    /// The translated text
    pub translated_text: String,
    /// Model that produced the translation, the second half of the key
    pub model: String,
    /// Unix timestamp of the store or the latest refresh, in seconds
    pub timestamp: i64,
}

/// Counters describing the cache's use.
#[derive(Debug, Clone)]
pub struct CacheStats {
    /// Entries currently held
    pub entry_count: usize,
    /// Lookups served from the cache
    pub hits: u64,
    /// Lookups that found nothing live
    pub misses: u64,
}

impl Default for CacheStats {
    /// All counters at zero.
    fn default() -> (r: CacheStats)
        ensures
            r.entry_count == 0,
            r.hits == 0,
            r.misses == 0,
    {
        CacheStats { entry_count: 0, hits: 0, misses: 0 }
    }
}

/// The mathematical image of one entry.
pub struct CacheEntryModel {
    pub hash: Seq<char>,
    pub preview: Seq<char>,
    pub text: Seq<char>,
    pub model: Seq<char>,
    pub timestamp: int,
}

/// The image of an entry as the contracts speak of it.
pub open spec fn abs_entry(e: CachedTranslation) -> CacheEntryModel {
    CacheEntryModel {
        hash: e.source_hash@,
        preview: e.source_preview@,
        text: e.translated_text@,
        model: e.model@,
        timestamp: e.timestamp as int,
    }
}

/// The image of a whole entry vector.
pub open spec fn abs_seq(s: Seq<CachedTranslation>) -> Seq<CacheEntryModel> {
    s.map_values(|e: CachedTranslation| abs_entry(e))
}

/// Whether an entry carries the given key.
pub open spec fn spec_key_matches(e: CacheEntryModel, h: Seq<char>, m: Seq<char>) -> bool {
    e.hash == h && e.model == m
}

/// Whether an entry is still live at `now`.
pub open spec fn spec_fresh(e: CacheEntryModel, now: int) -> bool {
    now - e.timestamp < CACHE_TTL_SECS
}

/// At most one entry per `(hash, model)` key.
pub open spec fn spec_unique_keys(s: Seq<CacheEntryModel>) -> bool {
    forall|i: int, j: int|
        0 <= i < j < s.len() ==> !spec_key_matches(#[trigger] s[i], (#[trigger] s[j]).hash, s[j].model)
}

/// Every timestamp fits the persisted signed-64-bit second count.
pub open spec fn spec_ts_ok(s: Seq<CacheEntryModel>) -> bool {
    forall|i: int| 0 <= i < s.len() ==> 0 <= (#[trigger] s[i]).timestamp <= i64::MAX
}

/// The first live entry with the given key, scanning in storage order.
pub open spec fn spec_find_live(
    s: Seq<CacheEntryModel>,
    h: Seq<char>,
    m: Seq<char>,
    now: int,
) -> Option<CacheEntryModel>
    decreases s.len(),
{
    if s.len() == 0 {
        None
    } else if spec_key_matches(s[0], h, m) && spec_fresh(s[0], now) {
        Some(s[0])
    } else {
        spec_find_live(s.drop_first(), h, m, now)
    }
}

/// If position `i` holds the first live key match, the scan returns it.
pub proof fn lemma_find_live_at(
    s: Seq<CacheEntryModel>,
    h: Seq<char>,
    m: Seq<char>,
    now: int,
    i: int,
)
    requires
        0 <= i < s.len(),
        spec_key_matches(s[i], h, m),
        spec_fresh(s[i], now),
        forall|k: int|
            0 <= k < i ==> !(spec_key_matches(#[trigger] s[k], h, m) && spec_fresh(s[k], now)),
    ensures
        spec_find_live(s, h, m, now) == Some(s[i]),
    decreases i,
{
    if i > 0 {
        lemma_find_live_at(s.drop_first(), h, m, now, i - 1);
    }
}

/// If no position holds a live key match, the scan returns nothing.
pub proof fn lemma_find_live_none(s: Seq<CacheEntryModel>, h: Seq<char>, m: Seq<char>, now: int)
    requires
        forall|k: int|
            0 <= k < s.len() ==> !(spec_key_matches(#[trigger] s[k], h, m) && spec_fresh(
                s[k],
                now,
            )),
    ensures
        spec_find_live(s, h, m, now) is None,
    decreases s.len(),
{
    if s.len() > 0 {
        lemma_find_live_none(s.drop_first(), h, m, now);
    }
}

/// A found entry carries the key and is live: the scan never hands out
/// a stale or foreign entry.
pub proof fn lemma_find_live_sound(s: Seq<CacheEntryModel>, h: Seq<char>, m: Seq<char>, now: int)
    ensures
        spec_find_live(s, h, m, now) matches Some(e) ==> spec_key_matches(e, h, m) && spec_fresh(
            e,
            now,
        ),
    decreases s.len(),
{
    if s.len() > 0 {
        lemma_find_live_sound(s.drop_first(), h, m, now);
    }
}

/// A counter's next value: one more, held at the numeric ceiling.
pub open spec fn spec_inc_sat(x: u64) -> u64 {
    if x == u64::MAX {
        x
    } else {
        (x + 1) as u64
    }
}

/// The cache store. The well-formedness `wf` ties the fields together;
/// every operation requires and preserves it.
pub struct CacheStore {
    /// The entries, in storage order
    pub entries: Vec<CachedTranslation>,
    /// The use counters; `entry_count` always mirrors `entries`
    pub stats: CacheStats,
    /// Whether the cache takes part at all
    pub enabled: bool,
    /// Most entries kept after a store
    pub capacity: usize,
}

impl CacheStore {
    /// The image of the held entries.
    pub open spec fn model(&self) -> Seq<CacheEntryModel> {
        abs_seq(self.entries@)
    }

    /// Key uniqueness, timestamp sanity, an honest entry count, and a
    /// usable capacity.
    pub open spec fn wf(&self) -> bool {
        &&& spec_unique_keys(self.model())
        &&& spec_ts_ok(self.model())
        &&& self.stats.entry_count == self.entries@.len()
        &&& self.capacity >= 1
    }

    /// An empty store.
    pub fn new(enabled: bool, capacity: usize) -> (r: CacheStore)
        requires
            capacity >= 1,
        ensures
            r.wf(),
            r.model() == Seq::<CacheEntryModel>::empty(),
            r.stats.hits == 0 && r.stats.misses == 0 && r.stats.entry_count == 0,
            r.enabled == enabled,
            r.capacity == capacity,
    {
        let r = CacheStore {
            entries: Vec::new(),
            stats: CacheStats::default(),
            enabled,
            capacity,
        };
        proof {
            assert(r.model() =~= Seq::<CacheEntryModel>::empty());
        }
        r
    }

    /// An empty store with the default capacity.
    pub fn with_default_capacity(enabled: bool) -> (r: CacheStore)
        ensures
            r.wf(),
            r.model() == Seq::<CacheEntryModel>::empty(),
            r.stats.hits == 0 && r.stats.misses == 0 && r.stats.entry_count == 0,
            r.enabled == enabled,
            r.capacity == MAX_TRANSLATION_CACHE,
    {
        CacheStore::new(enabled, MAX_TRANSLATION_CACHE)
    }

    /// The use counters.
    pub fn get_cache_stats(&self) -> (r: CacheStats)
        ensures
            r.entry_count == self.stats.entry_count,
            r.hits == self.stats.hits,
            r.misses == self.stats.misses,
    {
        CacheStats {
            entry_count: self.stats.entry_count,
            hits: self.stats.hits,
            misses: self.stats.misses,
        }
    }

    /// Looks up the translation cached for `(text, model)`. A disabled
    /// cache answers `None` before any counter moves. Otherwise the
    /// first live entry whose key is the digest of `text` and the model
    /// answers the lookup, and exactly one of the hit or miss counters
    /// steps, whichever applies.
    pub fn lookup(&mut self, text: &str, model: &str, now: i64) -> (r: Option<String>)
        requires
            old(self).wf(),
            0 <= now,
        ensures
            final(self).wf(),
            final(self).entries@ == old(self).entries@,
            final(self).enabled == old(self).enabled,
            final(self).capacity == old(self).capacity,
            final(self).stats.entry_count == old(self).stats.entry_count,
            !old(self).enabled ==> r is None && final(self).stats == old(self).stats,
            old(self).enabled ==> ({
                let found = spec_find_live(old(self).model(), sha256_hex(text@), model@, now as int);
                match found {
                    Some(e) => {
                        &&& r matches Some(t) && t@ == e.text
                        &&& final(self).stats.hits == spec_inc_sat(old(self).stats.hits)
                        &&& final(self).stats.misses == old(self).stats.misses
                    },
                    None => {
                        &&& r is None
                        &&& final(self).stats.misses == spec_inc_sat(old(self).stats.misses)
                        &&& final(self).stats.hits == old(self).stats.hits
                    },
                }
            }),
    {
        if !self.enabled {
            return None;
        }
        let h = hash_text(text);
        let model_s = String::from_str(model);
        let n = self.entries.len();
        let mut i: usize = 0;
        let mut result: Option<String> = None;
        while i < n && result.is_none()
            invariant
                0 <= now,
                i <= n,
                n == self.entries@.len(),
                spec_ts_ok(self.model()),
                h@ == sha256_hex(text@),
                model_s@ == model@,
                match result {
                    Some(t) => spec_find_live(self.model(), sha256_hex(text@), model@, now as int)
                        matches Some(e) && t@ == e.text,
                    None => forall|k: int|
                        0 <= k < i ==> !(spec_key_matches(
                            #[trigger] self.model()[k],
                            sha256_hex(text@),
                            model@,
                        ) && spec_fresh(self.model()[k], now as int)),
                },
            decreases n - i,
        {
            let key_match = self.entries[i].source_hash == h && self.entries[i].model == model_s;
            if key_match {
                proof {
                    assert(self.model()[i as int].timestamp == self.entries@[i as int].timestamp);
                }
                if now - self.entries[i].timestamp < CACHE_TTL_SECS {
                    result = Some(String::from_str(self.entries[i].translated_text.as_str()));
                    proof {
                        lemma_find_live_at(
                            self.model(),
                            sha256_hex(text@),
                            model@,
                            now as int,
                            i as int,
                        );
                    }
                }
            }
            i = i + 1;
        }
        proof {
            if result is None {
                lemma_find_live_none(self.model(), sha256_hex(text@), model@, now as int);
            }
        }
        if result.is_some() {
            if self.stats.hits < u64::MAX {
                self.stats.hits = self.stats.hits + 1;
            }
        } else {
            if self.stats.misses < u64::MAX {
                self.stats.misses = self.stats.misses + 1;
            }
        }
        result
    }

    /// Rebuilds a store from persisted state, validating it: a usable
    /// capacity, no negative timestamp, and at most one entry per
    /// `(hash, model)` key. The entry count is recomputed; the hit and
    /// miss counters are taken as persisted.
    pub fn try_from_parts(
        entries: Vec<CachedTranslation>,
        hits: u64,
        misses: u64,
        enabled: bool,
        capacity: usize,
    ) -> (r: Option<CacheStore>)
        ensures
            r matches Some(c) ==> ({
                &&& c.wf()
                &&& c.entries@ == entries@
                &&& c.stats.hits == hits && c.stats.misses == misses
                &&& c.stats.entry_count == entries@.len()
                &&& c.enabled == enabled
                &&& c.capacity == capacity
            }),
            r is None ==> capacity == 0 || !spec_unique_keys(abs_seq(entries@)) || !spec_ts_ok(
                abs_seq(entries@),
            ),
    {
        if capacity == 0 {
            return None;
        }
        let ghost m = abs_seq(entries@);
        let n = entries.len();
        let mut i: usize = 0;
        while i < n
            invariant
                i <= n,
                n == entries@.len(),
                m == abs_seq(entries@),
                forall|k: int| 0 <= k < i ==> 0 <= (#[trigger] m[k]).timestamp <= i64::MAX,
                forall|a: int, b: int|
                    0 <= a < i && a < b < n ==> !spec_key_matches(
                        #[trigger] m[a],
                        (#[trigger] m[b]).hash,
                        m[b].model,
                    ),
            decreases n - i,
        {
            if entries[i].timestamp < 0 {
                proof {
                    assert(m[i as int].timestamp < 0);
                }
                return None;
            }
            let mut j: usize = i + 1;
            while j < n
                invariant
                    i < j <= n,
                    n == entries@.len(),
                    m == abs_seq(entries@),
                    forall|b: int|
                        i < b < j ==> !spec_key_matches(m[i as int], (#[trigger] m[b]).hash, m[b].model),
                decreases n - j,
            {
                if entries[i].source_hash == entries[j].source_hash && entries[i].model
                    == entries[j].model {
                    proof {
                        assert(spec_key_matches(m[i as int], m[j as int].hash, m[j as int].model));
                    }
                    return None;
                }
                j = j + 1;
            }
            i = i + 1;
        }
        let r = CacheStore {
            stats: CacheStats { entry_count: n, hits, misses },
            entries,
            enabled,
            capacity,
        };
        Some(r)
    }

    /// Empties the cache and resets the counters.
    pub fn clear(&mut self)
        ensures
            final(self).wf() == (final(self).capacity >= 1),
            final(self).model() == Seq::<CacheEntryModel>::empty(),
            final(self).stats.entry_count == 0,
            final(self).stats.hits == 0,
            final(self).stats.misses == 0,
            final(self).enabled == old(self).enabled,
            final(self).capacity == old(self).capacity,
    {
        self.entries.clear();
        self.stats = CacheStats::default();
        proof {
            assert(self.model() =~= Seq::<CacheEntryModel>::empty());
        }
    }
}

/// The entries still live at `now`, in order.
pub open spec fn spec_purge(s: Seq<CacheEntryModel>, now: int) -> Seq<CacheEntryModel>
    decreases s.len(),
{
    if s.len() == 0 {
        Seq::empty()
    } else if spec_fresh(s[0], now) {
        seq![s[0]] + spec_purge(s.drop_first(), now)
    } else {
        spec_purge(s.drop_first(), now)
    }
}

/// Index of the entry with the given key, or a negative value if none
/// holds it.
pub open spec fn spec_key_idx(s: Seq<CacheEntryModel>, h: Seq<char>, m: Seq<char>) -> int
    decreases s.len(),
{
    if s.len() == 0 {
        -1
    } else if spec_key_matches(s[0], h, m) {
        0
    } else {
        let r = spec_key_idx(s.drop_first(), h, m);
        if r < 0 {
            -1
        } else {
            r + 1
        }
    }
}

/// An entry refreshed in place: new text, new timestamp, same key and
/// preview.
pub open spec fn spec_refreshed(e: CacheEntryModel, text: Seq<char>, now: int) -> CacheEntryModel {
    CacheEntryModel { text, timestamp: now, ..e }
}

/// The entry a first-time store appends.
pub open spec fn spec_new_entry(
    h: Seq<char>,
    preview: Seq<char>,
    text: Seq<char>,
    m: Seq<char>,
    now: int,
) -> CacheEntryModel {
    CacheEntryModel { hash: h, preview, text, model: m, timestamp: now }
}

/// Store's middle step: refresh the entry holding the key, or append a
/// new one.
pub open spec fn spec_upsert(
    s: Seq<CacheEntryModel>,
    h: Seq<char>,
    preview: Seq<char>,
    text: Seq<char>,
    m: Seq<char>,
    now: int,
) -> Seq<CacheEntryModel> {
    let i = spec_key_idx(s, h, m);
    if i >= 0 {
        s.update(i, spec_refreshed(s[i], text, now))
    } else {
        s.push(spec_new_entry(h, preview, text, m, now))
    }
}

/// The position evicted first: the last entry carrying the smallest
/// timestamp.
pub open spec fn spec_last_min_idx(s: Seq<CacheEntryModel>) -> int
    decreases s.len(),
{
    if s.len() <= 1 {
        0
    } else {
        let r = spec_last_min_idx(s.drop_last());
        if s.last().timestamp <= s[r].timestamp {
            s.len() - 1
        } else {
            r
        }
    }
}

/// Evicts oldest-by-timestamp entries until at most `cap` remain.
pub open spec fn spec_evict(s: Seq<CacheEntryModel>, cap: int) -> Seq<CacheEntryModel>
    decreases s.len(),
{
    if s.len() == 0 || s.len() <= cap {
        s
    } else {
        let i0 = spec_last_min_idx(s);
        let i = if 0 <= i0 < s.len() {
            i0
        } else {
            0
        };
        spec_evict(s.remove(i), cap)
    }
}

/// Everything a store does to the entries: purge the stale, refresh or
/// append, then evict down to capacity.
pub open spec fn spec_store_entries(
    s: Seq<CacheEntryModel>,
    h: Seq<char>,
    preview: Seq<char>,
    text: Seq<char>,
    m: Seq<char>,
    now: int,
    cap: int,
) -> Seq<CacheEntryModel> {
    spec_evict(spec_upsert(spec_purge(s, now), h, preview, text, m, now), cap)
}

/// What the purge keeps: exactly the live entries, each drawn from the
/// input, no longer than it, keys still unique.
pub proof fn lemma_purge_props(s: Seq<CacheEntryModel>, now: int)
    ensures
        spec_purge(s, now).len() <= s.len(),
        forall|e: CacheEntryModel|
            #[trigger] spec_purge(s, now).contains(e) ==> s.contains(e) && spec_fresh(e, now),
        spec_unique_keys(s) ==> spec_unique_keys(spec_purge(s, now)),
        spec_ts_ok(s) ==> spec_ts_ok(spec_purge(s, now)),
    decreases s.len(),
{
    if s.len() == 0 {
    } else {
        let rest = s.drop_first();
        lemma_purge_props(rest, now);
        assert(forall|k: int| 0 <= k < rest.len() ==> rest[k] == s[k + 1]);
        assert(forall|e: CacheEntryModel| rest.contains(e) ==> s.contains(e));
        if spec_unique_keys(s) {
            assert(spec_unique_keys(rest));
        }
        if spec_ts_ok(s) {
            assert(spec_ts_ok(rest));
        }
        let p = spec_purge(s, now);
        let pr = spec_purge(rest, now);
        if spec_fresh(s[0], now) {
            assert(p == seq![s[0]] + pr);
            assert(forall|e: CacheEntryModel| p.contains(e) ==> e == p[0] || pr.contains(e)) by {
                assert(forall|k: int|
                    0 < k < p.len() ==> p[k] == pr[k - 1] && pr.contains(#[trigger] p[k]));
            }
            assert(s.contains(s[0]));
            if spec_unique_keys(s) {
                assert forall|i: int, j: int| 0 <= i < j < p.len() implies !spec_key_matches(
                    p[i],
                    p[j].hash,
                    p[j].model,
                ) by {
                    if i == 0 {
                        assert(pr.contains(p[j]));
                        let w = choose|w: int| 0 <= w < pr.len() && pr[w] == p[j];
                        let w2 = choose|w2: int| 0 <= w2 < rest.len() && rest[w2] == pr[w];
                        assert(s[w2 + 1] == p[j]);
                        assert(!spec_key_matches(s[0], s[w2 + 1].hash, s[w2 + 1].model));
                    } else {
                        assert(p[i] == pr[i - 1] && p[j] == pr[j - 1]);
                    }
                }
            }
            if spec_ts_ok(s) {
                assert forall|i: int| 0 <= i < p.len() implies 0 <= (#[trigger] p[i]).timestamp
                    <= i64::MAX by {
                    if i > 0 {
                        assert(p[i] == pr[i - 1]);
                        assert(pr.contains(pr[i - 1]));
                        let w = choose|w: int| 0 <= w < rest.len() && rest[w] == pr[i - 1];
                        assert(s.contains(rest[w]));
                    }
                }
            }
        } else {
            assert(p == pr);
            if spec_unique_keys(s) {
                assert forall|i: int, j: int| 0 <= i < j < p.len() implies !spec_key_matches(
                    p[i],
                    p[j].hash,
                    p[j].model,
                ) by {
                }
            }
            if spec_ts_ok(s) {
                assert forall|i: int| 0 <= i < p.len() implies 0 <= (#[trigger] p[i]).timestamp
                    <= i64::MAX by {
                    assert(pr.contains(pr[i]));
                    let w = choose|w: int| 0 <= w < rest.len() && rest[w] == pr[i];
                    assert(s.contains(rest[w]));
                }
            }
        }
    }
}

/// Where the key sits, if anywhere: the reported index holds the key,
/// nothing before it does, and a negative answer means nothing does.
pub proof fn lemma_key_idx_props(s: Seq<CacheEntryModel>, h: Seq<char>, m: Seq<char>)
    ensures
        spec_key_idx(s, h, m) >= 0 ==> 0 <= spec_key_idx(s, h, m) < s.len() && spec_key_matches(
            s[spec_key_idx(s, h, m)],
            h,
            m,
        ) && forall|k: int| 0 <= k < spec_key_idx(s, h, m) ==> !spec_key_matches(#[trigger] s[k], h, m),
        spec_key_idx(s, h, m) < 0 ==> forall|k: int|
            0 <= k < s.len() ==> !spec_key_matches(#[trigger] s[k], h, m),
    decreases s.len(),
{
    if s.len() == 0 {
    } else if spec_key_matches(s[0], h, m) {
    } else {
        let rest = s.drop_first();
        lemma_key_idx_props(rest, h, m);
        assert(forall|k: int| 0 <= k < rest.len() ==> rest[k] == s[k + 1]);
        let r = spec_key_idx(rest, h, m);
        if r >= 0 {
            assert(spec_key_idx(s, h, m) == r + 1);
            assert(s[r + 1] == rest[r]);
            assert forall|k: int| 0 <= k < r + 1 implies !spec_key_matches(
                #[trigger] s[k],
                h,
                m,
            ) by {
                if k > 0 {
                    assert(rest[k - 1] == s[k]);
                }
            }
        } else {
            assert forall|k: int| 0 <= k < s.len() implies !spec_key_matches(
                #[trigger] s[k],
                h,
                m,
            ) by {
                if k > 0 {
                    assert(rest[k - 1] == s[k]);
                }
            }
        }
    }
}

/// The upsert keeps keys unique and timestamps sane, grows the entries
/// by at most one, and leaves an entry holding the key with the new
/// text and timestamp.
pub proof fn lemma_upsert_props(
    s: Seq<CacheEntryModel>,
    h: Seq<char>,
    preview: Seq<char>,
    text: Seq<char>,
    m: Seq<char>,
    now: int,
)
    requires
        spec_unique_keys(s),
        spec_ts_ok(s),
        0 <= now <= i64::MAX,
    ensures
        spec_unique_keys(spec_upsert(s, h, preview, text, m, now)),
        spec_ts_ok(spec_upsert(s, h, preview, text, m, now)),
        s.len() <= spec_upsert(s, h, preview, text, m, now).len() <= s.len() + 1,
        exists|i: int|
            #![trigger spec_upsert(s, h, preview, text, m, now)[i]]
            {
                &&& 0 <= i < spec_upsert(s, h, preview, text, m, now).len()
                &&& spec_key_matches(spec_upsert(s, h, preview, text, m, now)[i], h, m)
                &&& spec_upsert(s, h, preview, text, m, now)[i].text == text
                &&& spec_upsert(s, h, preview, text, m, now)[i].timestamp == now
            },
{
    lemma_key_idx_props(s, h, m);
    let u = spec_upsert(s, h, preview, text, m, now);
    let ki = spec_key_idx(s, h, m);
    if ki >= 0 {
        assert(u[ki].text == text && u[ki].timestamp == now && spec_key_matches(u[ki], h, m));
    } else {
        assert(u[s.len() as int] == spec_new_entry(h, preview, text, m, now));
    }
}

/// The eviction point is a real position, carries the smallest
/// timestamp, and is the last position carrying it.
pub proof fn lemma_last_min_props(s: Seq<CacheEntryModel>)
    requires
        s.len() >= 1,
    ensures
        0 <= spec_last_min_idx(s) < s.len(),
        forall|j: int|
            0 <= j < s.len() ==> s[spec_last_min_idx(s)].timestamp <= (#[trigger] s[j]).timestamp,
        forall|j: int|
            spec_last_min_idx(s) < j < s.len() ==> s[spec_last_min_idx(s)].timestamp < (
            #[trigger] s[j]).timestamp,
    decreases s.len(),
{
    if s.len() > 1 {
        lemma_last_min_props(s.drop_last());
        assert(forall|k: int| 0 <= k < s.len() - 1 ==> s.drop_last()[k] == s[k]);
    }
}

/// Removing one position keeps keys unique, timestamps sane, and every
/// remaining element an element of the original.
pub proof fn lemma_remove_props(s: Seq<CacheEntryModel>, i: int)
    requires
        0 <= i < s.len(),
    ensures
        spec_unique_keys(s) ==> spec_unique_keys(s.remove(i)),
        spec_ts_ok(s) ==> spec_ts_ok(s.remove(i)),
        forall|e: CacheEntryModel| #[trigger] s.remove(i).contains(e) ==> s.contains(e),
{
    let r = s.remove(i);
    assert(forall|k: int| 0 <= k < i ==> r[k] == s[k]);
    assert(forall|k: int| i <= k < r.len() ==> r[k] == s[k + 1]);
    assert forall|e: CacheEntryModel| #[trigger] r.contains(e) implies s.contains(e) by {
        let w = choose|w: int| 0 <= w < r.len() && r[w] == e;
        if w < i {
            assert(s[w] == e);
        } else {
            assert(s[w + 1] == e);
        }
    }
    if spec_unique_keys(s) {
        assert forall|a: int, b: int| 0 <= a < b < r.len() implies !spec_key_matches(
            r[a],
            r[b].hash,
            r[b].model,
        ) by {
            let sa = if a < i {
                a
            } else {
                a + 1
            };
            let sb = if b < i {
                b
            } else {
                b + 1
            };
            assert(r[a] == s[sa] && r[b] == s[sb]);
            assert(!spec_key_matches(s[sa], s[sb].hash, s[sb].model));
        }
    }
}

/// The eviction result: never longer than the cap, drawn from the
/// input, keys unique and timestamps sane, and every entry it dropped
/// is at least as old as every entry it kept.
pub proof fn lemma_evict_props(s: Seq<CacheEntryModel>, cap: int)
    requires
        cap >= 1,
    ensures
        spec_evict(s, cap).len() == if s.len() <= cap {
            s.len() as int
        } else {
            cap
        },
        forall|e: CacheEntryModel| #[trigger] spec_evict(s, cap).contains(e) ==> s.contains(e),
        spec_unique_keys(s) ==> spec_unique_keys(spec_evict(s, cap)),
        spec_ts_ok(s) ==> spec_ts_ok(spec_evict(s, cap)),
    decreases s.len(),
{
    if s.len() == 0 || s.len() <= cap {
    } else {
        lemma_last_min_props(s);
        let i = spec_last_min_idx(s);
        lemma_remove_props(s, i);
        lemma_evict_props(s.remove(i), cap);
    }
}

/// The entries an eviction drops, in the order it drops them.
pub open spec fn spec_evict_removed(s: Seq<CacheEntryModel>, cap: int) -> Seq<CacheEntryModel>
    decreases s.len(),
{
    if s.len() == 0 || s.len() <= cap {
        Seq::empty()
    } else {
        let i0 = spec_last_min_idx(s);
        let i = if 0 <= i0 < s.len() {
            i0
        } else {
            0
        };
        seq![s[i]] + spec_evict_removed(s.remove(i), cap)
    }
}

/// Eviction drops oldest first: every entry it drops is at least as old
/// as every entry it keeps, and what remains is exactly the capacity of
/// newest entries (or everything, when the cap was not exceeded).
pub proof fn lemma_evict_keeps_newest(s: Seq<CacheEntryModel>, cap: int)
    requires
        cap >= 1,
    ensures
        spec_evict(s, cap).len() == if s.len() <= cap {
            s.len() as int
        } else {
            cap
        },
        forall|a: int, b: int|
            0 <= a < spec_evict_removed(s, cap).len() && 0 <= b < spec_evict(s, cap).len()
                ==> (#[trigger] spec_evict_removed(s, cap)[a]).timestamp <= (#[trigger] spec_evict(
                s,
                cap,
            )[b]).timestamp,
    decreases s.len(),
{
    lemma_evict_props(s, cap);
    if s.len() == 0 || s.len() <= cap {
    } else {
        lemma_last_min_props(s);
        let i = spec_last_min_idx(s);
        let rest = s.remove(i);
        lemma_remove_props(s, i);
        lemma_evict_props(rest, cap);
        lemma_evict_keeps_newest(rest, cap);
        let kept = spec_evict(s, cap);
        let removed = spec_evict_removed(s, cap);
        assert(kept == spec_evict(rest, cap));
        assert(removed == seq![s[i]] + spec_evict_removed(rest, cap));
        assert forall|a: int, b: int|
            0 <= a < removed.len() && 0 <= b < kept.len() implies (
        #[trigger] removed[a]).timestamp <= (#[trigger] kept[b]).timestamp by {
            assert(kept.contains(kept[b]));
            let w = choose|w: int| 0 <= w < rest.len() && rest[w] == kept[b];
            let w2 = choose|w2: int| 0 <= w2 < s.len() && s[w2] == rest[w];
            if a == 0 {
                assert(removed[0] == s[i]);
                assert(s[i].timestamp <= s[w2].timestamp);
            } else {
                assert(removed[a] == spec_evict_removed(rest, cap)[a - 1]);
            }
        }
    }
}

/// A purge that kept everything changed nothing.
pub proof fn lemma_purge_full(s: Seq<CacheEntryModel>, now: int)
    requires
        spec_purge(s, now).len() == s.len(),
    ensures
        spec_purge(s, now) == s,
    decreases s.len(),
{
    if s.len() > 0 {
        let rest = s.drop_first();
        lemma_purge_props(rest, now);
        if spec_fresh(s[0], now) {
            lemma_purge_full(rest, now);
            assert(seq![s[0]] + rest =~= s);
        }
    }
}

/// Storing a translation and then looking the same `(text, model)` key
/// up at the same moment finds exactly the text just stored — as long
/// as the store did not have to evict it again: the cache had room, or
/// stood at capacity with at least one strictly older entry to evict
/// instead. (A full cache whose every entry carries the store's own
/// timestamp evicts the newcomer itself, oldest-last-in first.)
pub proof fn lemma_store_then_lookup(
    s: Seq<CacheEntryModel>,
    h: Seq<char>,
    preview: Seq<char>,
    text: Seq<char>,
    m: Seq<char>,
    now: int,
    cap: int,
)
    requires
        spec_unique_keys(s),
        spec_ts_ok(s),
        0 <= now <= i64::MAX,
        cap >= 1,
        s.len() <= cap,
        s.len() < cap || (exists|j: int| 0 <= j < s.len() && (#[trigger] s[j]).timestamp < now),
    ensures
        spec_find_live(spec_store_entries(s, h, preview, text, m, now, cap), h, m, now) matches Some(
            e,
        ) && e.text == text && e.timestamp == now,
{
    let purged = spec_purge(s, now);
    lemma_purge_props(s, now);
    let u = spec_upsert(purged, h, preview, text, m, now);
    lemma_upsert_props(purged, h, preview, text, m, now);
    lemma_key_idx_props(purged, h, m);
    if u.len() <= cap {
        assert(spec_evict(u, cap) == u);
        let i = choose|i: int|
            #![trigger u[i]]
            {
                &&& 0 <= i < u.len()
                &&& spec_key_matches(u[i], h, m)
                &&& u[i].text == text
                &&& u[i].timestamp == now
            };
        assert forall|k: int|
            0 <= k < i implies !(spec_key_matches(#[trigger] u[k], h, m) && spec_fresh(
            u[k],
            now,
        )) by {
            if spec_key_matches(u[k], h, m) {
                assert(!spec_key_matches(u[k], u[i].hash, u[i].model));
            }
        }
        assert(spec_fresh(u[i], now));
        lemma_find_live_at(u, h, m, now, i);
    } else {
        // The cache stood full of live entries and the key was new: the
        // push overflowed by one, and the one eviction removes a
        // strictly older entry, never the newcomer.
        let ki = spec_key_idx(purged, h, m);
        assert(ki < 0);
        assert(purged.len() == s.len());
        lemma_purge_full(s, now);
        assert(purged == s);
        let newe = spec_new_entry(h, preview, text, m, now);
        assert(u == s.push(newe));
        let j = choose|j: int| 0 <= j < s.len() && (#[trigger] s[j]).timestamp < now;
        lemma_last_min_props(u);
        let lmi = spec_last_min_idx(u);
        assert(u[j] == s[j]);
        assert(u[lmi].timestamp <= u[j].timestamp);
        assert(u[u.len() - 1] == newe);
        assert(lmi < u.len() - 1);
        let r = u.remove(lmi);
        assert(spec_evict(u, cap) == spec_evict(r, cap));
        assert(r.len() == cap);
        assert(spec_evict(r, cap) == r);
        assert(r[r.len() - 1] == u[u.len() - 1]);
        assert forall|k: int|
            0 <= k < r.len() - 1 implies !(spec_key_matches(#[trigger] r[k], h, m) && spec_fresh(
            r[k],
            now,
        )) by {
            if k < lmi {
                assert(r[k] == u[k]);
                assert(u[k] == s[k]);
            } else {
                assert(r[k] == u[k + 1]);
                assert(u[k + 1] == s[k + 1]);
            }
        }
        assert(spec_fresh(newe, now));
        lemma_find_live_at(r, h, m, now, r.len() - 1);
    }
}

/// A store never plants a foreign key: if no entry carried `(h2, m2)`
/// before and the store's own key differs, none carries it after, so a
/// lookup under the other key still finds nothing.
pub proof fn lemma_store_other_key_misses(
    s: Seq<CacheEntryModel>,
    h: Seq<char>,
    preview: Seq<char>,
    text: Seq<char>,
    m: Seq<char>,
    now: int,
    cap: int,
    h2: Seq<char>,
    m2: Seq<char>,
    at: int,
)
    requires
        cap >= 1,
        !(h == h2 && m == m2),
        forall|k: int| 0 <= k < s.len() ==> !spec_key_matches(#[trigger] s[k], h2, m2),
    ensures
        forall|k: int|
            0 <= k < spec_store_entries(s, h, preview, text, m, now, cap).len()
                ==> !spec_key_matches(
                #[trigger] spec_store_entries(s, h, preview, text, m, now, cap)[k],
                h2,
                m2,
            ),
        spec_find_live(spec_store_entries(s, h, preview, text, m, now, cap), h2, m2, at) is None,
{
    let purged = spec_purge(s, now);
    lemma_purge_props(s, now);
    assert forall|k: int| 0 <= k < purged.len() implies !spec_key_matches(
        #[trigger] purged[k],
        h2,
        m2,
    ) by {
        assert(purged.contains(purged[k]));
        let w = choose|w: int| 0 <= w < s.len() && s[w] == purged[k];
    }
    let u = spec_upsert(purged, h, preview, text, m, now);
    lemma_key_idx_props(purged, h, m);
    assert forall|k: int| 0 <= k < u.len() implies !spec_key_matches(#[trigger] u[k], h2, m2) by {
        let ki = spec_key_idx(purged, h, m);
        if ki >= 0 {
            if k == ki {
                assert(u[k].hash == purged[ki].hash && u[k].model == purged[ki].model);
            } else {
                assert(u[k] == purged[k]);
            }
        } else {
            if k < purged.len() {
                assert(u[k] == purged[k]);
            } else {
                assert(u[k] == spec_new_entry(h, preview, text, m, now));
            }
        }
    }
    let r = spec_store_entries(s, h, preview, text, m, now, cap);
    lemma_evict_props(u, cap);
    assert forall|k: int| 0 <= k < r.len() implies !spec_key_matches(#[trigger] r[k], h2, m2) by {
        assert(r.contains(r[k]));
        let w = choose|w: int| 0 <= w < u.len() && u[w] == r[k];
    }
    lemma_find_live_none(r, h2, m2, at);
}

/// After a store, everything the cache holds is live at the moment of
/// the store: the write purged every expired entry.
pub proof fn lemma_store_purges_expired(
    s: Seq<CacheEntryModel>,
    h: Seq<char>,
    preview: Seq<char>,
    text: Seq<char>,
    m: Seq<char>,
    now: int,
    cap: int,
)
    requires
        cap >= 1,
    ensures
        forall|k: int|
            0 <= k < spec_store_entries(s, h, preview, text, m, now, cap).len() ==> spec_fresh(
                #[trigger] spec_store_entries(s, h, preview, text, m, now, cap)[k],
                now,
            ),
{
    let purged = spec_purge(s, now);
    lemma_purge_props(s, now);
    assert forall|k: int| 0 <= k < purged.len() implies spec_fresh(#[trigger] purged[k], now) by {
        assert(purged.contains(purged[k]));
    }
    let u = spec_upsert(purged, h, preview, text, m, now);
    lemma_key_idx_props(purged, h, m);
    assert forall|k: int| 0 <= k < u.len() implies spec_fresh(#[trigger] u[k], now) by {
        let ki = spec_key_idx(purged, h, m);
        if ki >= 0 {
            if k != ki {
                assert(u[k] == purged[k]);
            }
        } else {
            if k < purged.len() {
                assert(u[k] == purged[k]);
            }
        }
    }
    let r = spec_store_entries(s, h, preview, text, m, now, cap);
    lemma_evict_props(u, cap);
    assert forall|k: int| 0 <= k < r.len() implies spec_fresh(#[trigger] r[k], now) by {
        assert(r.contains(r[k]));
        let w = choose|w: int| 0 <= w < u.len() && u[w] == r[k];
    }
}

impl CacheStore {
    /// Writes the translation for `(text, model)` into the cache. A
    /// disabled cache is left untouched. Otherwise stale entries are
    /// purged; an entry already holding the key is refreshed in place,
    /// else a new entry is appended whose preview is the truncated,
    /// masked head of the source; and the oldest entries are evicted
    /// until the capacity holds. The hit and miss counters never move
    /// on a store.
    pub fn store(&mut self, text: &str, translated: &str, model: &str, now: i64)
        requires
            old(self).wf(),
            0 <= now,
        ensures
            final(self).wf(),
            final(self).enabled == old(self).enabled,
            final(self).capacity == old(self).capacity,
            final(self).stats.hits == old(self).stats.hits,
            final(self).stats.misses == old(self).stats.misses,
            !old(self).enabled ==> final(self).entries@ == old(self).entries@ && final(self).stats
                == old(self).stats,
            old(self).enabled ==> final(self).model() == spec_store_entries(
                old(self).model(),
                sha256_hex(text@),
                spec_mask_all(spec_preview_source(text@)),
                translated@,
                model@,
                now as int,
                old(self).capacity as int,
            ),
            old(self).enabled ==> final(self).stats.entry_count == final(self).entries@.len(),
    {
        if !self.enabled {
            return ;
        }
        let ghost m0 = self.model();
        let h = hash_text(text);
        let model_s = String::from_str(model);

        // Purge entries past their time to live.
        proof {
            assert(self.model().take(0) =~= Seq::<CacheEntryModel>::empty());
            assert(self.model().skip(0) =~= self.model());
            assert(Seq::<CacheEntryModel>::empty() + spec_purge(m0, now as int) =~= spec_purge(
                m0,
                now as int,
            ));
        }
        let mut i: usize = 0;
        while i < self.entries.len()
            invariant
                i <= self.entries@.len(),
                spec_ts_ok(self.model()),
                0 <= now,
                self.capacity == old(self).capacity,
                self.enabled == old(self).enabled,
                self.stats == old(self).stats,
                h@ == sha256_hex(text@),
                model_s@ == model@,
                spec_purge(m0, now as int) == self.model().take(i as int) + spec_purge(
                    self.model().skip(i as int),
                    now as int,
                ),
            decreases self.entries@.len() - i,
        {
            let ghost cur = self.model();
            proof {
                assert(cur.skip(i as int)[0] == cur[i as int]);
                assert(cur.skip(i as int).drop_first() =~= cur.skip(i + 1 as int));
                assert(cur[i as int].timestamp == self.entries@[i as int].timestamp);
            }
            if now - self.entries[i].timestamp < CACHE_TTL_SECS {
                proof {
                    assert(cur.take(i + 1 as int) =~= cur.take(i as int) + seq![cur[i as int]]);
                    assert(cur.take(i as int) + (seq![cur[i as int]] + spec_purge(
                        cur.skip(i + 1 as int),
                        now as int,
                    )) =~= cur.take(i + 1 as int) + spec_purge(cur.skip(i + 1 as int), now as int));
                }
                i = i + 1;
            } else {
                let _gone = self.entries.remove(i);
                proof {
                    assert(self.model() =~= cur.remove(i as int));
                    assert(self.model().take(i as int) =~= cur.take(i as int));
                    assert(self.model().skip(i as int) =~= cur.skip(i + 1 as int));
                    lemma_remove_props(cur, i as int);
                }
            }
        }
        proof {
            assert(self.model().skip(self.model().len() as int) =~= Seq::<CacheEntryModel>::empty());
            assert(self.model().take(self.model().len() as int) =~= self.model());
            assert(self.model() == spec_purge(m0, now as int));
        }
        let ghost purged = self.model();

        // Refresh in place, or append a new entry.
        let n = self.entries.len();
        let mut idx: usize = 0;
        let mut found = false;
        while idx < n && !found
            invariant
                idx <= n,
                n == self.entries@.len(),
                h@ == sha256_hex(text@),
                model_s@ == model@,
                !found ==> forall|k: int|
                    0 <= k < idx ==> !spec_key_matches(
                        #[trigger] self.model()[k],
                        sha256_hex(text@),
                        model@,
                    ),
                found ==> idx < n && spec_key_matches(
                    self.model()[idx as int],
                    sha256_hex(text@),
                    model@,
                ) && forall|k: int|
                    0 <= k < idx ==> !spec_key_matches(
                        #[trigger] self.model()[k],
                        sha256_hex(text@),
                        model@,
                    ),
            decreases n - idx + (if found {
                0int
            } else {
                1int
            }),
        {
            if self.entries[idx].source_hash == h && self.entries[idx].model == model_s {
                found = true;
            } else {
                idx = idx + 1;
            }
        }
        proof {
            lemma_key_idx_props(purged, sha256_hex(text@), model@);
            if found {
                assert(spec_key_idx(purged, sha256_hex(text@), model@) == idx as int);
            } else {
                assert(spec_key_idx(purged, sha256_hex(text@), model@) < 0);
            }
        }
        if found {
            let mut e = self.entries.remove(idx);
            e.timestamp = now;
            e.translated_text = String::from_str(translated);
            self.entries.insert(idx, e);
            proof {
                assert(self.model() =~= purged.update(
                    idx as int,
                    spec_refreshed(purged[idx as int], translated@, now as int),
                ));
            }
        } else {
            let entry = CachedTranslation {
                source_hash: h,
                source_preview: create_safe_preview(text),
                translated_text: String::from_str(translated),
                model: model_s,
                timestamp: now,
            };
            self.entries.push(entry);
            proof {
                assert(self.model() =~= purged.push(
                    spec_new_entry(
                        sha256_hex(text@),
                        spec_mask_all(spec_preview_source(text@)),
                        translated@,
                        model@,
                        now as int,
                    ),
                ));
            }
        }
        let ghost upserted = self.model();
        proof {
            assert(upserted == spec_upsert(
                purged,
                sha256_hex(text@),
                spec_mask_all(spec_preview_source(text@)),
                translated@,
                model@,
                now as int,
            ));
        }

        // Evict oldest entries while over capacity.
        while self.entries.len() > self.capacity
            invariant
                self.capacity >= 1,
                self.capacity == old(self).capacity,
                self.enabled == old(self).enabled,
                self.stats == old(self).stats,
                spec_evict(upserted, self.capacity as int) == spec_evict(
                    self.model(),
                    self.capacity as int,
                ),
            decreases self.entries@.len(),
        {
            let ghost cur = self.model();
            let len = self.entries.len();
            let mut best: usize = 0;
            let mut j: usize = 1;
            while j < len
                invariant
                    1 <= j <= len,
                    len == self.entries@.len(),
                    best < j,
                    self.model() == cur,
                    best as int == spec_last_min_idx(cur.take(j as int)),
                decreases len - j,
            {
                proof {
                    assert(cur.take(j + 1 as int).drop_last() =~= cur.take(j as int));
                    assert(cur.take(j + 1 as int).last() == cur[j as int]);
                    assert(cur[j as int].timestamp == self.entries@[j as int].timestamp);
                    assert(cur[best as int].timestamp == self.entries@[best as int].timestamp);
                    assert(cur.take(j as int)[best as int] == cur[best as int]);
                }
                if self.entries[j].timestamp <= self.entries[best].timestamp {
                    best = j;
                }
                j = j + 1;
            }
            proof {
                assert(cur.take(len as int) =~= cur);
                lemma_last_min_props(cur);
            }
            let _evicted = self.entries.remove(best);
            proof {
                assert(self.model() =~= cur.remove(best as int));
            }
        }
        proof {
            assert(spec_evict(self.model(), self.capacity as int) == self.model());
        }

        let count = self.entries.len();
        self.stats.entry_count = count;
        proof {
            lemma_purge_props(m0, now as int);
            lemma_upsert_props(
                purged,
                sha256_hex(text@),
                spec_mask_all(spec_preview_source(text@)),
                translated@,
                model@,
                now as int,
            );
            lemma_evict_props(upserted, self.capacity as int);
        }
    }
}

} // verus!
