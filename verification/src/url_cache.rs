//! URL caching with TTL for reliable quality switching
use vstd::prelude::*;
use std::time::{Duration, Instant};
use crate::text::{cat, cat3, owned, chars_of, string_of, has_sub_at, sub_at, str_eq, first_line, trim, first_line_chars};

verus! {

/// TTL for cached URLs - 4 hours (YouTube URLs expire around 6 hours)
pub const URL_TTL_SECS: u64 = 4 * 60 * 60;

#[verifier::external_type_specification]
#[verifier::external_body]
pub struct ExInstant(Instant);

/// `Instant::now`. Nothing is claimed of the instant it returns.
#[verifier::external_body]
fn instant_now() -> Instant {
    Instant::now()
}

/// `Instant::elapsed`. Nothing is claimed of the duration it returns.
#[verifier::external_body]
fn instant_elapsed(t: &Instant) -> Duration {
    t.elapsed()
}

/// `Duration::as_secs`. Nothing is claimed of the number it returns.
#[verifier::external_body]
fn duration_secs(d: &Duration) -> u64 {
    d.as_secs()
}

/// A cached streaming URL with timestamp
#[derive(Debug)]
pub struct CachedUrl {
    pub url: String,
    pub fetched_at: Instant,
}

impl Clone for CachedUrl {
    fn clone(&self) -> (r: Self)
        ensures
            r == *self,
    {
        CachedUrl { url: self.url.clone(), fetched_at: self.fetched_at }
    }
}

/// A URL fetched `elapsed_secs` seconds ago is still fresh.
pub fn url_is_fresh(elapsed_secs: u64) -> (r: bool)
    ensures
        r == (elapsed_secs < URL_TTL_SECS),
{
    elapsed_secs < URL_TTL_SECS
}

impl CachedUrl {
    /// The URL, stamped with the current time.
    pub fn new(url: String) -> (r: Self)
        ensures
            r.url@ == url@,
    {
        Self { url, fetched_at: instant_now() }
    }

    /// The URL was fetched less than `URL_TTL_SECS` seconds ago, as the clock
    /// reads now (see `url_is_fresh`).
    pub fn is_fresh(&self) -> bool {
        url_is_fresh(self.elapsed_secs())
    }

    /// Whole seconds since the URL was fetched, as the clock reads now.
    fn elapsed_secs(&self) -> u64 {
        let elapsed = instant_elapsed(&self.fetched_at);
        duration_secs(&elapsed)
    }

    /// What the cache answers for this entry `elapsed_secs` seconds after it
    /// was fetched: its URL while fresh, nothing once stale.
    pub fn fresh_answer(&self, elapsed_secs: u64) -> (r: Option<String>)
        ensures
            match r {
                Some(u) => answer_after(self.url@, elapsed_secs as int) == Some(u@),
                None => answer_after(self.url@, elapsed_secs as int) is None,
            },
    {
        if url_is_fresh(elapsed_secs) {
            Some(self.url.clone())
        } else {
            None
        }
    }
}

/// What the cache answers for a URL fetched `elapsed` seconds ago.
pub open spec fn answer_after(url: Seq<char>, elapsed: int) -> Option<Seq<char>> {
    if elapsed < URL_TTL_SECS {
        Some(url)
    } else {
        None
    }
}

/// Law: once a URL is stored for a video and quality, the cache holds that
/// URL for them, and for every reading of the clock less than
/// `URL_TTL_SECS` seconds after it was stored, the answer is that URL; from
/// then on there is none.
pub proof fn lemma_read_back_within_ttl(
    before: Map<(Seq<char>, Seq<char>), Seq<char>>,
    video: Seq<char>,
    quality: Seq<char>,
    url: Seq<char>,
    elapsed: int,
)
    requires
        0 <= elapsed,
    ensures
        before.insert((video, quality), url).contains_key((video, quality)),
        answer_after(before.insert((video, quality), url)[(video, quality)], elapsed) == (if elapsed
            < URL_TTL_SECS {
            Some(url)
        } else {
            None
        }),
{
}

/// Cache key format: "{video_url}:{quality}"
pub open spec fn cache_key_spec(video_url: Seq<char>, quality: Seq<char>) -> Seq<char> {
    video_url + seq![':'] + quality
}

/// A cache entry: the video, the quality, and the URL fetched for them.
pub type CacheEntry = (String, String, CachedUrl);

/// The video and quality an entry is for.
pub open spec fn entry_key(e: CacheEntry) -> (Seq<char>, Seq<char>) {
    (e.0@, e.1@)
}

/// The URLs of the entries, by video and quality.
pub open spec fn entries_map(s: Seq<CacheEntry>) -> Map<(Seq<char>, Seq<char>), Seq<char>>
    decreases s.len(),
{
    if s.len() == 0 {
        Map::empty()
    } else {
        entries_map(s.drop_last()).insert(entry_key(s.last()), s.last().2.url@)
    }
}

/// The times the entries were fetched, by video and quality.
pub open spec fn entries_stamps(s: Seq<CacheEntry>) -> Map<(Seq<char>, Seq<char>), Instant>
    decreases s.len(),
{
    if s.len() == 0 {
        Map::empty()
    } else {
        entries_stamps(s.drop_last()).insert(entry_key(s.last()), s.last().2.fetched_at)
    }
}

pub open spec fn keys_distinct(s: Seq<CacheEntry>) -> bool {
    forall|i: int, j: int| 0 <= i < j < s.len() ==> entry_key(#[trigger] s[i]) != entry_key(#[trigger] s[j])
}

proof fn lemma_entries_map(s: Seq<CacheEntry>)
    requires
        keys_distinct(s),
    ensures
        forall|k: (Seq<char>, Seq<char>)| #[trigger] entries_map(s).contains_key(k) <==> exists|i: int|
            0 <= i < s.len() && entry_key(s[i]) == k,
        forall|k: (Seq<char>, Seq<char>)| #[trigger] entries_stamps(s).contains_key(k) <==> exists|i: int|
            0 <= i < s.len() && entry_key(s[i]) == k,
        forall|i: int| 0 <= i < s.len() ==> entries_map(s)[#[trigger] entry_key(s[i])] == s[i].2.url@,
        forall|i: int| 0 <= i < s.len() ==> entries_stamps(s)[#[trigger] entry_key(s[i])] == s[i].2.fetched_at,
    decreases s.len(),
{
    if s.len() > 0 {
        let p = s.drop_last();
        assert(keys_distinct(p)) by {
            assert forall|i: int, j: int| 0 <= i < j < p.len() implies entry_key(#[trigger] p[i]) != entry_key(#[trigger] p[j]) by {
                assert(p[i] == s[i] && p[j] == s[j]);
            }
        }
        lemma_entries_map(p);
        let last = entry_key(s.last());
        assert(entries_map(s) == entries_map(p).insert(last, s.last().2.url@));
        assert(entries_stamps(s) == entries_stamps(p).insert(last, s.last().2.fetched_at));
        assert forall|k: (Seq<char>, Seq<char>)| #[trigger] entries_map(s).contains_key(k) <==> exists|i: int|
            0 <= i < s.len() && entry_key(s[i]) == k by {
            if entries_map(s).contains_key(k) && k != last {
                assert(entries_map(p).contains_key(k));
                let i = choose|i: int| 0 <= i < p.len() && entry_key(p[i]) == k;
                assert(s[i] == p[i]);
            }
            if exists|i: int| 0 <= i < s.len() && entry_key(s[i]) == k {
                let i = choose|i: int| 0 <= i < s.len() && entry_key(s[i]) == k;
                if i < s.len() - 1 {
                    assert(p[i] == s[i]);
                    assert(entries_map(p).contains_key(k));
                }
            }
        }
        assert forall|k: (Seq<char>, Seq<char>)| #[trigger] entries_stamps(s).contains_key(k) <==> exists|i: int|
            0 <= i < s.len() && entry_key(s[i]) == k by {
            if entries_stamps(s).contains_key(k) && k != last {
                assert(entries_stamps(p).contains_key(k));
                let i = choose|i: int| 0 <= i < p.len() && entry_key(p[i]) == k;
                assert(s[i] == p[i]);
            }
            if exists|i: int| 0 <= i < s.len() && entry_key(s[i]) == k {
                let i = choose|i: int| 0 <= i < s.len() && entry_key(s[i]) == k;
                if i < s.len() - 1 {
                    assert(p[i] == s[i]);
                    assert(entries_stamps(p).contains_key(k));
                }
            }
        }
        assert forall|i: int| 0 <= i < s.len() implies entries_map(s)[#[trigger] entry_key(s[i])] == s[i].2.url@ by {
            if i < s.len() - 1 {
                assert(p[i] == s[i]);
                assert(entry_key(s[i]) != last);
            }
        }
        assert forall|i: int| 0 <= i < s.len() implies entries_stamps(s)[#[trigger] entry_key(s[i])] == s[i].2.fetched_at by {
            if i < s.len() - 1 {
                assert(p[i] == s[i]);
                assert(entry_key(s[i]) != last);
            }
        }
    }
}

/// The URLs and the times of a list of entries are kept under the same keys.
proof fn lemma_same_keys(s: Seq<CacheEntry>)
    ensures
        entries_stamps(s).dom() == entries_map(s).dom(),
    decreases s.len(),
{
    if s.len() > 0 {
        lemma_same_keys(s.drop_last());
    }
    assert(entries_stamps(s).dom() =~= entries_map(s).dom());
}

/// Entries with distinct keys describe the tables `m` and `st` when they
/// have the same keys and the same URL and time for each.
proof fn lemma_same_tables(
    s: Seq<CacheEntry>,
    m: Map<(Seq<char>, Seq<char>), Seq<char>>,
    st: Map<(Seq<char>, Seq<char>), Instant>,
)
    requires
        keys_distinct(s),
        forall|k: (Seq<char>, Seq<char>)| #[trigger] m.contains_key(k) <==> exists|i: int| 0 <= i < s.len() && entry_key(s[i]) == k,
        forall|k: (Seq<char>, Seq<char>)| #[trigger] st.contains_key(k) <==> exists|i: int| 0 <= i < s.len() && entry_key(s[i]) == k,
        forall|i: int| 0 <= i < s.len() ==> m[#[trigger] entry_key(s[i])] == s[i].2.url@,
        forall|i: int| 0 <= i < s.len() ==> st[#[trigger] entry_key(s[i])] == s[i].2.fetched_at,
    ensures
        entries_map(s) == m,
        entries_stamps(s) == st,
{
    lemma_entries_map(s);
    assert forall|k: (Seq<char>, Seq<char>)| #[trigger] entries_map(s).contains_key(k) implies entries_map(s)[k] == m[k] by {
        let i = choose|i: int| 0 <= i < s.len() && entry_key(s[i]) == k;
        assert(entries_map(s)[entry_key(s[i])] == s[i].2.url@);
    }
    assert forall|k: (Seq<char>, Seq<char>)| #[trigger] entries_stamps(s).contains_key(k) implies entries_stamps(s)[k] == st[k] by {
        let i = choose|i: int| 0 <= i < s.len() && entry_key(s[i]) == k;
        assert(entries_stamps(s)[entry_key(s[i])] == s[i].2.fetched_at);
    }
    assert(entries_map(s) =~= m);
    assert(entries_stamps(s) =~= st);
}

/// The entries of a table that are not for the video `v`.
pub open spec fn other_videos<V>(m: Map<(Seq<char>, Seq<char>), V>, v: Seq<char>) -> Map<(Seq<char>, Seq<char>), V> {
    Map::new(|k: (Seq<char>, Seq<char>)| m.contains_key(k) && k.0 != v, |k: (Seq<char>, Seq<char>)| m[k])
}

/// Where the entry for `video` and `quality` stands.
fn position_in(entries: &Vec<CacheEntry>, video: &String, quality: &String) -> (r: Option<usize>)
    ensures
        match r {
            Some(i) => i < entries.len() && entry_key(entries@[i as int]) == (video@, quality@),
            None => forall|i: int| 0 <= i < entries.len() ==> entry_key(entries@[i]) != (video@, quality@),
        },
{
    let mut i: usize = 0;
    while i < entries.len()
        invariant
            i <= entries.len(),
            forall|j: int| 0 <= j < i ==> entry_key(entries@[j]) != (video@, quality@),
        decreases entries.len() - i,
    {
        if entries[i].0 == *video && entries[i].1 == *quality {
            return Some(i);
        }
        i += 1;
    }
    None
}

/// URL cache for all video qualities, by video and quality.
pub struct UrlCache {
    entries: Vec<CacheEntry>,
}

impl View for UrlCache {
    type V = Map<(Seq<char>, Seq<char>), Seq<char>>;

    closed spec fn view(&self) -> Map<(Seq<char>, Seq<char>), Seq<char>> {
        entries_map(self.entries@)
    }
}

impl UrlCache {
    /// No video and quality is stored twice.
    #[verifier::type_invariant]
    closed spec fn keys_unique(&self) -> bool {
        keys_distinct(self.entries@)
    }

    /// When each cached URL was fetched, by video and quality.
    pub closed spec fn fetched_at(&self) -> Map<(Seq<char>, Seq<char>), Instant> {
        entries_stamps(self.entries@)
    }

    /// Every cached URL has its time and nothing else has one.
    pub proof fn lemma_stamped(&self)
        ensures
            self.fetched_at().dom() == self@.dom(),
    {
        lemma_same_keys(self.entries@);
    }

    pub fn new() -> (r: Self)
        ensures
            r@ == Map::<(Seq<char>, Seq<char>), Seq<char>>::empty(),
            r.fetched_at() == Map::<(Seq<char>, Seq<char>), Instant>::empty(),
    {
        UrlCache { entries: Vec::new() }
    }

    /// Get cache key for a video+quality combination
    pub fn cache_key(video_url: &str, quality: &str) -> (r: String)
        ensures
            r@ == cache_key_spec(video_url@, quality@),
    {
        proof {
            reveal_strlit(":");
        }
        cat3(video_url, ":", quality)
    }

    /// The cached entry for a video and quality, fresh or not.
    pub fn lookup(&self, video_url: &str, quality: &str) -> (r: Option<&CachedUrl>)
        ensures
            match r {
                Some(c) => self@.contains_key((video_url@, quality@)) && c.url@
                    == self@[(video_url@, quality@)] && c.fetched_at == self.fetched_at()[(video_url@, quality@)],
                None => !self@.contains_key((video_url@, quality@)),
            },
    {
        let v = owned(video_url);
        let q = owned(quality);
        proof {
            use_type_invariant(self);
            lemma_entries_map(self.entries@);
        }
        match position_in(&self.entries, &v, &q) {
            Some(i) => Some(&self.entries[i].2),
            None => None,
        }
    }

    /// Get URL from cache if fresh, otherwise return None
    pub fn get(&self, video_url: &str, quality: &str) -> (r: Option<String>)
        ensures
            r matches Some(u) ==> self@.contains_key((video_url@, quality@)) && u@
                == self@[(video_url@, quality@)],
            !self@.contains_key((video_url@, quality@)) ==> r is None,
    {
        match self.lookup(video_url, quality) {
            Some(c) => c.fresh_answer(c.elapsed_secs()),
            None => None,
        }
    }

    /// Store URL in cache with current timestamp
    pub fn set(&mut self, video_url: &str, quality: &str, url: String)
        ensures
            final(self)@ == old(self)@.insert((video_url@, quality@), url@),
            final(self).fetched_at().contains_key((video_url@, quality@)),
            final(self).fetched_at().remove((video_url@, quality@)) == old(self).fetched_at().remove(
                (video_url@, quality@),
            ),
    {
        let v = owned(video_url);
        let q = owned(quality);
        let ghost key = (video_url@, quality@);
        let entry = CachedUrl::new(url);
        proof {
            use_type_invariant(&*self);
        }
        let mut entries: Vec<CacheEntry> = Vec::new();
        std::mem::swap(&mut entries, &mut self.entries);
        let ghost old_entries = entries@;
        let ghost m_target = old(self)@.insert(key, url@);
        let ghost st_target = old(self).fetched_at().insert(key, entry.fetched_at);
        proof {
            lemma_entries_map(old_entries);
        }
        match position_in(&entries, &v, &q) {
            Some(i) => {
                entries.set(i, (v, q, entry));
                proof {
                    let s = entries@;
                    assert(s == old_entries.update(i as int, s[i as int]));
                    assert(keys_distinct(s)) by {
                        assert forall|a: int, b: int| 0 <= a < b < s.len() implies entry_key(#[trigger] s[a])
                            != entry_key(#[trigger] s[b]) by {
                            assert(entry_key(old_entries[a]) != entry_key(old_entries[b]));
                        }
                    }
                    assert forall|k: (Seq<char>, Seq<char>)| #[trigger] m_target.contains_key(k) <==> exists|j: int|
                        0 <= j < s.len() && entry_key(s[j]) == k by {
                        if m_target.contains_key(k) && k != key {
                            let j = choose|j: int| 0 <= j < old_entries.len() && entry_key(old_entries[j]) == k;
                            assert(entry_key(s[j]) == k);
                        }
                        if k == key {
                            assert(entry_key(s[i as int]) == k);
                        }
                        if exists|j: int| 0 <= j < s.len() && entry_key(s[j]) == k {
                            let j = choose|j: int| 0 <= j < s.len() && entry_key(s[j]) == k;
                            if j != i {
                                assert(entry_key(old_entries[j]) == k);
                            }
                        }
                    }
                    assert forall|k: (Seq<char>, Seq<char>)| #[trigger] st_target.contains_key(k) <==> exists|j: int|
                        0 <= j < s.len() && entry_key(s[j]) == k by {
                        assert(st_target.contains_key(k) == m_target.contains_key(k));
                        if m_target.contains_key(k) {
                        }
                    }
                    assert forall|j: int| 0 <= j < s.len() implies m_target[#[trigger] entry_key(s[j])] == s[j].2.url@ by {
                        if j != i {
                            assert(old_entries[j] == s[j]);
                            assert(entry_key(old_entries[j]) != entry_key(old_entries[i as int]));
                        }
                    }
                    assert forall|j: int| 0 <= j < s.len() implies st_target[#[trigger] entry_key(s[j])] == s[j].2.fetched_at by {
                        if j != i {
                            assert(old_entries[j] == s[j]);
                            assert(entry_key(old_entries[j]) != entry_key(old_entries[i as int]));
                        }
                    }
                    lemma_same_tables(s, m_target, st_target);
                }
            },
            None => {
                entries.push((v, q, entry));
                proof {
                    let s = entries@;
                    assert(s.drop_last() =~= old_entries);
                    assert(keys_distinct(s)) by {
                        assert forall|a: int, b: int| 0 <= a < b < s.len() implies entry_key(#[trigger] s[a])
                            != entry_key(#[trigger] s[b]) by {
                            if b == s.len() - 1 {
                                assert(old_entries[a] == s[a]);
                            } else {
                                assert(old_entries[a] == s[a]);
                                assert(old_entries[b] == s[b]);
                            }
                        }
                    }
                }
            },
        }
        self.entries = entries;
        proof {
            assert(self.fetched_at().remove(key) =~= old(self).fetched_at().remove(key));
        }
    }

    /// Clear all cached URLs (useful when switching videos)
    pub fn clear(&mut self)
        ensures
            final(self)@ == Map::<(Seq<char>, Seq<char>), Seq<char>>::empty(),
            final(self).fetched_at() == Map::<(Seq<char>, Seq<char>), Instant>::empty(),
    {
        self.entries = Vec::new();
    }

    /// Clear cached URLs for a specific video: the entries of every quality
    /// of `video_url` go, the entries of every other video stay as they were.
    pub fn clear_video(&mut self, video_url: &str)
        ensures
            final(self)@ == other_videos(old(self)@, video_url@),
            final(self).fetched_at() == other_videos(old(self).fetched_at(), video_url@),
    {
        let v = owned(video_url);
        let ghost m = self.entries@;
        proof {
            use_type_invariant(&*self);
            lemma_entries_map(m);
        }
        let mut next: Vec<CacheEntry> = Vec::new();
        let mut j: usize = 0;
        while j < self.entries.len()
            invariant
                j <= self.entries.len(),
                self.entries@ == m,
                v@ == video_url@,
                keys_distinct(m),
                keys_distinct(next@),
                forall|t: int| 0 <= t < next@.len() ==> (#[trigger] next@[t]).0@ != v@,
                forall|t: int| 0 <= t < next@.len() ==> exists|u: int| 0 <= u < j && #[trigger] next@[t] == m[u],
                forall|u: int| 0 <= u < j && m[u].0@ != v@ ==> exists|t: int| 0 <= t < next@.len() && #[trigger] next@[t] == m[u],
            decreases self.entries.len() - j,
        {
            let ghost prev_next = next@;
            if self.entries[j].0 != v {
                let e = (self.entries[j].0.clone(), self.entries[j].1.clone(), self.entries[j].2.clone());
                assert(e == m[j as int]);
                next.push(e);
                proof {
                    assert forall|a: int, b: int| 0 <= a < b < next@.len() implies entry_key(#[trigger] next@[a])
                        != entry_key(#[trigger] next@[b]) by {
                        if b == next@.len() - 1 {
                            assert(prev_next[a] == next@[a]);
                            let u = choose|u: int| 0 <= u < j && #[trigger] prev_next[a] == m[u];
                            assert(entry_key(m[u]) != entry_key(m[j as int]));
                        } else {
                            assert(prev_next[a] == next@[a]);
                            assert(prev_next[b] == next@[b]);
                        }
                    }
                    assert forall|t: int| 0 <= t < next@.len() implies exists|u: int| 0 <= u < j + 1 && #[trigger] next@[t] == m[u] by {
                        if t == next@.len() - 1 {
                            assert(next@[t] == m[j as int]);
                        } else {
                            assert(prev_next[t] == next@[t]);
                            let u = choose|u: int| 0 <= u < j && #[trigger] prev_next[t] == m[u];
                        }
                    }
                    assert forall|u: int| 0 <= u < j + 1 && m[u].0@ != v@ implies exists|t: int| 0 <= t < next@.len() && #[trigger] next@[t] == m[u] by {
                        if u == j {
                            assert(next@[next@.len() - 1] == m[u]);
                        } else {
                            let t = choose|t: int| 0 <= t < prev_next.len() && #[trigger] prev_next[t] == m[u];
                            assert(next@[t] == prev_next[t]);
                        }
                    }
                }
            } else {
                proof {
                    assert forall|t: int| 0 <= t < next@.len() implies exists|u: int| 0 <= u < j + 1 && #[trigger] next@[t] == m[u] by {
                        let u = choose|u: int| 0 <= u < j && #[trigger] next@[t] == m[u];
                    }
                }
            }
            j += 1;
        }
        proof {
            let s = next@;
            let mt = other_videos(old(self)@, video_url@);
            let st = other_videos(old(self).fetched_at(), video_url@);
            assert forall|k: (Seq<char>, Seq<char>)| #[trigger] mt.contains_key(k) <==> exists|i: int|
                0 <= i < s.len() && entry_key(s[i]) == k by {
                if mt.contains_key(k) {
                    let u = choose|u: int| 0 <= u < m.len() && entry_key(m[u]) == k;
                    let t = choose|t: int| 0 <= t < s.len() && #[trigger] s[t] == m[u];
                    assert(entry_key(s[t]) == k);
                }
                if exists|i: int| 0 <= i < s.len() && entry_key(s[i]) == k {
                    let i = choose|i: int| 0 <= i < s.len() && entry_key(s[i]) == k;
                    let u = choose|u: int| 0 <= u < j && #[trigger] s[i] == m[u];
                    assert(entry_key(m[u]) == k);
                }
            }
            assert forall|k: (Seq<char>, Seq<char>)| #[trigger] st.contains_key(k) <==> exists|i: int|
                0 <= i < s.len() && entry_key(s[i]) == k by {
                assert(st.contains_key(k) == mt.contains_key(k));
            }
            assert forall|i: int| 0 <= i < s.len() implies mt[#[trigger] entry_key(s[i])] == s[i].2.url@ by {
                let u = choose|u: int| 0 <= u < j && #[trigger] s[i] == m[u];
                assert(entries_map(m)[entry_key(m[u])] == m[u].2.url@);
            }
            assert forall|i: int| 0 <= i < s.len() implies st[#[trigger] entry_key(s[i])] == s[i].2.fetched_at by {
                let u = choose|u: int| 0 <= u < j && #[trigger] s[i] == m[u];
                assert(entries_stamps(m)[entry_key(m[u])] == m[u].2.fetched_at);
            }
            lemma_same_tables(s, mt, st);
        }
        self.entries = next;
    }

    /// The URL to use without asking yt-dlp: none when a fresh fetch is
    /// forced, else what `get` finds.
    pub fn cached_for(&self, video_url: &str, quality: &str, force_fresh: bool) -> (r: Option<String>)
        ensures
            force_fresh ==> r is None,
            r matches Some(u) ==> self@.contains_key((video_url@, quality@)) && u@
                == self@[(video_url@, quality@)],
            !self@.contains_key((video_url@, quality@)) ==> r is None,
    {
        if force_fresh {
            None
        } else {
            self.get(video_url, quality)
        }
    }

    /// Keeps what yt-dlp returned: a URL is stored under the video and
    /// quality and handed back; an error is handed back and the cache stays.
    pub fn record_fetch(&mut self, video_url: &str, quality: &str, fetched: Result<String, String>) -> (r: Result<String, String>)
        ensures
            r == fetched,
            match fetched {
                Ok(u) => {
                    &&& final(self)@ == old(self)@.insert((video_url@, quality@), u@)
                    &&& final(self).fetched_at().contains_key((video_url@, quality@))
                    &&& final(self).fetched_at().remove((video_url@, quality@)) == old(self).fetched_at().remove(
                        (video_url@, quality@),
                    )
                },
                Err(_) => final(self)@ == old(self)@ && final(self).fetched_at() == old(self).fetched_at(),
            },
    {
        match fetched {
            Ok(u) => {
                self.set(video_url, quality, u.clone());
                Ok(u)
            },
            Err(e) => Err(e),
        }
    }
}

/// Law: two qualities of one video have different keys.
pub proof fn lemma_cache_keys_distinct(video_url: Seq<char>, q1: Seq<char>, q2: Seq<char>)
    ensures
        cache_key_spec(video_url, q1) == cache_key_spec(video_url, q2) ==> q1 == q2,
{
    if cache_key_spec(video_url, q1) == cache_key_spec(video_url, q2) {
        let n: int = video_url.len() as int + 1;
        assert(q1 =~= cache_key_spec(video_url, q1).skip(n));
        assert(q2 =~= cache_key_spec(video_url, q2).skip(n));
    }
}

/// Law: after `set`, the URL stored for a video and quality is the one
/// given, and every other entry is as it was.
pub proof fn lemma_cache_read_after_write(
    before: Map<(Seq<char>, Seq<char>), Seq<char>>,
    video_url: Seq<char>,
    quality: Seq<char>,
    url: Seq<char>,
    other: (Seq<char>, Seq<char>),
)
    ensures
        before.insert((video_url, quality), url).contains_key((video_url, quality)),
        before.insert((video_url, quality), url)[(video_url, quality)] == url,
        other != (video_url, quality) ==> (before.insert((video_url, quality), url).contains_key(other)
            == before.contains_key(other) && before.insert((video_url, quality), url)[other]
            == before[other]),
{
}

/// Law: after `clear_video`, no quality of that video is cached, and every
/// entry of any other video (one whose address merely starts with it too)
/// is kept as it was.
pub proof fn lemma_clear_video_forgets(
    before: Map<(Seq<char>, Seq<char>), Seq<char>>,
    video_url: Seq<char>,
    quality: Seq<char>,
    other: (Seq<char>, Seq<char>),
)
    ensures
        !other_videos(before, video_url).contains_key((video_url, quality)),
        other.0 != video_url ==> other_videos(before, video_url).contains_key(other)
            == before.contains_key(other),
        other.0 != video_url && before.contains_key(other) ==> other_videos(before, video_url)[other]
            == before[other],
{
}

} // verus!
