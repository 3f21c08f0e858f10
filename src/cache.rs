use vstd::prelude::*;

use crate::config::PoolError;
use crate::pool::bump;

verus! {

/// What the file system says of a style file at lookup time: whether it
/// exists, and its modification time when that could be read.
#[derive(PartialEq, Eq, Structural, Clone, Copy, Debug)]
pub struct FileProbe {
    pub exists: bool,
    pub modified: Option<u64>,
}

/// One cached voice style with the path it came from, the modification time
/// recorded when it was cached, and the time it was last accessed.
pub struct CacheEntry<V> {
    pub voice_style: V,
    pub last_accessed: u64,
    pub file_path: String,
    pub file_modified: Option<u64>,
}

/// An entry stays valid while its file exists and has not been modified
/// after the recorded time.
pub open spec fn entry_valid(file_modified: Option<u64>, probe: FileProbe) -> bool {
    probe.exists && !(match (file_modified, probe.modified) {
        (Some(cached), Some(current)) => current > cached,
        _ => false,
    })
}

impl<V> CacheEntry<V> {
    /// An entry cached at time `now` from `file_path`, modified at `file_modified`.
    pub fn new(voice_style: V, file_path: String, file_modified: Option<u64>, now: u64) -> (r: Self)
        ensures
            r == (CacheEntry { voice_style, last_accessed: now, file_path, file_modified }),
    {
        CacheEntry { voice_style, last_accessed: now, file_path, file_modified }
    }

    /// Whether the entry may still be served; see `entry_valid`.
    pub fn is_valid(&self, probe: &FileProbe) -> (r: bool)
        ensures
            r == entry_valid(self.file_modified, *probe),
    {
        if !probe.exists {
            return false;
        }
        match (self.file_modified, probe.modified) {
            (Some(cached), Some(current)) => current <= cached,
            _ => true,
        }
    }

    /// Records an access at time `now`.
    pub fn _touch(&mut self, now: u64)
        ensures
            final(self).last_accessed == now,
            final(self).voice_style == old(self).voice_style,
            final(self).file_path == old(self).file_path,
            final(self).file_modified == old(self).file_modified,
    {
        self.last_accessed = now;
    }
}

/// Abstract state of the cache: its capacity, its entries in slot order, and
/// its counters.
pub struct CacheModel<V> {
    pub capacity: nat,
    pub entries: Seq<CacheEntry<V>>,
    pub hits: nat,
    pub misses: nat,
    pub evictions: nat,
}

/// Index of the first entry for `key`, or the number of entries when none is.
pub open spec fn find_key<V>(s: Seq<CacheEntry<V>>, key: Seq<char>) -> nat
    decreases s.len(),
{
    if s.len() == 0 {
        0
    } else if s[0].file_path@ == key {
        0
    } else {
        1 + find_key(s.drop_first(), key)
    }
}

/// Index of the least recently accessed entry; among equal access times the
/// one in the lowest slot.
pub open spec fn lru_index<V>(s: Seq<CacheEntry<V>>) -> nat
    decreases s.len(),
{
    if s.len() <= 1 {
        0
    } else {
        let j = lru_index(s.drop_last());
        if s.last().last_accessed < s[j as int].last_accessed {
            (s.len() - 1) as nat
        } else {
            j
        }
    }
}

/// No two entries share a path.
pub open spec fn keys_unique<V>(s: Seq<CacheEntry<V>>) -> bool {
    forall|i: int, j: int|
        0 <= i < s.len() && 0 <= j < s.len() && i != j ==> s[i].file_path@ != s[j].file_path@
}

/// The cache's invariant: a positive capacity that bounds the entries, one
/// entry per path, and counters that fit a `u64`.
pub open spec fn cache_wf<V>(m: CacheModel<V>) -> bool {
    &&& 1 <= m.capacity <= usize::MAX
    &&& m.entries.len() <= m.capacity
    &&& keys_unique(m.entries)
    &&& m.hits <= u64::MAX
    &&& m.misses <= u64::MAX
    &&& m.evictions <= u64::MAX
}

/// Lookup of `key`: a valid entry is a hit and records the access; a missing
/// or stale entry is a miss and leaves the entries as they are.
pub open spec fn lookup_spec<V>(m: CacheModel<V>, key: Seq<char>, probe: FileProbe, now: u64) -> (
    CacheModel<V>,
    Option<usize>,
) {
    let i = find_key(m.entries, key);
    if i < m.entries.len() && entry_valid(m.entries[i as int].file_modified, probe) {
        let e = m.entries[i as int];
        (
            CacheModel {
                entries: m.entries.update(
                    i as int,
                    CacheEntry { last_accessed: now, ..e },
                ),
                hits: bump(m.hits),
                ..m
            },
            Some(i as usize),
        )
    } else {
        (CacheModel { misses: bump(m.misses), ..m }, None)
    }
}

/// Insertion of a freshly loaded style: an entry for the same path is
/// replaced in place; otherwise, when the cache is full, the least recently
/// accessed entry is evicted first and its path returned.
pub open spec fn insert_spec<V>(
    m: CacheModel<V>,
    key: String,
    value: V,
    modified: Option<u64>,
    now: u64,
) -> (CacheModel<V>, Option<String>) {
    let e = CacheEntry { voice_style: value, last_accessed: now, file_path: key, file_modified: modified };
    let i = find_key(m.entries, key@);
    if i < m.entries.len() {
        (CacheModel { entries: m.entries.update(i as int, e), ..m }, None)
    } else if m.entries.len() >= m.capacity {
        let j = lru_index(m.entries);
        (
            CacheModel {
                entries: m.entries.remove(j as int).push(e),
                evictions: bump(m.evictions),
                ..m
            },
            Some(m.entries[j as int].file_path),
        )
    } else {
        (CacheModel { entries: m.entries.push(e), ..m }, None)
    }
}

/// `find_key` lands on an entry for the key, or past the end when none holds it.
pub proof fn lemma_find_key<V>(s: Seq<CacheEntry<V>>, key: Seq<char>)
    ensures
        find_key(s, key) <= s.len(),
        find_key(s, key) < s.len() ==> s[find_key(s, key) as int].file_path@ == key,
        find_key(s, key) == s.len() ==> forall|j: int|
            0 <= j < s.len() ==> s[j].file_path@ != key,
    decreases s.len(),
{
    if s.len() > 0 && s[0].file_path@ != key {
        let t = s.drop_first();
        lemma_find_key(t, key);
        assert forall|j: int| 0 <= j < s.len() && find_key(s, key) == s.len() implies s[j].file_path@
            != key by {
            if j > 0 {
                assert(s[j] == t[j - 1]);
            }
        }
    }
}

/// `find_key` is the first index that holds `key`.
pub proof fn lemma_find_key_at<V>(s: Seq<CacheEntry<V>>, key: Seq<char>, i: int)
    requires
        0 <= i <= s.len(),
        forall|j: int| 0 <= j < i ==> s[j].file_path@ != key,
        i == s.len() || s[i].file_path@ == key,
    ensures
        find_key(s, key) == i,
    decreases s.len(),
{
    if s.len() > 0 && i > 0 {
        lemma_find_key_at(s.drop_first(), key, i - 1);
    }
}

/// The entry at `lru_index` has the least access time, and every entry
/// before it a strictly later one.
pub proof fn lemma_lru_index<V>(s: Seq<CacheEntry<V>>)
    requires
        s.len() > 0,
    ensures
        lru_index(s) < s.len(),
        forall|k: int| 0 <= k < s.len() ==> s[lru_index(s) as int].last_accessed <= #[trigger] s[k].last_accessed,
        forall|k: int| 0 <= k < lru_index(s) ==> #[trigger] s[k].last_accessed > s[lru_index(s) as int].last_accessed,
    decreases s.len(),
{
    if s.len() > 1 {
        let t = s.drop_last();
        lemma_lru_index(t);
        assert forall|k: int| 0 <= k < t.len() implies t[k] == s[k] by {}
    }
}

/// After an insertion the entry for its path is the one just inserted.
pub proof fn lemma_insert_finds_new<V>(
    m: CacheModel<V>,
    key: String,
    value: V,
    modified: Option<u64>,
    now: u64,
)
    requires
        cache_wf(m),
    ensures
        ({
            let m1 = insert_spec(m, key, value, modified, now).0;
            let i = find_key(m1.entries, key@);
            &&& i < m1.entries.len() <= m.capacity
            &&& m1.entries[i as int] == (CacheEntry {
                voice_style: value,
                last_accessed: now,
                file_path: key,
                file_modified: modified,
            })
        }),
{
    let s = m.entries;
    let m1 = insert_spec(m, key, value, modified, now).0;
    let t = m1.entries;
    lemma_find_key(s, key@);
    let i = find_key(s, key@);
    if i < s.len() {
        assert forall|j: int| 0 <= j < i implies t[j].file_path@ != key@ by {
            assert(t[j] == s[j]);
        }
        lemma_find_key_at(t, key@, i as int);
    } else if s.len() >= m.capacity {
        let j = lru_index(s);
        lemma_lru_index(s);
        assert forall|a: int| 0 <= a < t.len() - 1 implies t[a].file_path@ != key@ by {
            let oa = if a < j { a } else { a + 1 };
            assert(t[a] == s[oa]);
        }
        lemma_find_key_at(t, key@, t.len() - 1);
    } else {
        assert forall|a: int| 0 <= a < t.len() - 1 implies t[a].file_path@ != key@ by {
            assert(t[a] == s[a]);
        }
        lemma_find_key_at(t, key@, t.len() - 1);
    }
}

/// A style cached from a file that has not changed since is served from the
/// cache on the next lookup: one more hit, no miss, and the same style.
pub proof fn law_unchanged_file_hits<V>(
    m: CacheModel<V>,
    key: String,
    value: V,
    modified: Option<u64>,
    t1: u64,
    probe: FileProbe,
    t2: u64,
)
    requires
        cache_wf(m),
        entry_valid(modified, probe),
    ensures
        ({
            let m1 = insert_spec(m, key, value, modified, t1).0;
            let (m2, r) = lookup_spec(m1, key@, probe, t2);
            &&& r is Some
            &&& m2.entries[r->0 as int].voice_style == value
            &&& m2.hits == bump(m1.hits)
            &&& m2.misses == m1.misses
        }),
{
    lemma_insert_finds_new(m, key, value, modified, t1);
    let m1 = insert_spec(m, key, value, modified, t1).0;
    let i = find_key(m1.entries, key@);
    let (m2, r) = lookup_spec(m1, key@, probe, t2);
    assert(r == Some(i as usize));
    assert(m2.entries[i as int].voice_style == value);
}

/// A style cached from a file whose modification time has since moved forward
/// is a miss on the next lookup, so that the style is loaded again.
pub proof fn law_modified_file_misses<V>(
    m: CacheModel<V>,
    key: String,
    value: V,
    cached_mtime: u64,
    t1: u64,
    current_mtime: u64,
    t2: u64,
)
    requires
        cache_wf(m),
        current_mtime > cached_mtime,
    ensures
        ({
            let m1 = insert_spec(m, key, value, Some(cached_mtime), t1).0;
            let probe = FileProbe { exists: true, modified: Some(current_mtime) };
            let (m2, r) = lookup_spec(m1, key@, probe, t2);
            &&& r is None
            &&& m2.misses == bump(m1.misses)
            &&& m2.hits == m1.hits
            &&& m2.entries == m1.entries
        }),
{
    lemma_insert_finds_new(m, key, value, Some(cached_mtime), t1);
}

/// Inserting a new path into a full cache evicts exactly one entry, the least
/// recently accessed one (the lowest slot among equal times), and keeps the
/// others in order.
pub proof fn law_full_cache_evicts_lru<V>(
    m: CacheModel<V>,
    key: String,
    value: V,
    modified: Option<u64>,
    now: u64,
)
    requires
        cache_wf(m),
        m.entries.len() == m.capacity,
        forall|k: int| 0 <= k < m.entries.len() ==> #[trigger] m.entries[k].file_path@ != key@,
    ensures
        ({
            let (m1, evicted) = insert_spec(m, key, value, modified, now);
            let j = lru_index(m.entries) as int;
            &&& 0 <= j < m.entries.len()
            &&& evicted == Some(m.entries[j].file_path)
            &&& forall|k: int|
                0 <= k < m.entries.len() ==> m.entries[j].last_accessed <= #[trigger] m.entries[k].last_accessed
            &&& forall|k: int| 0 <= k < j ==> #[trigger] m.entries[k].last_accessed > m.entries[j].last_accessed
            &&& m1.entries == m.entries.remove(j).push(
                CacheEntry { voice_style: value, last_accessed: now, file_path: key, file_modified: modified },
            )
            &&& m1.entries.len() == m.capacity
            &&& m1.evictions == bump(m.evictions)
        }),
{
    lemma_find_key(m.entries, key@);
    if find_key(m.entries, key@) < m.entries.len() {
        let i = find_key(m.entries, key@) as int;
        assert(m.entries[i].file_path@ != key@);
    }
    lemma_lru_index(m.entries);
}

/// A hit at a time later than every recorded access takes the entry out of
/// eviction priority whenever another entry is cached.
pub proof fn law_access_refreshes_recency<V>(m: CacheModel<V>, key: Seq<char>, probe: FileProbe, now: u64)
    requires
        cache_wf(m),
        m.entries.len() >= 2,
        forall|k: int| 0 <= k < m.entries.len() ==> #[trigger] m.entries[k].last_accessed < now,
        find_key(m.entries, key) < m.entries.len(),
        entry_valid(m.entries[find_key(m.entries, key) as int].file_modified, probe),
    ensures
        ({
            let (m1, r) = lookup_spec(m, key, probe, now);
            &&& r is Some
            &&& lru_index(m1.entries) != r->0
        }),
{
    let (m1, r) = lookup_spec(m, key, probe, now);
    let i = find_key(m.entries, key) as int;
    lemma_lru_index(m1.entries);
    let k = if i == 0 { 1int } else { 0int };
    assert(m1.entries[k] == m.entries[k]);
    assert(m1.entries[i].last_accessed == now);
    assert(r == Some(i as usize));
    if lru_index(m1.entries) == i {
        assert(m1.entries[i].last_accessed <= m1.entries[k].last_accessed);
        assert(m.entries[k].last_accessed < now);
    }
}

/// The cache of parsed voice styles, keyed by path.
pub struct VoiceStyleCache<V> {
    capacity: usize,
    entries: Vec<CacheEntry<V>>,
    hits: u64,
    misses: u64,
    evictions: u64,
}

fn bump_counter(x: u64) -> (r: u64)
    ensures
        r == bump(x as nat),
{
    if x < u64::MAX {
        x + 1
    } else {
        x
    }
}

impl<V> VoiceStyleCache<V> {
    pub closed spec fn view(&self) -> CacheModel<V> {
        CacheModel {
            capacity: self.capacity as nat,
            entries: self.entries@,
            hits: self.hits as nat,
            misses: self.misses as nat,
            evictions: self.evictions as nat,
        }
    }

    pub open spec fn wf(&self) -> bool {
        cache_wf(self@)
    }

    /// An empty cache that holds at most `capacity` styles; a capacity of
    /// zero is refused.
    pub fn new(capacity: usize) -> (r: Result<Self, PoolError>)
        ensures
            r is Ok <==> capacity >= 1,
            r is Err ==> r == Err::<Self, PoolError>(PoolError::InvalidCacheCapacity),
            r matches Ok(c) ==> c.wf() && c@ == (CacheModel::<V> {
                capacity: capacity as nat,
                entries: Seq::empty(),
                hits: 0,
                misses: 0,
                evictions: 0,
            }),
    {
        if capacity == 0 {
            return Err(PoolError::InvalidCacheCapacity);
        }
        let c = VoiceStyleCache { capacity, entries: Vec::new(), hits: 0, misses: 0, evictions: 0 };
        assert(c@.entries =~= Seq::<CacheEntry<V>>::empty());
        Ok(c)
    }

    fn find(&self, key: &String) -> (r: usize)
        ensures
            r == find_key(self@.entries, key@),
    {
        let n = self.entries.len();
        let mut i: usize = 0;
        while i < n
            invariant
                n == self.entries@.len(),
                0 <= i <= n,
                forall|j: int| 0 <= j < i ==> self.entries@[j].file_path@ != key@,
            ensures
                0 <= i <= n,
                forall|j: int| 0 <= j < i ==> self.entries@[j].file_path@ != key@,
                i == n || self.entries@[i as int].file_path@ == key@,
            decreases n - i,
        {
            if self.entries[i].file_path == *key {
                break;
            }
            i = i + 1;
        }
        proof {
            lemma_find_key_at(self.entries@, key@, i as int);
        }
        i
    }

    fn least_recent(&self) -> (r: usize)
        requires
            self.entries@.len() > 0,
        ensures
            r == lru_index(self@.entries),
    {
        let n = self.entries.len();
        let mut best: usize = 0;
        let mut i: usize = 1;
        proof {
            assert(self.entries@.subrange(0, 1).len() == 1);
        }
        while i < n
            invariant
                n == self.entries@.len(),
                1 <= i <= n,
                best < i,
                best == lru_index(self.entries@.subrange(0, i as int)),
            decreases n - i,
        {
            let ghost pre = self.entries@.subrange(0, i as int);
            let ghost next = self.entries@.subrange(0, i + 1);
            proof {
                assert(next.drop_last() =~= pre);
                lemma_lru_index(pre);
            }
            if self.entries[i].last_accessed < self.entries[best].last_accessed {
                best = i;
            }
            i = i + 1;
        }
        proof {
            assert(self.entries@.subrange(0, n as int) =~= self.entries@);
        }
        best
    }

    /// Looks up the style cached for `key`; see `lookup_spec`. On a hit the
    /// result is the slot that holds it, read with `value_at`.
    pub fn lookup(&mut self, key: &String, probe: FileProbe, now: u64) -> (r: Option<usize>)
        requires
            old(self).wf(),
        ensures
            final(self).wf(),
            (final(self)@, r) == lookup_spec(old(self)@, key@, probe, now),
    {
        let i = self.find(key);
        proof {
            lemma_find_key(self.entries@, key@);
        }
        if i < self.entries.len() && self.entries[i].is_valid(&probe) {
            let ghost e = self.entries@[i as int];
            let mut entry = self.entries.remove(i);
            entry._touch(now);
            self.entries.insert(i, entry);
            self.hits = bump_counter(self.hits);
            proof {
                assert(self.entries@ =~= old(self)@.entries.update(
                    i as int,
                    CacheEntry { last_accessed: now, ..e },
                ));
                assert forall|a: int, b: int|
                    0 <= a < self.entries@.len() && 0 <= b < self.entries@.len() && a != b implies
                    self.entries@[a].file_path@ != self.entries@[b].file_path@ by {
                    assert(self.entries@[a].file_path == old(self)@.entries[a].file_path);
                    assert(self.entries@[b].file_path == old(self)@.entries[b].file_path);
                }
            }
            Some(i)
        } else {
            self.misses = bump_counter(self.misses);
            None
        }
    }

    /// The style held in slot `i`.
    pub fn value_at(&self, i: usize) -> (r: &V)
        requires
            i < self@.entries.len(),
        ensures
            *r == self@.entries[i as int].voice_style,
    {
        &self.entries[i].voice_style
    }

    /// Caches a freshly loaded style for `key`; see `insert_spec`.
    pub fn insert(&mut self, key: String, value: V, modified: Option<u64>, now: u64) -> (r: Option<
        String,
    >)
        requires
            old(self).wf(),
        ensures
            final(self).wf(),
            (final(self)@, r) == insert_spec(old(self)@, key, value, modified, now),
    {
        let i = self.find(&key);
        proof {
            lemma_find_key(self.entries@, key@);
        }
        let ghost k = key@;
        let e = CacheEntry::new(value, key, modified, now);
        if i < self.entries.len() {
            self.entries.set(i, e);
            proof {
                assert forall|a: int, b: int|
                    0 <= a < self.entries@.len() && 0 <= b < self.entries@.len() && a != b implies
                    self.entries@[a].file_path@ != self.entries@[b].file_path@ by {
                    if a != i && b != i {
                        assert(self.entries@[a] == old(self)@.entries[a]);
                        assert(self.entries@[b] == old(self)@.entries[b]);
                    } else if a == i {
                        assert(self.entries@[b] == old(self)@.entries[b]);
                    } else {
                        assert(self.entries@[a] == old(self)@.entries[a]);
                    }
                }
            }
            None
        } else if self.entries.len() >= self.capacity {
            let j = self.least_recent();
            proof {
                lemma_lru_index(self.entries@);
            }
            let evicted = self.entries.remove(j);
            self.entries.push(e);
            self.evictions = bump_counter(self.evictions);
            proof {
                let s0 = old(self)@.entries;
                assert(self.entries@ =~= s0.remove(j as int).push(e));
                assert forall|a: int, b: int|
                    0 <= a < self.entries@.len() && 0 <= b < self.entries@.len() && a != b implies
                    self.entries@[a].file_path@ != self.entries@[b].file_path@ by {
                    let last = self.entries@.len() - 1;
                    if a < last {
                        let oa = if a < j { a } else { a + 1 };
                        assert(self.entries@[a] == s0[oa]);
                    }
                    if b < last {
                        let ob = if b < j { b } else { b + 1 };
                        assert(self.entries@[b] == s0[ob]);
                    }
                }
            }
            Some(evicted.file_path)
        } else {
            self.entries.push(e);
            proof {
                assert forall|a: int, b: int|
                    0 <= a < self.entries@.len() && 0 <= b < self.entries@.len() && a != b implies
                    self.entries@[a].file_path@ != self.entries@[b].file_path@ by {
                    let last = self.entries@.len() - 1;
                    if a < last {
                        assert(self.entries@[a] == old(self)@.entries[a]);
                    }
                    if b < last {
                        assert(self.entries@[b] == old(self)@.entries[b]);
                    }
                }
            }
            None
        }
    }

    /// Number of cached styles.
    pub fn len(&self) -> (r: usize)
        ensures
            r == self@.entries.len(),
    {
        self.entries.len()
    }

    pub fn capacity(&self) -> (r: usize)
        ensures
            r == self@.capacity,
    {
        self.capacity
    }

    pub fn hits(&self) -> (r: u64)
        ensures
            r == self@.hits,
    {
        self.hits
    }

    pub fn misses(&self) -> (r: u64)
        ensures
            r == self@.misses,
    {
        self.misses
    }

    pub fn evictions(&self) -> (r: u64)
        ensures
            r == self@.evictions,
    {
        self.evictions
    }

    /// Drops every entry; the counters stay.
    pub fn clear(&mut self)
        requires
            old(self).wf(),
        ensures
            final(self).wf(),
            final(self)@ == (CacheModel { entries: Seq::empty(), ..old(self)@ }),
    {
        self.entries = Vec::new();
        assert(self.entries@ =~= Seq::<CacheEntry<V>>::empty());
    }
}

} // verus!
