//! The two-layer resource cache: an in-memory layer with expiry, priorities
//! and size-bounded eviction, backed by files on disk whose names this module
//! computes. Reading and writing those files is left to the caller.
use vstd::prelude::*;
use crate::encoding::{b64_encode, base64_encode};
use crate::persistence::now;
use crate::seqs::{keep, lemma_keep_step, lemma_prefix_push, prefix};
use crate::text::str_eq;

verus! {

/// How much an entry is worth keeping.
pub enum CachePriority {
    Low,
    Normal,
    High,
    Critical,
}

/// The eviction rank of a priority: lower ranks are evicted first.
pub open spec fn rank(p: CachePriority) -> nat {
    match p {
        CachePriority::Low => 0,
        CachePriority::Normal => 1,
        CachePriority::High => 2,
        CachePriority::Critical => 3,
    }
}

fn rank_exec(p: &CachePriority) -> (r: u8)
    ensures
        r == rank(*p),
{
    match p {
        CachePriority::Low => 0,
        CachePriority::Normal => 1,
        CachePriority::High => 2,
        CachePriority::Critical => 3,
    }
}

/// Whether an entry of this priority is also written to disk.
pub open spec fn persisted(p: CachePriority) -> bool {
    p is High || p is Critical
}

/// The entries that are written to disk are exactly those ranked above
/// normal: high and critical ones.
pub proof fn law_high_and_critical_are_persisted(p: CachePriority)
    ensures
        persisted(p) <==> rank(p) > rank(CachePriority::Normal),
        persisted(CachePriority::High),
        persisted(CachePriority::Critical),
        !persisted(CachePriority::Normal),
        !persisted(CachePriority::Low),
{
}

/// An entry stored without a time-to-live never expires; one stored at
/// `now` with time-to-live `ttl` is live up to `now + ttl` and expired after
/// it (times past the largest count as the largest).
pub proof fn law_expiry_follows_ttl(e: EntryView, now: u64, ttl: Option<u64>, later: u64)
    requires
        e.expires_at == expiry(ttl, now),
    ensures
        ttl is None ==> !expired(e, later),
        ttl matches Some(t) ==> (now + t <= u64::MAX ==> (expired(e, later) <==> later > now + t)),
        ttl matches Some(t) ==> (now + t > u64::MAX ==> !expired(e, later)),
{
}

/// One cached resource.
pub struct CacheEntry {
    pub key: String,
    pub data: Vec<u8>,
    pub timestamp: u64,
    pub priority: CachePriority,
    pub expires_at: Option<u64>,
}

/// A cache entry, with its key and data taken by their views.
pub struct EntryView {
    pub key: Seq<char>,
    pub data: Seq<u8>,
    pub timestamp: u64,
    pub priority: CachePriority,
    pub expires_at: Option<u64>,
}

impl View for CacheEntry {
    type V = EntryView;

    open spec fn view(&self) -> EntryView {
        EntryView {
            key: self.key@,
            data: self.data@,
            timestamp: self.timestamp,
            priority: self.priority,
            expires_at: self.expires_at,
        }
    }
}

/// A copy of `v`.
pub fn copy_bytes(v: &Vec<u8>) -> (r: Vec<u8>)
    ensures
        r@ == v@,
{
    let mut r: Vec<u8> = Vec::new();
    let mut i: usize = 0;
    while i < v.len()
        invariant
            i <= v@.len(),
            r@ == v@.subrange(0, i as int),
        decreases v.len() - i,
    {
        r.push(v[i]);
        i = i + 1;
        assert(r@ =~= v@.subrange(0, i as int));
    }
    assert(r@ =~= v@);
    r
}

/// Whether `e` has expired at time `now`.
pub open spec fn expired(e: EntryView, now: u64) -> bool {
    match e.expires_at {
        Some(exp) => now > exp,
        None => false,
    }
}

/// Index of the first entry stored under key `k`, or -1.
pub open spec fn key_index_from(es: Seq<EntryView>, k: Seq<char>, i: int) -> int
    decreases es.len() - i,
{
    if i < 0 || i >= es.len() {
        -1
    } else if es[i].key == k {
        i
    } else {
        key_index_from(es, k, i + 1)
    }
}

/// Index of the entry stored under key `k`, or -1.
pub open spec fn key_index(es: Seq<EntryView>, k: Seq<char>) -> int {
    key_index_from(es, k, 0)
}

/// The entries after `e` is stored: it replaces the entry under its key, or
/// is added last.
pub open spec fn insert_entry(es: Seq<EntryView>, e: EntryView) -> Seq<EntryView> {
    let i = key_index(es, e.key);
    if i >= 0 {
        es.update(i, e)
    } else {
        es.push(e)
    }
}

/// Total size in bytes of the cached data.
pub open spec fn total_size(es: Seq<EntryView>) -> nat
    decreases es.len(),
{
    if es.len() == 0 {
        0
    } else {
        total_size(es.drop_last()) + es.last().data.len()
    }
}

/// Indices `0..n`.
pub open spec fn indices(n: nat) -> Seq<int> {
    Seq::new(n, |i: int| i)
}

/// Indices of the entries of rank `r`, in order.
pub open spec fn rank_indices(es: Seq<EntryView>, r: nat) -> Seq<int> {
    keep(indices(es.len()), |i: int| rank(es[i].priority) == r)
}

/// Entry indices ordered by rank, entries of equal rank in storage order.
pub open spec fn eviction_order(es: Seq<EntryView>) -> Seq<int> {
    rank_indices(es, 0) + rank_indices(es, 1) + rank_indices(es, 2) + rank_indices(es, 3)
}

/// The number of entries one eviction removes at most.
pub const EVICTION_BATCH: usize = 10;

/// The indices of the entries that an eviction removes.
pub open spec fn victims(es: Seq<EntryView>) -> Seq<int> {
    prefix(eviction_order(es), EVICTION_BATCH as int)
}

/// The entries that remain when the entries at indices `vs` are removed.
pub open spec fn without(es: Seq<EntryView>, vs: Seq<int>) -> Seq<EntryView> {
    keep(indices(es.len()), |i: int| !vs.contains(i)).map_values(|i: int| es[i])
}

/// The entries after an eviction check against the size limit `max`: when
/// the data exceed the limit, the ten lowest-ranked entries are removed.
pub open spec fn evict(es: Seq<EntryView>, max: nat) -> Seq<EntryView> {
    if total_size(es) > max {
        without(es, victims(es))
    } else {
        es
    }
}

/// The name of the disk file that holds the entry for `key`: the Base64 of
/// its UTF-8 bytes, then `.cache`.
pub open spec fn l2_name(key: Seq<char>) -> Seq<char> {
    b64_encode(vstd::utf8::encode_utf8(key)) + ".cache"@
}

/// The entry that data read from the disk file of `key` becomes when it is
/// promoted into the memory layer at `now`: high priority, no expiry.
pub open spec fn promoted(key: Seq<char>, data: Seq<u8>, now: u64) -> EntryView {
    EntryView { key, data, timestamp: now, priority: CachePriority::High, expires_at: None }
}

/// When an entry stored at `now` with time-to-live `ttl` expires (never
/// beyond the largest time).
pub open spec fn expiry(ttl: Option<u64>, now: u64) -> Option<u64> {
    match ttl {
        Some(t) => Some(
            if now + t > u64::MAX {
                u64::MAX
            } else {
                (now + t) as u64
            },
        ),
        None => None,
    }
}

/// What a lookup of `key` at time `now` in the memory layer `es` gives,
/// with the hit counter going from `hits` to `hits2`: a live entry is a hit
/// (counted) with its data; otherwise the key's disk file is to be read.
pub open spec fn lookup(es: Seq<EntryView>, key: Seq<char>, now: u64, r: CacheRead, hits: u64, hits2: u64) -> bool {
    let i = key_index(es, key);
    if i >= 0 && !expired(es[i], now) {
        &&& r is Hit
        &&& r->Hit_0@ == es[i].data
        &&& hits2 == hits.wrapping_add(1)
    } else {
        &&& r is ReadDisk
        &&& r->ReadDisk_0@ == l2_name(key)
        &&& hits2 == hits
    }
}

/// The result of looking a key up in the memory layer.
pub enum CacheRead {
    /// The memory layer holds a live entry: its data.
    Hit(Vec<u8>),
    /// The disk layer is to be consulted: the file to read in the cache directory.
    ReadDisk(String),
}

/// A file the disk layer is to hold: its name in the cache directory, and its contents.
pub struct DiskWrite {
    pub file_name: String,
    pub data: Vec<u8>,
}

/// The two-layer cache. The memory layer is held here; the disk layer lives
/// in the directory `l2_dir`, which the caller reads and writes.
pub struct MultiLayerCache {
    l1_cache: Vec<CacheEntry>,
    l2_cache: String,
    max_l1_size: usize,
    hit_count: u64,
    miss_count: u64,
}

impl MultiLayerCache {
    /// The entries of the memory layer, in storage order.
    pub closed spec fn entries(self) -> Seq<EntryView> {
        self.l1_cache@.map_values(|e: CacheEntry| e@)
    }

    /// The cache directory.
    pub closed spec fn dir(self) -> Seq<char> {
        self.l2_cache@
    }

    /// The size limit of the memory layer, in bytes.
    pub closed spec fn max_size(self) -> nat {
        self.max_l1_size as nat
    }

    /// Lookups that found data.
    pub closed spec fn hits(self) -> u64 {
        self.hit_count
    }

    /// Lookups that found nothing.
    pub closed spec fn misses(self) -> u64 {
        self.miss_count
    }

    /// An empty cache in `cache_dir` whose memory layer holds up to
    /// `max_l1_mb` megabytes.
    pub fn new(cache_dir: &str, max_l1_mb: usize) -> (r: Result<Self, &'static str>)
        requires
            max_l1_mb * 1024 * 1024 <= usize::MAX,
        ensures
            r matches Ok(c) && c.entries().len() == 0 && c.dir() == cache_dir@ && c.max_size()
                == max_l1_mb * 1024 * 1024 && c.hits() == 0 && c.misses() == 0,
    {
        Ok(MultiLayerCache {
            l1_cache: Vec::new(),
            l2_cache: cache_dir.to_owned(),
            max_l1_size: max_l1_mb * 1024 * 1024,
            hit_count: 0,
            miss_count: 0,
        })
    }

    /// The name of the disk file for `key`: its UTF-8 bytes in Base64, then `.cache`.
    pub fn l2_file_name(key: &str) -> (r: String)
        ensures
            r@ == l2_name(key@),
    {
        let mut name = base64_encode(key.as_bytes());
        name.append(".cache");
        name
    }

    /// Index of the entry stored under `key`.
    fn find_key(&self, key: &str) -> (r: Option<usize>)
        ensures
            match r {
                Some(i) => i as int == key_index(self.entries(), key@) && i < self.entries().len(),
                None => key_index(self.entries(), key@) == -1,
            },
    {
        let ghost es = self.entries();
        let mut i: usize = 0;
        while i < self.l1_cache.len()
            invariant
                es == self.entries(),
                es.len() == self.l1_cache@.len(),
                i <= es.len(),
                key_index(es, key@) == key_index_from(es, key@, i as int),
            decreases self.l1_cache.len() - i,
        {
            if str_eq(self.l1_cache[i].key.as_str(), key) {
                return Some(i);
            }
            i = i + 1;
        }
        None
    }

    /// Whether `entry` has expired at `now`.
    fn is_expired(&self, entry: &CacheEntry, now: u64) -> (b: bool)
        ensures
            b == expired(entry@, now),
    {
        match entry.expires_at {
            Some(exp) => now > exp,
            None => false,
        }
    }

    /// Looks `key` up in the memory layer at the current time, as `get_at`
    /// does at that time.
    pub fn get(&mut self, key: &str) -> (r: CacheRead)
        ensures
            exists|t: u64| #[trigger] lookup(old(self).entries(), key@, t, r, old(self).hits(), final(self).hits()),
            final(self).misses() == old(self).misses(),
            final(self).entries() == old(self).entries(),
            final(self).dir() == old(self).dir(),
            final(self).max_size() == old(self).max_size(),
    {
        let t = now();
        self.get_at(key, t)
    }

    /// Looks `key` up in the memory layer at time `now`: a live entry is a
    /// hit (and counted); otherwise the disk file for the key is to be read.
    pub fn get_at(&mut self, key: &str, now: u64) -> (r: CacheRead)
        ensures
            lookup(old(self).entries(), key@, now, r, old(self).hits(), final(self).hits()),
            final(self).misses() == old(self).misses(),
            final(self).entries() == old(self).entries(),
            final(self).dir() == old(self).dir(),
            final(self).max_size() == old(self).max_size(),
    {
        if let Some(i) = self.find_key(key) {
            let live = !self.is_expired(&self.l1_cache[i], now);
            if live {
                let data = copy_bytes(&self.l1_cache[i].data);
                self.hit_count = self.hit_count.wrapping_add(1);
                return CacheRead::Hit(data);
            }
        }
        CacheRead::ReadDisk(Self::l2_file_name(key))
    }

    /// Counts the outcome of reading the disk file of `key` at the current
    /// time and promotes data found there into the memory layer; see
    /// `record_disk_read_at`.
    pub fn record_disk_read(&mut self, key: &str, data: Option<Vec<u8>>) -> (r: Option<Vec<u8>>)
        ensures
            r == data,
            data is Some ==> final(self).hits() == old(self).hits().wrapping_add(1)
                && final(self).misses() == old(self).misses(),
            data is None ==> final(self).misses() == old(self).misses().wrapping_add(1)
                && final(self).hits() == old(self).hits() && final(self).entries() == old(self).entries(),
            data matches Some(d) ==> exists|t: u64|
                final(self).entries() == evict(
                    insert_entry(old(self).entries(), promoted(key@, d@, t)),
                    old(self).max_size(),
                ),
            final(self).dir() == old(self).dir(),
            final(self).max_size() == old(self).max_size(),
    {
        let t = now();
        self.record_disk_read_at(key, data, t)
    }

    /// Counts the outcome of reading the disk file of `key` (a hit when it
    /// held data, a miss otherwise) and passes the data on. Data found on
    /// disk is promoted into the memory layer at time `now`, as `promote_to_l1`
    /// does.
    pub fn record_disk_read_at(&mut self, key: &str, data: Option<Vec<u8>>, now: u64) -> (r: Option<Vec<u8>>)
        ensures
            r == data,
            data is Some ==> final(self).hits() == old(self).hits().wrapping_add(1)
                && final(self).misses() == old(self).misses(),
            data is None ==> final(self).misses() == old(self).misses().wrapping_add(1)
                && final(self).hits() == old(self).hits(),
            final(self).entries() == match data {
                Some(d) => evict(insert_entry(old(self).entries(), promoted(key@, d@, now)), old(self).max_size()),
                None => old(self).entries(),
            },
            final(self).dir() == old(self).dir(),
            final(self).max_size() == old(self).max_size(),
    {
        match data {
            Some(d) => {
                self.hit_count = self.hit_count.wrapping_add(1);
                self.promote_to_l1(key.to_owned(), copy_bytes(&d), now);
                Some(d)
            },
            None => {
                self.miss_count = self.miss_count.wrapping_add(1);
                None
            },
        }
    }

    /// Stores `data` under `key` at the current time; see `set_at`.
    pub fn set(&mut self, key: String, data: Vec<u8>, priority: CachePriority, ttl_secs: Option<u64>) -> (w: Option<DiskWrite>)
        ensures
            exists|t: u64|
                final(self).entries() == evict(
                    insert_entry(
                        old(self).entries(),
                        (EntryView { key: key@, data: data@, timestamp: t, priority, expires_at: expiry(ttl_secs, t) }),
                    ),
                    old(self).max_size(),
                ),
            persisted(priority) <==> w is Some,
            w matches Some(dw) ==> dw.file_name@ == l2_name(key@) && dw.data@ == data@,
            final(self).hits() == old(self).hits(),
            final(self).misses() == old(self).misses(),
            final(self).dir() == old(self).dir(),
            final(self).max_size() == old(self).max_size(),
    {
        let t = now();
        self.set_at(key, data, priority, ttl_secs, t)
    }

    /// Stores `data` under `key` at time `now` in the memory layer (replacing
    /// what the key held), expiring `ttl_secs` later if given; then, when the
    /// memory layer exceeds its limit, evicts the ten lowest-priority entries
    /// (in storage order among equal priorities). High and critical entries
    /// are also to be written to disk: the write is returned.
    pub fn set_at(
        &mut self,
        key: String,
        data: Vec<u8>,
        priority: CachePriority,
        ttl_secs: Option<u64>,
        now: u64,
    ) -> (w: Option<DiskWrite>)
        ensures
            final(self).entries() == evict(
                insert_entry(
                    old(self).entries(),
                    (EntryView { key: key@, data: data@, timestamp: now, priority, expires_at: expiry(ttl_secs, now) }),
                ),
                old(self).max_size(),
            ),
            persisted(priority) <==> w is Some,
            w matches Some(dw) ==> dw.file_name@ == l2_name(key@) && dw.data@ == data@,
            final(self).hits() == old(self).hits(),
            final(self).misses() == old(self).misses(),
            final(self).dir() == old(self).dir(),
            final(self).max_size() == old(self).max_size(),
    {
        let expires_at = match ttl_secs {
            Some(ttl) => Some(now.saturating_add(ttl)),
            None => None,
        };
        let persist = match priority {
            CachePriority::High | CachePriority::Critical => true,
            _ => false,
        };
        let w = if persist {
            Some(DiskWrite { file_name: Self::l2_file_name(key.as_str()), data: copy_bytes(&data) })
        } else {
            None
        };
        let entry = CacheEntry { key, data, timestamp: now, priority, expires_at };
        self.insert(entry);
        self.evict_if_needed();
        w
    }

    /// Stores `entry`, replacing the entry under its key.
    fn insert(&mut self, entry: CacheEntry)
        ensures
            final(self).entries() == insert_entry(old(self).entries(), entry@),
            final(self).hits() == old(self).hits(),
            final(self).misses() == old(self).misses(),
            final(self).dir() == old(self).dir(),
            final(self).max_size() == old(self).max_size(),
    {
        match self.find_key(entry.key.as_str()) {
            Some(i) => {
                self.l1_cache.set(i, entry);
                assert(self.entries() =~= insert_entry(old(self).entries(), entry@));
            },
            None => {
                self.l1_cache.push(entry);
                assert(self.entries() =~= insert_entry(old(self).entries(), entry@));
            },
        }
    }

    /// Total size of the data in the memory layer.
    fn current_size(&self) -> (r: u128)
        ensures
            r == total_size(self.entries()),
    {
        let ghost es = self.entries();
        let mut acc: u128 = 0;
        let mut i: usize = 0;
        while i < self.l1_cache.len()
            invariant
                es == self.entries(),
                es.len() == self.l1_cache@.len(),
                i <= es.len(),
                acc == total_size(es.subrange(0, i as int)),
                acc <= i * (usize::MAX as int),
            decreases self.l1_cache.len() - i,
        {
            proof {
                assert(es.subrange(0, i + 1).drop_last() =~= es.subrange(0, i as int));
            }
            acc = acc + self.l1_cache[i].data.len() as u128;
            i = i + 1;
        }
        assert(es.subrange(0, es.len() as int) =~= es);
        acc
    }

    /// Evicts the ten lowest-ranked entries when the memory layer exceeds its limit.
    fn evict_if_needed(&mut self)
        ensures
            final(self).entries() == evict(old(self).entries(), old(self).max_size()),
            final(self).hits() == old(self).hits(),
            final(self).misses() == old(self).misses(),
            final(self).dir() == old(self).dir(),
            final(self).max_size() == old(self).max_size(),
    {
        let size = self.current_size();
        if size > self.max_l1_size as u128 {
            let vs = self.victim_indices();
            let kept = self.entries_without(&vs);
            self.l1_cache = kept;
            assert(self.entries() =~= without(old(self).entries(), victims(old(self).entries())));
        }
    }

    /// The indices of the entries an eviction removes.
    fn victim_indices(&self) -> (r: Vec<usize>)
        ensures
            r@.map_values(|i: usize| i as int) == victims(self.entries()),
    {
        let ghost es = self.entries();
        let n = self.l1_cache.len();
        let mut out: Vec<usize> = Vec::new();
        let ghost mut done: Seq<int> = Seq::empty();
        let mut r: u8 = 0;
        while r < 4
            invariant
                es == self.entries(),
                es.len() == self.l1_cache@.len(),
                n == es.len(),
                r <= 4,
                done == (if r == 0 {
                    Seq::<int>::empty()
                } else if r == 1 {
                    rank_indices(es, 0)
                } else if r == 2 {
                    rank_indices(es, 0) + rank_indices(es, 1)
                } else if r == 3 {
                    rank_indices(es, 0) + rank_indices(es, 1) + rank_indices(es, 2)
                } else {
                    eviction_order(es)
                }),
                out@.map_values(|i: usize| i as int) == prefix(done, EVICTION_BATCH as int),
            decreases 4 - r,
        {
            let ghost p = |i: int| rank(es[i].priority) == r as nat;
            let ghost base = done;
            let mut i: usize = 0;
            assert(indices(n as nat).subrange(0, 0) =~= Seq::<int>::empty());
            assert(base + keep(indices(n as nat).subrange(0, 0), p) =~= base);
            while i < n
                invariant
                    es == self.entries(),
                es.len() == self.l1_cache@.len(),
                    n == es.len(),
                    r < 4,
                    p == (|i: int| rank(es[i].priority) == r as nat),
                    i <= n,
                    done == base + keep(indices(n as nat).subrange(0, i as int), p),
                    out@.map_values(|i: usize| i as int) == prefix(done, EVICTION_BATCH as int),
                decreases n - i,
            {
                proof {
                    lemma_keep_step(indices(n as nat), p, i as int);
                    lemma_prefix_push(done, i as int, EVICTION_BATCH as int);
                }
                let pr = rank_exec(&self.l1_cache[i].priority);
                if pr == r {
                    if out.len() < EVICTION_BATCH {
                        proof {
                            assert(prefix(done, EVICTION_BATCH as int) =~= done);
                        }
                        out.push(i);
                    } else {
                        proof {
                            assert(prefix(done, EVICTION_BATCH as int).len() == EVICTION_BATCH);
                        }
                    }
                    proof {
                        assert(base + keep(indices(n as nat).subrange(0, i as int), p).push(i as int)
                            =~= done.push(i as int));
                        done = done.push(i as int);
                    }
                }
                proof {
                    assert(out@.map_values(|i: usize| i as int) =~= prefix(done, EVICTION_BATCH as int)) by {
                        if pr == r && out.len() <= EVICTION_BATCH {
                        }
                    }
                }
                i = i + 1;
            }
            assert(indices(n as nat).subrange(0, n as int) =~= indices(n as nat));
            r = r + 1;
        }
        out
    }

    /// The entries whose indices are not in `vs`, in storage order.
    fn entries_without(&self, vs: &Vec<usize>) -> (r: Vec<CacheEntry>)
        ensures
            r@.map_values(|e: CacheEntry| e@) == without(self.entries(), vs@.map_values(|i: usize| i as int)),
    {
        let ghost es = self.entries();
        let ghost vi = vs@.map_values(|i: usize| i as int);
        let ghost p = |i: int| !vi.contains(i);
        let n = self.l1_cache.len();
        let mut out: Vec<CacheEntry> = Vec::new();
        let mut i: usize = 0;
        assert(indices(n as nat).subrange(0, 0) =~= Seq::<int>::empty());
        while i < n
            invariant
                es == self.entries(),
                es.len() == self.l1_cache@.len(),
                n == es.len(),
                vi == vs@.map_values(|i: usize| i as int),
                p == (|i: int| !vi.contains(i)),
                i <= n,
                out@.map_values(|e: CacheEntry| e@) == keep(indices(n as nat).subrange(0, i as int), p).map_values(|k: int| es[k]),
            decreases n - i,
        {
            proof {
                lemma_keep_step(indices(n as nat), p, i as int);
            }
            let mut j: usize = 0;
            let mut found = false;
            while j < vs.len()
                invariant
                    vi == vs@.map_values(|i: usize| i as int),
                    j <= vs@.len(),
                    found <==> exists|k: int| 0 <= k < j && vi[k] == i as int,
                decreases vs.len() - j,
            {
                assert(vi[j as int] == vs@[j as int] as int);
                if vs[j] == i {
                    found = true;
                }
                j = j + 1;
            }
            proof {
                if found {
                    let k = choose|k: int| 0 <= k < vs@.len() && vi[k] == i as int;
                    assert(vi.contains(i as int));
                } else {
                    assert(!vi.contains(i as int));
                }
            }
            let ghost before = out@.map_values(|e: CacheEntry| e@);
            if !found {
                let e = self.l1_cache[i].clone_entry();
                out.push(e);
                assert(es[i as int] == self.l1_cache@[i as int]@);
                assert(out@.map_values(|e: CacheEntry| e@) =~= before.push(es[i as int]));
                assert(out@.map_values(|e: CacheEntry| e@) =~= keep(indices(n as nat).subrange(0, i + 1), p).map_values(|k: int| es[k]));
            } else {
                assert(out@.map_values(|e: CacheEntry| e@) =~= keep(indices(n as nat).subrange(0, i + 1), p).map_values(|k: int| es[k]));
            }
            i = i + 1;
        }
        assert(indices(n as nat).subrange(0, n as int) =~= indices(n as nat));
        out
    }

    /// Promotes `data`, read from the disk file of `key`, into the memory
    /// layer at time `now`: it is stored under `key` (replacing what the key
    /// held) as a high-priority entry without expiry (only high and critical
    /// entries are written to disk), then the layer is held to its limit as
    /// `set_at` does.
    fn promote_to_l1(&mut self, key: String, data: Vec<u8>, now: u64)
        ensures
            final(self).entries() == evict(
                insert_entry(old(self).entries(), promoted(key@, data@, now)),
                old(self).max_size(),
            ),
            final(self).hits() == old(self).hits(),
            final(self).misses() == old(self).misses(),
            final(self).dir() == old(self).dir(),
            final(self).max_size() == old(self).max_size(),
    {
        let entry = CacheEntry { key, data, timestamp: now, priority: CachePriority::High, expires_at: None };
        self.insert(entry);
        self.evict_if_needed();
    }

    /// Lookups that found data, in total.
    pub fn hit_count(&self) -> (r: u64)
        ensures
            r == self.hits(),
    {
        self.hit_count
    }

    /// Lookups that found nothing, in total.
    pub fn miss_count(&self) -> (r: u64)
        ensures
            r == self.misses(),
    {
        self.miss_count
    }

    /// Empties the memory layer (the caller empties the cache directory).
    pub fn clear(&mut self)
        ensures
            final(self).entries().len() == 0,
            final(self).hits() == old(self).hits(),
            final(self).misses() == old(self).misses(),
            final(self).dir() == old(self).dir(),
            final(self).max_size() == old(self).max_size(),
    {
        self.l1_cache.clear();
    }

    /// The cache directory.
    pub fn cache_dir(&self) -> (r: &String)
        ensures
            r@ == self.dir(),
    {
        &self.l2_cache
    }
}

impl CacheEntry {
    /// A copy of the entry.
    pub fn clone_entry(&self) -> (r: Self)
        ensures
            r.key == self.key,
            r.data@ == self.data@,
            r.timestamp == self.timestamp,
            r.priority == self.priority,
            r.expires_at == self.expires_at,
    {
        let priority = match self.priority {
            CachePriority::Low => CachePriority::Low,
            CachePriority::Normal => CachePriority::Normal,
            CachePriority::High => CachePriority::High,
            CachePriority::Critical => CachePriority::Critical,
        };
        CacheEntry {
            key: self.key.clone(),
            data: copy_bytes(&self.data),
            timestamp: self.timestamp,
            priority,
            expires_at: self.expires_at,
        }
    }
}

/// What `key_index_from` reports: the first index at or after `i` holding key `k`.
proof fn lemma_key_index(es: Seq<EntryView>, k: Seq<char>, i: int)
    requires
        0 <= i <= es.len(),
    ensures
        key_index_from(es, k, i) == -1 ==> forall|m: int| i <= m < es.len() ==> es[m].key != k,
        key_index_from(es, k, i) != -1 ==> i <= key_index_from(es, k, i) < es.len() && es[key_index_from(
            es,
            k,
            i,
        )].key == k && forall|m: int| i <= m < key_index_from(es, k, i) ==> es[m].key != k,
    decreases es.len() - i,
{
    if i < es.len() && es[i].key != k {
        lemma_key_index(es, k, i + 1);
    }
}

/// The first index holding key `k` is found by `key_index`.
proof fn lemma_key_index_first(es: Seq<EntryView>, k: Seq<char>, j: int)
    requires
        0 <= j < es.len(),
        es[j].key == k,
        forall|m: int| 0 <= m < j ==> es[m].key != k,
    ensures
        key_index(es, k) == j,
{
    lemma_key_index(es, k, 0);
    let f = key_index(es, k);
    if f == -1 {
        assert(es[j].key != k);
    } else if f < j {
        assert(es[f].key != k);
    } else if f > j {
        assert(es[j].key != k);
    }
}

/// Data stored in the memory layer is what a lookup of its key then finds,
/// as long as storing it did not push the layer over its size limit.
pub proof fn law_stored_entry_is_read(es: Seq<EntryView>, e: EntryView, max: nat)
    requires
        total_size(insert_entry(es, e)) <= max,
    ensures
        ({
            let r = evict(insert_entry(es, e), max);
            let i = key_index(r, e.key);
            0 <= i < r.len() && r[i] == e
        }),
{
    let r = insert_entry(es, e);
    lemma_key_index(es, e.key, 0);
    let j = key_index(es, e.key);
    if j >= 0 {
        assert forall|m: int| 0 <= m < j implies r[m].key != e.key by {
            assert(r[m] == es[m]);
        }
        lemma_key_index_first(r, e.key, j);
    } else {
        let n = es.len() as int;
        assert forall|m: int| 0 <= m < n implies r[m].key != e.key by {
            assert(r[m] == es[m]);
        }
        lemma_key_index_first(r, e.key, n);
    }
}

} // verus!
