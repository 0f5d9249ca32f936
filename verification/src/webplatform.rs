//! Web platform services: an object-store database, service-worker
//! registrations and response caches, a WASI environment, GPU buffers,
//! real-time channels, developer-tools breakpoints, and request blocking.
use vstd::prelude::*;
use std::collections::VecDeque;
use crate::assoc::{assoc_find, assoc_insert, assoc_map, assoc_replace, entries_view};

verus! {

// ---------------------------------------------------------------------------
// IndexedDB
// ---------------------------------------------------------------------------

/// An index of an object store.
pub struct Index {
    pub name: String,
    pub key_path: String,
    pub unique: bool,
    pub multi_entry: bool,
}

/// A store of records, by key.
pub struct ObjectStore {
    pub name: String,
    pub key_path: Option<String>,
    pub auto_increment: bool,
    pub indexes: Vec<(String, Index)>,
    pub records: Vec<(String, Vec<u8>)>,
}

impl ObjectStore {
    /// The stored records' bytes, by key.
    pub open spec fn records(self) -> Map<Seq<char>, Vec<u8>> {
        assoc_map(entries_view(self.records@))
    }
}

/// A database: its version and object stores.
pub struct IndexedDatabase {
    pub name: String,
    pub version: u32,
    pub object_stores: Vec<(String, ObjectStore)>,
}

impl IndexedDatabase {
    /// The object stores, by name.
    pub open spec fn stores(self) -> Map<Seq<char>, ObjectStore> {
        assoc_map(entries_view(self.object_stores@))
    }
}

/// Whether database `db` holds a store `store`.
pub open spec fn has_store(dbs: Map<Seq<char>, IndexedDatabase>, db: Seq<char>, store: Seq<char>) -> bool {
    dbs.contains_key(db) && dbs[db].stores().contains_key(store)
}

/// The bytes stored under `key` in `store` of `db`, if any.
pub open spec fn record_in(dbs: Map<Seq<char>, IndexedDatabase>, db: Seq<char>, store: Seq<char>, key: Seq<char>) -> Option<Seq<u8>> {
    if has_store(dbs, db, store) && dbs[db].stores()[store].records().contains_key(key) {
        Some(dbs[db].stores()[store].records()[key]@)
    } else {
        None
    }
}

/// What a `put` of `value` under `key` in `store` of `db` leaves: that
/// record changed when the store exists, everything else as it was.
pub open spec fn put_outcome(
    before: Map<Seq<char>, IndexedDatabase>,
    after: Map<Seq<char>, IndexedDatabase>,
    db: Seq<char>,
    store: Seq<char>,
    key: Seq<char>,
    value: Seq<u8>,
) -> bool {
    &&& forall|d: Seq<char>, s: Seq<char>| has_store(after, d, s) == has_store(before, d, s)
    &&& forall|d: Seq<char>, s: Seq<char>, k: Seq<char>|
        #[trigger] record_in(after, d, s, k) == if has_store(before, db, store) && d == db && s == store && k
            == key {
            Some(value)
        } else {
            record_in(before, d, s, k)
        }
}

/// Databases of object stores, by name.
pub struct IndexedDbManager {
    databases: Vec<(String, IndexedDatabase)>,
}

impl IndexedDbManager {
    /// The databases, by name.
    pub closed spec fn databases(self) -> Map<Seq<char>, IndexedDatabase> {
        assoc_map(entries_view(self.databases@))
    }

    /// A manager with no database.
    pub fn new() -> (r: Self)
        ensures
            r.databases() == Map::<Seq<char>, IndexedDatabase>::empty(),
    {
        IndexedDbManager { databases: Vec::new() }
    }

    /// Opens database `name` at `version`, empty, replacing one of that name.
    pub fn open(&mut self, name: &str, version: u32) -> (r: Result<(), String>)
        ensures
            r is Ok,
            final(self).databases().dom() == old(self).databases().dom().insert(name@),
            final(self).databases()[name@].name@ == name@,
            final(self).databases()[name@].version == version,
            final(self).databases()[name@].stores() == Map::<Seq<char>, ObjectStore>::empty(),
            forall|d: Seq<char>| d != name@ ==> #[trigger] final(self).databases()[d] == old(self).databases()[d],
    {
        let db = IndexedDatabase { name: name.to_owned(), version, object_stores: Vec::new() };
        assert(db.stores() =~= Map::<Seq<char>, ObjectStore>::empty());
        assoc_insert(&mut self.databases, name.to_owned(), db);
        Ok(())
    }

    /// Creates an empty store `store_name` in database `db_name`, replacing
    /// one of that name; records auto-increment when there is no key path.
    /// Nothing changes when the database does not exist.
    pub fn create_object_store(&mut self, db_name: &str, store_name: &str, key_path: Option<&str>)
        ensures
            !old(self).databases().contains_key(db_name@) ==> final(self).databases() == old(self).databases(),
            old(self).databases().contains_key(db_name@) ==> {
                let before = old(self).databases()[db_name@];
                let after = final(self).databases()[db_name@];
                &&& final(self).databases().dom() == old(self).databases().dom()
                &&& forall|d: Seq<char>| d != db_name@ ==> #[trigger] final(self).databases()[d]
                    == old(self).databases()[d]
                &&& after.name == before.name
                &&& after.version == before.version
                &&& after.stores().dom() == before.stores().dom().insert(store_name@)
                &&& forall|s: Seq<char>| s != store_name@ ==> #[trigger] after.stores()[s] == before.stores()[s]
                &&& after.stores()[store_name@].name@ == store_name@
                &&& after.stores()[store_name@].auto_increment == (key_path is None)
                &&& after.stores()[store_name@].records() == Map::<Seq<char>, Vec<u8>>::empty()
            },
    {
        match assoc_find(&self.databases, db_name) {
            None => {},
            Some(i) => {
                let kp = match key_path {
                    Some(k) => Some(k.to_owned()),
                    None => None,
                };
                let store = ObjectStore {
                    name: store_name.to_owned(),
                    key_path: kp,
                    auto_increment: key_path.is_none(),
                    indexes: Vec::new(),
                    records: Vec::new(),
                };
                assert(store.records() =~= Map::<Seq<char>, Vec<u8>>::empty());
                let placeholder = IndexedDatabase { name: String::new(), version: 0, object_stores: Vec::new() };
                let mut db = assoc_replace(&mut self.databases, i, placeholder);
                assoc_insert(&mut db.object_stores, store_name.to_owned(), store);
                assoc_replace(&mut self.databases, i, db);
            },
        }
    }

    /// Stores `value` under `key` in store `store_name` of database
    /// `db_name`; nothing changes when either does not exist.
    pub fn put(&mut self, db_name: &str, store_name: &str, key: &str, value: &[u8])
        ensures
            put_outcome(old(self).databases(), final(self).databases(), db_name@, store_name@, key@, value@),
    {
        match assoc_find(&self.databases, db_name) {
            None => {
                assert(put_outcome(old(self).databases(), self.databases(), db_name@, store_name@, key@, value@));
            },
            Some(i) => {
                match assoc_find(&self.databases[i].1.object_stores, store_name) {
                    None => {
                        assert(put_outcome(old(self).databases(), self.databases(), db_name@, store_name@, key@, value@));
                    },
                    Some(j) => {
                        let ghost dbs0 = self.databases();
                        let placeholder = IndexedDatabase { name: String::new(), version: 0, object_stores: Vec::new() };
                        let mut db = assoc_replace(&mut self.databases, i, placeholder);
                        let ghost stores0 = db.stores();
                        let empty_store = ObjectStore {
                            name: String::new(),
                            key_path: None,
                            auto_increment: false,
                            indexes: Vec::new(),
                            records: Vec::new(),
                        };
                        let mut store = assoc_replace(&mut db.object_stores, j, empty_store);
                        let ghost recs0 = store.records();
                        let bytes = vstd::slice::slice_to_vec(value);
                        assoc_insert(&mut store.records, key.to_owned(), bytes);
                        assoc_replace(&mut db.object_stores, j, store);
                        assoc_replace(&mut self.databases, i, db);
                        proof {
                            let dbs1 = self.databases();
                            assert(dbs1 == dbs0.insert(db_name@, db));
                            assert(db.stores() == stores0.insert(store_name@, store));
                            assert(store.records() == recs0.insert(key@, bytes));
                            assert forall|d: Seq<char>, s: Seq<char>| has_store(dbs1, d, s) == has_store(dbs0, d, s) by {
                                if d == db_name@ {
                                    assert(dbs1[d] == db);
                                }
                            }
                            assert forall|d: Seq<char>, s: Seq<char>, k: Seq<char>|
                                #[trigger] record_in(dbs1, d, s, k) == if has_store(dbs0, db_name@, store_name@) && d
                                    == db_name@ && s == store_name@ && k == key@ {
                                    Some(value@)
                                } else {
                                    record_in(dbs0, d, s, k)
                                } by {
                                if d == db_name@ {
                                    assert(dbs1[d] == db);
                                    if s == store_name@ {
                                        assert(db.stores()[s] == store);
                                    }
                                }
                            }
                        }
                    },
                }
            },
        }
    }

    /// The bytes stored under `key` in store `store_name` of database `db_name`.
    pub fn get(&self, db_name: &str, store_name: &str, key: &str) -> (r: Option<Vec<u8>>)
        ensures
            match r {
                Some(v) => record_in(self.databases(), db_name@, store_name@, key@) == Some(v@),
                None => record_in(self.databases(), db_name@, store_name@, key@) is None,
            },
    {
        let i = assoc_find(&self.databases, db_name)?;
        let db = &self.databases[i].1;
        let j = assoc_find(&db.object_stores, store_name)?;
        let store = &db.object_stores[j].1;
        let k = assoc_find(&store.records, key)?;
        Some(store.records[k].1.clone())
    }
}

/// A record put into an existing store is what a later read of its key returns.
pub proof fn law_put_then_get(
    before: Map<Seq<char>, IndexedDatabase>,
    after: Map<Seq<char>, IndexedDatabase>,
    db: Seq<char>,
    store: Seq<char>,
    key: Seq<char>,
    value: Seq<u8>,
)
    requires
        put_outcome(before, after, db, store, key, value),
        has_store(before, db, store),
    ensures
        record_in(after, db, store, key) == Some(value),
{
    assert(record_in(after, db, store, key) == Some(value));
}

// ---------------------------------------------------------------------------
// Identifiers and the clock
// ---------------------------------------------------------------------------

/// A fresh random identifier: `uuid::Uuid::new_v4` in its text form.
/// Nothing is promised of the value: it is random.
#[verifier::external_body]
pub(crate) fn new_uuid() -> (id: String) {
    uuid::Uuid::new_v4().to_string()
}

/// The current time in seconds since the Unix epoch, as chrono reads the
/// system clock: `chrono::DateTime::<Utc>::from(SystemTime::now())`, then
/// `timestamp()`. Unlike `chrono::Utc::now`, which panics when the clock
/// reads before 1970, this conversion gives a negative count there. Nothing
/// is promised of the value: it depends on the clock.
#[verifier::external_body]
pub(crate) fn utc_timestamp() -> (t: i64) {
    chrono::DateTime::<chrono::Utc>::from(std::time::SystemTime::now()).timestamp()
}

/// The bytes `data`, appended to `v`.
fn append_bytes(v: &mut Vec<u8>, data: &[u8])
    ensures
        final(v)@ == old(v)@ + data@,
{
    let mut i: usize = 0;
    while i < data.len()
        invariant
            i <= data@.len(),
            v@ == old(v)@ + data@.subrange(0, i as int),
        decreases data.len() - i,
    {
        v.push(data[i]);
        i = i + 1;
        assert(v@ =~= old(v)@ + data@.subrange(0, i as int));
    }
    assert(data@.subrange(0, data@.len() as int) =~= data@);
}

// ---------------------------------------------------------------------------
// Service workers and response caches
// ---------------------------------------------------------------------------

/// A service worker script and its state.
pub struct ServiceWorker {
    pub script_url: String,
    pub state: String,
    pub event_listeners: Vec<(String, Vec<String>)>,
}

/// The service workers registered for a scope.
pub struct ServiceWorkerRegistration {
    pub scope: String,
    pub active: Option<ServiceWorker>,
    pub waiting: Option<ServiceWorker>,
    pub installing: Option<ServiceWorker>,
    pub update_via_cache: String,
}

/// A cached response.
pub struct CachedResponse {
    pub url: String,
    pub status: u16,
    pub headers: Vec<(String, String)>,
    pub body: Vec<u8>,
    pub timestamp: u64,
}

/// A cached response with its strings and bytes taken as sequences.
pub struct ResponseView {
    pub url: Seq<char>,
    pub status: u16,
    pub headers: Seq<(Seq<char>, Seq<char>)>,
    pub body: Seq<u8>,
    pub timestamp: u64,
}

/// A list of string pairs taken as character sequences.
pub open spec fn pairs_view(v: Seq<(String, String)>) -> Seq<(Seq<char>, Seq<char>)> {
    v.map_values(|p: (String, String)| (p.0@, p.1@))
}

impl View for CachedResponse {
    type V = ResponseView;

    open spec fn view(&self) -> ResponseView {
        ResponseView {
            url: self.url@,
            status: self.status,
            headers: pairs_view(self.headers@),
            body: self.body@,
            timestamp: self.timestamp,
        }
    }
}

/// A copy of a list of string pairs.
fn copy_pairs(v: &Vec<(String, String)>) -> (r: Vec<(String, String)>)
    ensures
        pairs_view(r@) == pairs_view(v@),
{
    let mut r: Vec<(String, String)> = Vec::new();
    let mut i: usize = 0;
    while i < v.len()
        invariant
            i <= v@.len(),
            pairs_view(r@) == pairs_view(v@.subrange(0, i as int)),
        decreases v.len() - i,
    {
        let a = v[i].0.clone();
        let b = v[i].1.clone();
        let ghost before = r@;
        r.push((a, b));
        proof {
            assert(r@ == before.push((a, b)));
            assert(pairs_view(r@) =~= pairs_view(before).push((v@[i as int].0@, v@[i as int].1@)));
            assert(v@.subrange(0, i + 1) =~= v@.subrange(0, i as int).push(v@[i as int]));
            assert(pairs_view(v@.subrange(0, i + 1)) =~= pairs_view(v@.subrange(0, i as int)).push(
                (v@[i as int].0@, v@[i as int].1@),
            ));
        }
        i = i + 1;
    }
    assert(v@.subrange(0, v@.len() as int) =~= v@);
    r
}

impl CachedResponse {
    /// A copy of the response.
    pub fn duplicate(&self) -> (r: Self)
        ensures
            r@ == self@,
    {
        CachedResponse {
            url: self.url.clone(),
            status: self.status,
            headers: copy_pairs(&self.headers),
            body: self.body.clone(),
            timestamp: self.timestamp,
        }
    }
}

/// A named cache of responses, by request URL.
pub struct Cache {
    pub name: String,
    pub responses: Vec<(String, CachedResponse)>,
}

/// The caches of one cache storage, by name.
pub struct CacheStorage {
    pub caches: Vec<(String, Cache)>,
}

/// A request to send later.
pub struct HttpRequest {
    pub url: String,
    pub method: String,
    pub headers: Vec<(String, String)>,
    pub body: Option<Vec<u8>>,
}

/// A request queued for background synchronisation.
pub struct BackgroundSyncTask {
    pub tag: String,
    pub request: HttpRequest,
    pub retry_count: u32,
    pub last_attempt: u64,
}

/// The response cached under `url` in cache `name` of storage `name`.
pub open spec fn cached_in(storages: Map<Seq<char>, CacheStorage>, name: Seq<char>, url: Seq<char>) -> Option<ResponseView> {
    if storages.contains_key(name) {
        let caches = assoc_map(entries_view(storages[name].caches@));
        if caches.contains_key(name) {
            let responses = assoc_map(entries_view(caches[name].responses@));
            if responses.contains_key(url) {
                Some(responses[url]@)
            } else {
                None
            }
        } else {
            None
        }
    } else {
        None
    }
}

/// Service-worker registrations, response caches and the background-sync queue.
pub struct ServiceWorkerManager {
    registrations: Vec<(String, ServiceWorkerRegistration)>,
    cache_storages: Vec<(String, CacheStorage)>,
    background_sync_queue: VecDeque<BackgroundSyncTask>,
}

impl ServiceWorkerManager {
    /// The registrations, by scope.
    pub closed spec fn registrations(self) -> Map<Seq<char>, ServiceWorkerRegistration> {
        assoc_map(entries_view(self.registrations@))
    }

    /// The cache storages, by name.
    pub closed spec fn storages(self) -> Map<Seq<char>, CacheStorage> {
        assoc_map(entries_view(self.cache_storages@))
    }

    /// The queued background-sync tasks, oldest first.
    pub closed spec fn queue(self) -> Seq<BackgroundSyncTask> {
        self.background_sync_queue@
    }

    /// A manager with no registration, cache or queued task.
    pub fn new() -> (r: Self)
        ensures
            r.registrations() == Map::<Seq<char>, ServiceWorkerRegistration>::empty(),
            r.storages() == Map::<Seq<char>, CacheStorage>::empty(),
            r.queue() == Seq::<BackgroundSyncTask>::empty(),
    {
        ServiceWorkerManager { registrations: Vec::new(), cache_storages: Vec::new(), background_sync_queue: VecDeque::new() }
    }

    /// Registers `script_url` for `scope`, installing, replacing a
    /// registration of that scope.
    pub fn register(&mut self, scope: &str, script_url: &str)
        ensures
            final(self).registrations().dom() == old(self).registrations().dom().insert(scope@),
            forall|s: Seq<char>| s != scope@ ==> #[trigger] final(self).registrations()[s] == old(self).registrations()[s],
            ({
                let r = final(self).registrations()[scope@];
                &&& r.scope@ == scope@
                &&& r.active is None
                &&& r.waiting is None
                &&& r.installing matches Some(w) && w.script_url@ == script_url@ && w.state@ == "installing"@
                    && w.event_listeners@.len() == 0
                &&& r.update_via_cache@ == "imports"@
            }),
            final(self).storages() == old(self).storages(),
            final(self).queue() == old(self).queue(),
    {
        let sw = ServiceWorker { script_url: script_url.to_owned(), state: "installing".to_owned(), event_listeners: Vec::new() };
        let registration = ServiceWorkerRegistration {
            scope: scope.to_owned(),
            active: None,
            waiting: None,
            installing: Some(sw),
            update_via_cache: "imports".to_owned(),
        };
        assoc_insert(&mut self.registrations, scope.to_owned(), registration);
    }

    /// Caches `response` for `request_url` in the cache `cache_name`,
    /// creating the cache when needed.
    pub fn cache_put(&mut self, cache_name: &str, request_url: &str, response: CachedResponse)
        ensures
            forall|n: Seq<char>, u: Seq<char>| #[trigger] cached_in(final(self).storages(), n, u) == if n
                == cache_name@ && u == request_url@ {
                Some(response@)
            } else {
                cached_in(old(self).storages(), n, u)
            },
            final(self).registrations() == old(self).registrations(),
            final(self).queue() == old(self).queue(),
    {
        let ghost st0 = self.storages();
        let ghost rv = response@;
        let found = assoc_find(&self.cache_storages, cache_name);
        let mut storage = match found {
            Some(i) => assoc_replace(&mut self.cache_storages, i, CacheStorage { caches: Vec::new() }),
            None => CacheStorage { caches: Vec::new() },
        };
        let ghost caches0 = assoc_map(entries_view(storage.caches@));
        proof {
            if found is None {
                assert(caches0 =~= Map::<Seq<char>, Cache>::empty());
            }
        }
        let cfound = assoc_find(&storage.caches, cache_name);
        let mut cache = match cfound {
            Some(j) => assoc_replace(&mut storage.caches, j, Cache { name: String::new(), responses: Vec::new() }),
            None => Cache { name: cache_name.to_owned(), responses: Vec::new() },
        };
        let ghost resp0 = assoc_map(entries_view(cache.responses@));
        proof {
            if cfound is None {
                assert(resp0 =~= Map::<Seq<char>, CachedResponse>::empty());
            }
        }
        let ghost rsp = response;
        assoc_insert(&mut cache.responses, request_url.to_owned(), response);
        let ghost cache1 = cache;
        match cfound {
            Some(j) => {
                assoc_replace(&mut storage.caches, j, cache);
            },
            None => {
                assoc_insert(&mut storage.caches, cache_name.to_owned(), cache);
            },
        }
        let ghost storage1 = storage;
        match found {
            Some(i) => {
                assoc_replace(&mut self.cache_storages, i, storage);
            },
            None => {
                assoc_insert(&mut self.cache_storages, cache_name.to_owned(), storage);
            },
        }
        proof {
            let st1 = self.storages();
            assert(st1 == st0.insert(cache_name@, storage1));
            assert(assoc_map(entries_view(storage1.caches@)) == caches0.insert(cache_name@, cache1));
            assert(assoc_map(entries_view(cache1.responses@)) == resp0.insert(request_url@, rsp));
            assert(rsp@ == rv);
            assert forall|n: Seq<char>, u: Seq<char>| #[trigger] cached_in(st1, n, u) == if n == cache_name@ && u
                == request_url@ {
                Some(rv)
            } else {
                cached_in(st0, n, u)
            } by {
                if n == cache_name@ {
                    assert(st1[n] == storage1);
                }
            }
        }
    }

    /// The response cached for `request_url` in the cache `cache_name`.
    pub fn cache_match(&self, cache_name: &str, request_url: &str) -> (r: Option<CachedResponse>)
        ensures
            match r {
                Some(resp) => cached_in(self.storages(), cache_name@, request_url@) == Some(resp@),
                None => cached_in(self.storages(), cache_name@, request_url@) is None,
            },
    {
        let i = assoc_find(&self.cache_storages, cache_name)?;
        let storage = &self.cache_storages[i].1;
        let j = assoc_find(&storage.caches, cache_name)?;
        let cache = &storage.caches[j].1;
        let k = assoc_find(&cache.responses, request_url)?;
        Some(cache.responses[k].1.duplicate())
    }

    /// Queues `request` for background synchronisation under `tag`, stamped
    /// with the current time.
    pub fn queue_background_sync(&mut self, tag: &str, request: HttpRequest)
        ensures
            final(self).queue().len() == old(self).queue().len() + 1,
            final(self).queue().subrange(0, old(self).queue().len() as int) == old(self).queue(),
            ({
                let t = final(self).queue().last();
                &&& t.tag@ == tag@
                &&& t.request == request
                &&& t.retry_count == 0
            }),
            final(self).registrations() == old(self).registrations(),
            final(self).storages() == old(self).storages(),
    {
        let now = utc_timestamp();
        let task = BackgroundSyncTask {
            tag: tag.to_owned(),
            request,
            retry_count: 0,
            last_attempt: #[verifier::truncate] (now as u64),
        };
        self.background_sync_queue.push_back(task);
        assert(self.queue().subrange(0, old(self).queue().len() as int) =~= old(self).queue());
    }

    /// Takes every queued task, oldest first, leaving the queue empty.
    pub fn process_background_sync(&mut self) -> (tasks: Vec<BackgroundSyncTask>)
        ensures
            tasks@ == old(self).queue(),
            final(self).queue() == Seq::<BackgroundSyncTask>::empty(),
            final(self).registrations() == old(self).registrations(),
            final(self).storages() == old(self).storages(),
    {
        let mut tasks: Vec<BackgroundSyncTask> = Vec::new();
        let ghost q = self.background_sync_queue@;
        loop
            invariant
                q == old(self).queue(),
                tasks@ + self.background_sync_queue@ == q,
                self.registrations() == old(self).registrations(),
                self.storages() == old(self).storages(),
            ensures
                tasks@ == q,
                self.background_sync_queue@.len() == 0,
                self.registrations() == old(self).registrations(),
                self.storages() == old(self).storages(),
            decreases self.background_sync_queue@.len(),
        {
            match self.background_sync_queue.pop_front() {
                Some(task) => {
                    let ghost rest = self.background_sync_queue@;
                    tasks.push(task);
                    assert(tasks@ + rest =~= q);
                },
                None => {
                    assert(tasks@ =~= q);
                    break;
                },
            }
        }
        assert(tasks@ =~= q);
        tasks
    }
}

/// A response put into a cache is what matching its URL in that cache returns.
pub proof fn law_cache_put_then_match(
    before: Map<Seq<char>, CacheStorage>,
    after: Map<Seq<char>, CacheStorage>,
    name: Seq<char>,
    url: Seq<char>,
    response: ResponseView,
)
    requires
        forall|n: Seq<char>, u: Seq<char>| #[trigger] cached_in(after, n, u) == if n == name && u == url {
            Some(response)
        } else {
            cached_in(before, n, u)
        },
    ensures
        cached_in(after, name, url) == Some(response),
{
    assert(cached_in(after, name, url) == Some(response));
}

// ---------------------------------------------------------------------------
// WASI
// ---------------------------------------------------------------------------

/// The system interface a WebAssembly module sees: preopened directories,
/// environment variables and the three standard streams.
pub struct WasiEnvironment {
    preopens: Vec<(String, String)>,
    env_vars: Vec<(String, String)>,
    stdin_buf: Vec<u8>,
    stdout_buf: Vec<u8>,
    stderr_buf: Vec<u8>,
}

/// The count a WASI call reports for `n` bytes: `n` truncated to 32 bits.
pub open spec fn reported(n: nat) -> u32 {
    (n % 0x1_0000_0000) as u32
}

impl WasiEnvironment {
    /// The preopened directories: guest path and host path.
    pub closed spec fn preopen_list(self) -> Seq<(Seq<char>, Seq<char>)> {
        pairs_view(self.preopens@)
    }

    /// The environment variables: name and value.
    pub closed spec fn env_list(self) -> Seq<(Seq<char>, Seq<char>)> {
        pairs_view(self.env_vars@)
    }

    /// The bytes waiting on standard input.
    pub closed spec fn stdin(self) -> Seq<u8> {
        self.stdin_buf@
    }

    /// The bytes written to standard output.
    pub closed spec fn stdout(self) -> Seq<u8> {
        self.stdout_buf@
    }

    /// The bytes written to standard error.
    pub closed spec fn stderr(self) -> Seq<u8> {
        self.stderr_buf@
    }

    /// An environment with `/` and `/tmp` preopened, the engine and WASI
    /// versions in its environment, and empty streams.
    pub fn new() -> (r: Self)
        ensures
            r.stdin() == Seq::<u8>::empty(),
            r.stdout() == Seq::<u8>::empty(),
            r.stderr() == Seq::<u8>::empty(),
            r.preopen_list() == seq![("/"@, "/"@), ("/tmp"@, "/tmp"@)],
            r.env_list() == seq![("GLYCERIN_VERSION"@, "1.0.0"@), ("WASI_VERSION"@, "preview1"@)],
    {
        let mut preopens: Vec<(String, String)> = Vec::new();
        preopens.push(("/".to_owned(), "/".to_owned()));
        preopens.push(("/tmp".to_owned(), "/tmp".to_owned()));
        let mut env_vars: Vec<(String, String)> = Vec::new();
        env_vars.push(("GLYCERIN_VERSION".to_owned(), "1.0.0".to_owned()));
        env_vars.push(("WASI_VERSION".to_owned(), "preview1".to_owned()));
        assert(pairs_view(preopens@) =~= seq![("/"@, "/"@), ("/tmp"@, "/tmp"@)]);
        assert(pairs_view(env_vars@) =~= seq![("GLYCERIN_VERSION"@, "1.0.0"@), ("WASI_VERSION"@, "preview1"@)]);
        WasiEnvironment { preopens, env_vars, stdin_buf: Vec::new(), stdout_buf: Vec::new(), stderr_buf: Vec::new() }
    }

    /// Writes `buf` to standard output (descriptor 1) or standard error
    /// (descriptor 2) and reports its length; any other descriptor writes
    /// nothing and reports 0.
    pub fn fd_write(&mut self, fd: u32, buf: &[u8]) -> (n: u32)
        ensures
            fd == 1 ==> final(self).stdout() == old(self).stdout() + buf@ && final(self).stderr() == old(self).stderr()
                && n == reported(buf@.len()),
            fd == 2 ==> final(self).stderr() == old(self).stderr() + buf@ && final(self).stdout() == old(self).stdout()
                && n == reported(buf@.len()),
            fd != 1 && fd != 2 ==> n == 0 && final(self).stdout() == old(self).stdout() && final(self).stderr()
                == old(self).stderr(),
            final(self).stdin() == old(self).stdin(),
    {
        if fd == 1 {
            append_bytes(&mut self.stdout_buf, buf);
            ((buf.len() as u64) % 0x1_0000_0000u64) as u32
        } else if fd == 2 {
            append_bytes(&mut self.stderr_buf, buf);
            ((buf.len() as u64) % 0x1_0000_0000u64) as u32
        } else {
            0
        }
    }

    /// Reads from standard input (descriptor 0) into `buf` as many waiting
    /// bytes as fit, removes them from the input and reports how many; with
    /// another descriptor or no waiting input nothing is read and 0 reported.
    pub fn fd_read(&mut self, fd: u32, buf: &mut [u8]) -> (n: u32)
        ensures
            ({
                let waiting = old(self).stdin();
                let len = if old(buf)@.len() < waiting.len() {
                    old(buf)@.len()
                } else {
                    waiting.len()
                };
                if fd == 0 && waiting.len() > 0 {
                    &&& final(buf)@ == waiting.subrange(0, len as int) + old(buf)@.subrange(len as int, old(buf)@.len() as int)
                    &&& final(self).stdin() == waiting.subrange(len as int, waiting.len() as int)
                    &&& n == reported(len)
                } else {
                    &&& final(buf)@ == old(buf)@
                    &&& final(self).stdin() == waiting
                    &&& n == 0
                }
            }),
            final(self).stdout() == old(self).stdout(),
            final(self).stderr() == old(self).stderr(),
    {
        if fd == 0 && self.stdin_buf.len() > 0 {
            let len = if buf.len() < self.stdin_buf.len() {
                buf.len()
            } else {
                self.stdin_buf.len()
            };
            let mut i: usize = 0;
            while i < len
                invariant
                    i <= len,
                    len <= buf@.len(),
                    len <= self.stdin_buf@.len(),
                    self.stdin_buf@ == old(self).stdin_buf@,
                    buf@.len() == old(buf)@.len(),
                    buf@ == self.stdin_buf@.subrange(0, i as int) + old(buf)@.subrange(i as int, old(buf)@.len() as int),
                decreases len - i,
            {
                buf[i] = self.stdin_buf[i];
                i = i + 1;
                assert(buf@ =~= self.stdin_buf@.subrange(0, i as int) + old(buf)@.subrange(i as int, old(buf)@.len() as int));
            }
            let mut rest: Vec<u8> = Vec::new();
            let mut k = len;
            while k < self.stdin_buf.len()
                invariant
                    len <= k <= self.stdin_buf@.len(),
                    rest@ == self.stdin_buf@.subrange(len as int, k as int),
                decreases self.stdin_buf.len() - k,
            {
                rest.push(self.stdin_buf[k]);
                k = k + 1;
                assert(rest@ =~= self.stdin_buf@.subrange(len as int, k as int));
            }
            self.stdin_buf = rest;
            ((len as u64) % 0x1_0000_0000u64) as u32
        } else {
            0
        }
    }
}

// ---------------------------------------------------------------------------
// WebGPU
// ---------------------------------------------------------------------------

/// The limits of a GPU device.
pub struct GpuLimits {
    pub max_texture_dimension_2d: u32,
    pub max_storage_buffer_binding_size: u32,
    pub max_compute_workgroups_per_dimension: u32,
}

/// A GPU device: adapter name, limits and features.
pub struct GpuDevice {
    pub adapter_name: String,
    pub limits: GpuLimits,
    pub features: Vec<String>,
}

/// The kind of a buffer binding.
pub enum BufferBindingType {
    Uniform,
    Storage { read_only: bool },
}

/// The sample type of a texture binding.
pub enum TextureSampleType {
    Float { filterable: bool },
    Uint,
    Sint,
    Depth,
}

/// What a binding holds.
pub enum BindingType {
    Buffer { ty: BufferBindingType },
    Texture { sample_type: TextureSampleType },
    Sampler { comparison: bool },
}

/// One binding of a bind group layout.
pub struct BindGroupLayoutEntry {
    pub binding: u32,
    pub visibility: u32,
    pub ty: BindingType,
}

/// The bindings of a bind group.
pub struct BindGroupLayout {
    pub entries: Vec<BindGroupLayoutEntry>,
}

/// A compute pipeline: shader source, entry point and bind group layouts.
pub struct ComputePipeline {
    pub shader_module: String,
    pub entry_point: String,
    pub bind_group_layouts: Vec<BindGroupLayout>,
}

/// A GPU buffer and its contents.
pub struct GpuBuffer {
    pub data: Vec<u8>,
    pub size: u64,
    pub usage: u32,
    pub mapped: bool,
}

/// A GPU texture and its contents.
pub struct GpuTexture {
    pub width: u32,
    pub height: u32,
    pub format: String,
    pub usage: u32,
    pub data: Vec<u8>,
}

/// The contents of a buffer after writing `data` at `offset`: written when
/// it fits, unchanged otherwise.
pub open spec fn written(contents: Seq<u8>, offset: int, data: Seq<u8>) -> Seq<u8> {
    if offset + data.len() <= contents.len() {
        contents.subrange(0, offset) + data + contents.subrange(offset + data.len(), contents.len() as int)
    } else {
        contents
    }
}

/// The GPU device and the pipelines, buffers and textures created on it.
pub struct WebGpuEngine {
    device: GpuDevice,
    pipelines: Vec<(String, ComputePipeline)>,
    buffers: Vec<(String, GpuBuffer)>,
    textures: Vec<(String, GpuTexture)>,
}

impl WebGpuEngine {
    /// The device the engine runs on.
    pub closed spec fn gpu(self) -> GpuDevice {
        self.device
    }

    /// The compute pipelines, by id.
    pub closed spec fn pipelines(self) -> Map<Seq<char>, ComputePipeline> {
        assoc_map(entries_view(self.pipelines@))
    }

    /// The buffers, by id.
    pub closed spec fn buffers(self) -> Map<Seq<char>, GpuBuffer> {
        assoc_map(entries_view(self.buffers@))
    }

    /// An engine on the default adapter, with nothing created.
    pub fn new() -> (r: Self)
        ensures
            r.gpu().adapter_name@ == "NVIDIA GeForce RTX 4090"@,
            r.gpu().limits.max_texture_dimension_2d == 16384,
            r.gpu().limits.max_storage_buffer_binding_size == 134217728,
            r.gpu().limits.max_compute_workgroups_per_dimension == 65535,
            r.gpu().features@.len() == 5,
            r.pipelines() == Map::<Seq<char>, ComputePipeline>::empty(),
            r.buffers() == Map::<Seq<char>, GpuBuffer>::empty(),
    {
        let mut features: Vec<String> = Vec::new();
        features.push("shader-f16".to_owned());
        features.push("rg11b10ufloat-renderable".to_owned());
        features.push("float32-filterable".to_owned());
        features.push("clip-space".to_owned());
        features.push("subgroup".to_owned());
        WebGpuEngine {
            device: GpuDevice {
                adapter_name: "NVIDIA GeForce RTX 4090".to_owned(),
                limits: GpuLimits {
                    max_texture_dimension_2d: 16384,
                    max_storage_buffer_binding_size: 134217728,
                    max_compute_workgroups_per_dimension: 65535,
                },
                features,
            },
            pipelines: Vec::new(),
            buffers: Vec::new(),
            textures: Vec::new(),
        }
    }

    /// Creates compute pipeline `id` from `shader` with entry point `entry`,
    /// replacing one of that id.
    pub fn create_compute_pipeline(&mut self, id: &str, shader: &str, entry: &str)
        ensures
            final(self).pipelines().dom() == old(self).pipelines().dom().insert(id@),
            final(self).pipelines()[id@].shader_module@ == shader@,
            final(self).pipelines()[id@].entry_point@ == entry@,
            final(self).pipelines()[id@].bind_group_layouts@.len() == 0,
            forall|p: Seq<char>| p != id@ ==> #[trigger] final(self).pipelines()[p] == old(self).pipelines()[p],
            final(self).buffers() == old(self).buffers(),
    {
        let pipeline = ComputePipeline {
            shader_module: shader.to_owned(),
            entry_point: entry.to_owned(),
            bind_group_layouts: Vec::new(),
        };
        assoc_insert(&mut self.pipelines, id.to_owned(), pipeline);
    }

    /// Creates buffer `id` of `size` zero bytes, replacing one of that id.
    pub fn create_buffer(&mut self, id: &str, size: u64, usage: u32)
        requires
            size <= isize::MAX,
        ensures
            final(self).buffers().dom() == old(self).buffers().dom().insert(id@),
            final(self).buffers()[id@].data@ == Seq::new(size as nat, |i: int| 0u8),
            final(self).buffers()[id@].size == size,
            final(self).buffers()[id@].usage == usage,
            !final(self).buffers()[id@].mapped,
            forall|b: Seq<char>| b != id@ ==> #[trigger] final(self).buffers()[b] == old(self).buffers()[b],
            final(self).pipelines() == old(self).pipelines(),
    {
        let n = size as usize;
        let mut data: Vec<u8> = Vec::new();
        let mut i: usize = 0;
        while i < n
            invariant
                i <= n,
                data@ == Seq::new(i as nat, |k: int| 0u8),
            decreases n - i,
        {
            data.push(0u8);
            i = i + 1;
            assert(data@ =~= Seq::new(i as nat, |k: int| 0u8));
        }
        let buffer = GpuBuffer { data, size, usage, mapped: false };
        assoc_insert(&mut self.buffers, id.to_owned(), buffer);
    }

    /// The contents of buffer `id`, if it exists.
    pub fn buffer_contents(&self, id: &str) -> (r: Option<Vec<u8>>)
        ensures
            match r {
                Some(v) => self.buffers().contains_key(id@) && v@ == self.buffers()[id@].data@,
                None => !self.buffers().contains_key(id@),
            },
    {
        let i = assoc_find(&self.buffers, id)?;
        Some(self.buffers[i].1.data.clone())
    }

    /// Writes `data` into buffer `id` at `offset` when it fits; otherwise,
    /// or when there is no such buffer, nothing changes.
    pub fn write_buffer(&mut self, id: &str, offset: u64, data: &[u8])
        requires
            old(self).buffers().contains_key(id@) ==> offset + data@.len() <= usize::MAX,
        ensures
            final(self).buffers().dom() == old(self).buffers().dom(),
            forall|b: Seq<char>| b != id@ ==> #[trigger] final(self).buffers()[b] == old(self).buffers()[b],
            old(self).buffers().contains_key(id@) ==> ({
                let before = old(self).buffers()[id@];
                let after = final(self).buffers()[id@];
                &&& after.data@ == written(before.data@, offset as int, data@)
                &&& after.size == before.size
                &&& after.usage == before.usage
                &&& after.mapped == before.mapped
            }),
            final(self).pipelines() == old(self).pipelines(),
    {
        match assoc_find(&self.buffers, id) {
            None => {},
            Some(i) => {
                let placeholder = GpuBuffer { data: Vec::new(), size: 0, usage: 0, mapped: false };
                let ghost m0 = self.buffers();
                let mut buffer = assoc_replace(&mut self.buffers, i, placeholder);
                assert(buffer == m0[id@]);
                let ghost b0 = buffer;
                let start = offset as usize;
                assert(start == offset);
                let end = start + data.len();
                if end <= buffer.data.len() {
                    let ghost d0 = buffer.data@;
                    let mut k = start;
                    while k < end
                        invariant
                            start <= k <= end,
                            end == start + data@.len(),
                            end <= d0.len(),
                            buffer.data@.len() == d0.len(),
                            buffer.size == b0.size,
                            buffer.usage == b0.usage,
                            buffer.mapped == b0.mapped,
                            buffer.data@ == d0.subrange(0, start as int) + data@.subrange(0, k - start) + d0.subrange(
                                k as int,
                                d0.len() as int,
                            ),
                        decreases end - k,
                    {
                        buffer.data.set(k, data[k - start]);
                        k = k + 1;
                        assert(buffer.data@ =~= d0.subrange(0, start as int) + data@.subrange(0, k - start)
                            + d0.subrange(k as int, d0.len() as int));
                    }
                    assert(data@.subrange(0, data@.len() as int) =~= data@);
                }
                assert(buffer.data@ == written(b0.data@, offset as int, data@));
                assoc_replace(&mut self.buffers, i, buffer);
                assert(self.buffers() == m0.insert(id@, buffer));
            },
        }
    }
}

// ---------------------------------------------------------------------------
// WebRTC
// ---------------------------------------------------------------------------

/// A STUN or TURN server.
pub struct IceServer {
    pub urls: Vec<String>,
    pub username: Option<String>,
    pub credential: Option<String>,
}

/// A session description.
pub struct SessionDescription {
    pub sdp_type: String,
    pub sdp: String,
}

impl SessionDescription {
    /// A copy of the description.
    pub fn duplicate(&self) -> (r: Self)
        ensures
            r.sdp_type@ == self.sdp_type@,
            r.sdp@ == self.sdp@,
    {
        SessionDescription { sdp_type: self.sdp_type.clone(), sdp: self.sdp.clone() }
    }
}

/// A media track.
pub struct MediaStreamTrack {
    pub id: String,
    pub kind: String,
    pub label: String,
    pub enabled: bool,
    pub muted: bool,
}

/// A media stream and its tracks.
pub struct MediaStream {
    pub id: String,
    pub tracks: Vec<MediaStreamTrack>,
}

/// A peer connection and its negotiation state.
pub struct PeerConnection {
    pub id: String,
    pub connection_state: String,
    pub ice_connection_state: String,
    pub signaling_state: String,
    pub local_description: Option<SessionDescription>,
    pub remote_description: Option<SessionDescription>,
    pub tracks: Vec<MediaStreamTrack>,
}

/// A data channel and the bytes sent on it.
pub struct DataChannel {
    pub id: String,
    pub label: String,
    pub ready_state: String,
    pub buffered_amount: u64,
}

/// The SDP text of every offer.
pub open spec fn offer_sdp() -> Seq<char> {
    "v=0\r\no=- 1234567890 1 IN IP4 0.0.0.0\r\ns=-\r\nt=0 0\r\n..."@
}

/// Peer connections, media streams and data channels.
pub struct WebRtcEngine {
    peer_connections: Vec<(String, PeerConnection)>,
    media_streams: Vec<(String, MediaStream)>,
    data_channels: Vec<(String, DataChannel)>,
    ice_servers: Vec<IceServer>,
}

impl WebRtcEngine {
    /// The ICE servers, in order.
    pub closed spec fn servers(self) -> Seq<IceServer> {
        self.ice_servers@
    }

    /// The peer connections, by id.
    pub closed spec fn connections(self) -> Map<Seq<char>, PeerConnection> {
        assoc_map(entries_view(self.peer_connections@))
    }

    /// The data channels, by id.
    pub closed spec fn channels(self) -> Map<Seq<char>, DataChannel> {
        assoc_map(entries_view(self.data_channels@))
    }

    /// An engine with a public STUN server and a TURN server, and no connection.
    pub fn new() -> (r: Self)
        ensures
            r.connections() == Map::<Seq<char>, PeerConnection>::empty(),
            r.channels() == Map::<Seq<char>, DataChannel>::empty(),
            r.servers().len() == 2,
            r.servers()[0].urls@.len() == 1 && r.servers()[0].urls@[0]@ == "stun:stun.l.google.com:19302"@,
            r.servers()[0].username is None && r.servers()[0].credential is None,
            r.servers()[1].urls@.len() == 1 && r.servers()[1].urls@[0]@ == "turn:turn.example.com:3478"@,
            r.servers()[1].username matches Some(u) && u@ == "user"@,
            r.servers()[1].credential matches Some(c) && c@ == "pass"@,
    {
        let mut stun_urls: Vec<String> = Vec::new();
        stun_urls.push("stun:stun.l.google.com:19302".to_owned());
        let mut turn_urls: Vec<String> = Vec::new();
        turn_urls.push("turn:turn.example.com:3478".to_owned());
        let mut ice_servers: Vec<IceServer> = Vec::new();
        ice_servers.push(IceServer { urls: stun_urls, username: None, credential: None });
        ice_servers.push(
            IceServer { urls: turn_urls, username: Some("user".to_owned()), credential: Some("pass".to_owned()) },
        );
        WebRtcEngine { peer_connections: Vec::new(), media_streams: Vec::new(), data_channels: Vec::new(), ice_servers }
    }

    /// Creates a peer connection under a fresh random id and returns the id.
    pub fn create_peer_connection(&mut self, _config: &str) -> (id: String)
        ensures
            final(self).connections().dom() == old(self).connections().dom().insert(id@),
            forall|p: Seq<char>| p != id@ ==> #[trigger] final(self).connections()[p] == old(self).connections()[p],
            ({
                let pc = final(self).connections()[id@];
                &&& pc.id@ == id@
                &&& pc.connection_state@ == "new"@
                &&& pc.ice_connection_state@ == "new"@
                &&& pc.signaling_state@ == "stable"@
                &&& pc.local_description is None
                &&& pc.remote_description is None
                &&& pc.tracks@.len() == 0
            }),
            final(self).channels() == old(self).channels(),
    {
        let id = new_uuid();
        let pc = PeerConnection {
            id: id.clone(),
            connection_state: "new".to_owned(),
            ice_connection_state: "new".to_owned(),
            signaling_state: "stable".to_owned(),
            local_description: None,
            remote_description: None,
            tracks: Vec::new(),
        };
        assoc_insert(&mut self.peer_connections, id.clone(), pc);
        id
    }

    /// Creates an offer for connection `pc_id` and records it as the local
    /// description; `None` when there is no such connection.
    pub fn create_offer(&mut self, pc_id: &str) -> (r: Option<SessionDescription>)
        ensures
            old(self).connections().contains_key(pc_id@) <==> r is Some,
            r matches Some(d) ==> d.sdp_type@ == "offer"@ && d.sdp@ == offer_sdp(),
            r is Some ==> (final(self).connections()[pc_id@].local_description matches Some(l)
                && l.sdp_type@ == "offer"@ && l.sdp@ == offer_sdp()),
            final(self).connections().dom() == old(self).connections().dom(),
            forall|p: Seq<char>| p != pc_id@ ==> #[trigger] final(self).connections()[p] == old(self).connections()[p],
            final(self).channels() == old(self).channels(),
    {
        match assoc_find(&self.peer_connections, pc_id) {
            None => None,
            Some(i) => {
                let placeholder = PeerConnection {
                    id: String::new(),
                    connection_state: String::new(),
                    ice_connection_state: String::new(),
                    signaling_state: String::new(),
                    local_description: None,
                    remote_description: None,
                    tracks: Vec::new(),
                };
                let mut pc = assoc_replace(&mut self.peer_connections, i, placeholder);
                let desc = SessionDescription {
                    sdp_type: "offer".to_owned(),
                    sdp: "v=0\r\no=- 1234567890 1 IN IP4 0.0.0.0\r\ns=-\r\nt=0 0\r\n...".to_owned(),
                };
                pc.local_description = Some(desc.duplicate());
                assoc_replace(&mut self.peer_connections, i, pc);
                Some(desc)
            },
        }
    }

    /// Creates a data channel labelled `label` under a fresh random id and
    /// returns the id.
    pub fn create_data_channel(&mut self, _pc_id: &str, label: &str) -> (id: String)
        ensures
            final(self).channels().dom() == old(self).channels().dom().insert(id@),
            forall|c: Seq<char>| c != id@ ==> #[trigger] final(self).channels()[c] == old(self).channels()[c],
            ({
                let ch = final(self).channels()[id@];
                &&& ch.id@ == id@
                &&& ch.label@ == label@
                &&& ch.ready_state@ == "connecting"@
                &&& ch.buffered_amount == 0
            }),
            final(self).connections() == old(self).connections(),
    {
        let id = new_uuid();
        let channel = DataChannel {
            id: id.clone(),
            label: label.to_owned(),
            ready_state: "connecting".to_owned(),
            buffered_amount: 0,
        };
        assoc_insert(&mut self.data_channels, id.clone(), channel);
        id
    }

    /// Counts `data` as sent on channel `channel_id`, if it exists.
    pub fn send_data(&mut self, channel_id: &str, data: &[u8])
        requires
            old(self).channels().contains_key(channel_id@) ==> old(self).channels()[channel_id@].buffered_amount
                + data@.len() <= u64::MAX,
        ensures
            final(self).channels().dom() == old(self).channels().dom(),
            forall|c: Seq<char>| c != channel_id@ ==> #[trigger] final(self).channels()[c] == old(self).channels()[c],
            old(self).channels().contains_key(channel_id@) ==> ({
                let before = old(self).channels()[channel_id@];
                let after = final(self).channels()[channel_id@];
                &&& after.buffered_amount == before.buffered_amount + data@.len()
                &&& after.id == before.id
                &&& after.label == before.label
                &&& after.ready_state == before.ready_state
            }),
            final(self).connections() == old(self).connections(),
    {
        match assoc_find(&self.data_channels, channel_id) {
            None => {},
            Some(i) => {
                let placeholder = DataChannel {
                    id: String::new(),
                    label: String::new(),
                    ready_state: String::new(),
                    buffered_amount: 0,
                };
                let mut channel = assoc_replace(&mut self.data_channels, i, placeholder);
                channel.buffered_amount = channel.buffered_amount + data.len() as u64;
                assoc_replace(&mut self.data_channels, i, channel);
            },
        }
    }
}

// ---------------------------------------------------------------------------
// Developer-tools server
// ---------------------------------------------------------------------------

/// A connected developer-tools client.
pub struct DevToolsClient {
    pub id: String,
    pub ws_connection: String,
    pub subscribed_domains: Vec<String>,
}

/// A script breakpoint.
pub struct Breakpoint {
    pub url: String,
    pub line: u32,
    pub column: u32,
    pub condition: Option<String>,
}

/// The developer-tools server: its port, clients and breakpoints.
pub struct DevToolsServer {
    port: u16,
    clients: Vec<DevToolsClient>,
    breakpoints: Vec<Breakpoint>,
}

impl DevToolsServer {
    /// The port the server listens on.
    pub closed spec fn listen_port(self) -> u16 {
        self.port
    }

    /// The breakpoints, in the order they were set.
    pub closed spec fn breakpoint_list(self) -> Seq<Breakpoint> {
        self.breakpoints@
    }

    /// A server on `port` with no client or breakpoint.
    pub fn new(port: u16) -> (r: Self)
        ensures
            r.listen_port() == port,
            r.breakpoint_list() == Seq::<Breakpoint>::empty(),
    {
        DevToolsServer { port, clients: Vec::new(), breakpoints: Vec::new() }
    }

    /// Adds a breakpoint.
    pub fn set_breakpoint(&mut self, bp: Breakpoint)
        ensures
            final(self).breakpoint_list() == old(self).breakpoint_list().push(bp),
            final(self).listen_port() == old(self).listen_port(),
    {
        self.breakpoints.push(bp);
    }

    /// The answer to evaluating `expression`: `Evaluated: ` and the expression.
    pub fn evaluate_js(&self, expression: &str) -> (r: String)
        ensures
            r@ == "Evaluated: "@ + expression@,
    {
        let mut r = "Evaluated: ".to_owned();
        r.append(expression);
        r
    }
}

// ---------------------------------------------------------------------------
// Request blocking
// ---------------------------------------------------------------------------

/// The trackers whose requests are blocked by default.
pub open spec fn default_trackers() -> Seq<Seq<char>> {
    seq!["google-analytics.com"@, "facebook.net"@, "doubleclick.net"@]
}

/// Known-unsafe URLs, content-security policies by origin, and tracker blocking.
pub struct SecurityManager {
    safe_browsing_db: Vec<String>,
    csp_policies: Vec<(String, String)>,
    fingerprint_protection: bool,
    tracker_blocklist: Vec<String>,
}

impl SecurityManager {
    /// Whether fingerprinting protection is on.
    pub closed spec fn protects_fingerprint(self) -> bool {
        self.fingerprint_protection
    }

    /// The URLs known to be unsafe.
    pub closed spec fn unsafe_urls(self) -> Seq<Seq<char>> {
        crate::text::strs(self.safe_browsing_db@)
    }

    /// The blocked tracker domains.
    pub closed spec fn trackers(self) -> Seq<Seq<char>> {
        crate::text::strs(self.tracker_blocklist@)
    }

    /// A manager that knows no unsafe URL, protects against fingerprinting
    /// and blocks the default trackers.
    pub fn new() -> (r: Self)
        ensures
            r.unsafe_urls() == Seq::<Seq<char>>::empty(),
            r.trackers() == default_trackers(),
            r.protects_fingerprint(),
    {
        let mut trackers: Vec<String> = Vec::new();
        trackers.push("google-analytics.com".to_owned());
        trackers.push("facebook.net".to_owned());
        trackers.push("doubleclick.net".to_owned());
        let r = SecurityManager {
            safe_browsing_db: Vec::new(),
            csp_policies: Vec::new(),
            fingerprint_protection: true,
            tracker_blocklist: trackers,
        };
        assert(r.unsafe_urls() =~= Seq::<Seq<char>>::empty());
        assert(r.trackers() =~= default_trackers());
        r
    }

    /// Whether `url` is not a known-unsafe URL.
    pub fn check_url_safety(&self, url: &str) -> (b: bool)
        ensures
            b == !self.unsafe_urls().contains(url@),
    {
        let mut i: usize = 0;
        while i < self.safe_browsing_db.len()
            invariant
                i <= self.safe_browsing_db@.len(),
                forall|k: int| 0 <= k < i ==> self.unsafe_urls()[k] != url@,
            decreases self.safe_browsing_db.len() - i,
        {
            if crate::text::str_eq(self.safe_browsing_db[i].as_str(), url) {
                assert(self.unsafe_urls()[i as int] == url@);
                return false;
            }
            i = i + 1;
        }
        true
    }

    /// Whether a request to `url` is to be blocked: it contains a blocked
    /// tracker domain.
    pub fn should_block_request(&self, url: &str) -> (b: bool)
        ensures
            b == exists|k: int| 0 <= k < self.trackers().len() && crate::text::contains_seq(url@, #[trigger] self.trackers()[k]),
    {
        let mut i: usize = 0;
        while i < self.tracker_blocklist.len()
            invariant
                i <= self.tracker_blocklist@.len(),
                forall|k: int| 0 <= k < i ==> !crate::text::contains_seq(url@, #[trigger] self.trackers()[k]),
            decreases self.tracker_blocklist.len() - i,
        {
            if crate::text::str_contains(url, self.tracker_blocklist[i].as_str()) {
                assert(crate::text::contains_seq(url@, self.trackers()[i as int]));
                return true;
            }
            i = i + 1;
        }
        false
    }
}

// ---------------------------------------------------------------------------
// WebAssembly extensions
// ---------------------------------------------------------------------------

/// A content script: the pages it applies to and its script and style files.
pub struct ContentScript {
    pub matches: Vec<String>,
    pub js: Vec<String>,
    pub css: Vec<String>,
}

/// The description of a WebAssembly extension.
pub struct ExtensionManifest {
    pub name: String,
    pub version: String,
    pub description: String,
    pub background_script: Option<String>,
    pub content_scripts: Vec<ContentScript>,
    pub permissions: Vec<String>,
}

/// An installed extension.
pub struct Extension {
    pub id: String,
    pub manifest: ExtensionManifest,
    pub enabled: bool,
    pub permissions: Vec<String>,
}

/// A running WebAssembly module and its memory.
pub struct WasmInstance {
    pub module: String,
    pub memory: Vec<u8>,
}

/// The running WebAssembly instances, by id.
pub struct WasmRuntime {
    pub instances: Vec<(String, WasmInstance)>,
}

/// The installed WebAssembly extensions and their runtime.
pub struct ExtensionManager {
    extensions: Vec<(String, Extension)>,
    wasm_runtime: WasmRuntime,
}

impl ExtensionManager {
    /// The running WebAssembly instances.
    pub closed spec fn instances(self) -> Seq<(String, WasmInstance)> {
        self.wasm_runtime.instances@
    }

    /// The installed extensions, by id.
    pub closed spec fn installed(self) -> Map<Seq<char>, Extension> {
        assoc_map(entries_view(self.extensions@))
    }

    /// A manager with nothing installed.
    pub fn new() -> (r: Self)
        ensures
            r.installed() == Map::<Seq<char>, Extension>::empty(),
            r.instances().len() == 0,
    {
        ExtensionManager { extensions: Vec::new(), wasm_runtime: WasmRuntime { instances: Vec::new() } }
    }

    /// Installs `manifest`, enabled, under a fresh random id, and returns the id.
    pub fn install_extension(&mut self, manifest: ExtensionManifest) -> (id: String)
        ensures
            final(self).installed().dom() == old(self).installed().dom().insert(id@),
            forall|e: Seq<char>| e != id@ ==> #[trigger] final(self).installed()[e] == old(self).installed()[e],
            final(self).installed()[id@].id@ == id@,
            final(self).installed()[id@].manifest == manifest,
            final(self).installed()[id@].enabled,
            final(self).installed()[id@].permissions@.len() == 0,
    {
        let id = new_uuid();
        let ext = Extension { id: id.clone(), manifest, enabled: true, permissions: Vec::new() };
        assoc_insert(&mut self.extensions, id.clone(), ext);
        id
    }
}

} // verus!
