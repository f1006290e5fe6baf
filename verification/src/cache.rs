//! The store: a map from key to entry with access-time bookkeeping and
//! per-operation counters.
//!
//! Every operation that changes or counts takes the store by exclusive
//! reference, so that its contract can say what the store holds before and
//! after. Whoever shares the store between threads holds it behind a lock.

use vstd::prelude::*;
use vstd::string::*;
use dashmap::DashMap;
use std::time::{SystemTime, UNIX_EPOCH};
use crate::text::views;

verus! {

/// What the store reports when an operation cannot give a value.
#[derive(Debug, Clone, PartialEq, Eq)]
pub enum CacheError {
    /// No entry is stored under the key.
    KeyNotFound(String),
}

/// The mathematical form of a [`CacheError`].
pub enum CacheErrorView {
    KeyNotFound(Seq<char>),
}

impl View for CacheError {
    type V = CacheErrorView;

    open spec fn view(&self) -> CacheErrorView {
        match *self {
            CacheError::KeyNotFound(key) => CacheErrorView::KeyNotFound(key@),
        }
    }
}

impl CacheErrorView {
    /// The text of the error.
    pub open spec fn message(self) -> Seq<char> {
        match self {
            CacheErrorView::KeyNotFound(key) => "Key not found: "@ + key,
        }
    }
}

impl CacheError {
    /// The text of the error.
    pub fn message(&self) -> (m: String)
        ensures
            m@ == self@.message(),
    {
        match self {
            CacheError::KeyNotFound(key) => {
                let mut m = "Key not found: ".to_owned();
                m.append(key.as_str());
                m
            },
        }
    }
}

/// `dashmap::DashMap`, a concurrent hash map. Nothing of its inside is
/// visible here.
#[verifier::external_type_specification]
#[verifier::external_body]
#[verifier::reject_recursive_types(K)]
#[verifier::reject_recursive_types(V)]
#[verifier::reject_recursive_types(S)]
pub struct ExDashMap<K, V, S>(DashMap<K, V, S>);

/// The record kept for one key.
#[derive(Debug, Clone)]
pub struct CacheEntry {
    /// The stored value.
    pub value: String,
    /// When the entry was last written or read, in seconds since the epoch.
    pub accessed_at: u64,
}

impl View for CacheEntry {
    type V = (Seq<char>, u64);

    open spec fn view(&self) -> (Seq<char>, u64) {
        (self.value@, self.accessed_at)
    }
}

impl CacheEntry {
    /// A fresh entry, last accessed at `now`.
    pub fn new(value: String, now: u64) -> (e: CacheEntry)
        ensures
            e@ == (value@, now),
    {
        CacheEntry { value, accessed_at: now }
    }

    /// Records an access at `now`.
    pub fn update_access_time(&mut self, now: u64)
        ensures
            final(self)@ == (old(self)@.0, now),
    {
        self.accessed_at = now;
    }
}

/// What a map holds: for each key its value and the time of its last access.
pub uninterp spec fn contents(m: DashMap<String, CacheEntry>) -> Map<Seq<char>, (Seq<char>, u64)>;

/// Calls `DashMap::new`: the new map holds nothing.
#[verifier::external_body]
fn map_new() -> (m: DashMap<String, CacheEntry>)
    ensures
        contents(m) == StoreView::empty().entries,
{
    DashMap::new()
}

/// Calls `DashMap::insert` on a map that no one else holds: afterwards the
/// map holds `entry` under `key`, in place of what it held there, and is
/// otherwise unchanged.
#[verifier::external_body]
fn map_insert(m: &mut DashMap<String, CacheEntry>, key: String, entry: CacheEntry)
    ensures
        contents(*final(m)) == contents(*old(m)).insert(key@, entry@),
{
    m.insert(key, entry);
}

/// Calls `DashMap::get` and copies the entry out: the entry held under `key`,
/// or `None` when the map holds none.
#[verifier::external_body]
fn map_get(m: &DashMap<String, CacheEntry>, key: &str) -> (r: Option<CacheEntry>)
    ensures
        match r {
            Some(entry) => contents(*m).contains_key(key@) && contents(*m)[key@] == entry@,
            None => !contents(*m).contains_key(key@),
        },
{
    m.get(key).map(|e| CacheEntry::new(e.value.clone(), e.accessed_at))
}

/// Calls `DashMap::remove` on a map that no one else holds: the entry held
/// under `key` leaves the map and is handed out, or the map is unchanged
/// and `None` is handed out when it holds none.
#[verifier::external_body]
fn map_remove(m: &mut DashMap<String, CacheEntry>, key: &str) -> (r: Option<CacheEntry>)
    ensures
        contents(*final(m)) == contents(*old(m)).remove(key@),
        match r {
            Some(entry) => contents(*old(m)).contains_key(key@) && contents(*old(m))[key@]
                == entry@,
            None => !contents(*old(m)).contains_key(key@),
        },
{
    m.remove(key).map(|pair| pair.1)
}

/// Calls `DashMap::iter` and copies each key out: every key of the map once,
/// in no stated order.
#[verifier::external_body]
fn map_keys(m: &DashMap<String, CacheEntry>) -> (keys: Vec<String>)
    ensures
        views(keys@).no_duplicates(),
        views(keys@).to_set() == contents(*m).dom(),
{
    m.iter().map(|e| e.key().clone()).collect()
}

/// Calls `SystemTime::now` and measures the time from `UNIX_EPOCH`: the
/// whole seconds since the epoch, or 0 for a clock set before it. Nothing is
/// promised of the result.
#[verifier::external_body]
fn now_seconds() -> u64 {
    match SystemTime::now().duration_since(UNIX_EPOCH) {
        Ok(elapsed) => elapsed.as_secs(),
        Err(_) => 0,
    }
}

/// The next value of a counter: one more, from zero again after the largest.
pub open spec fn bump(counter: u64) -> u64 {
    if counter == u64::MAX {
        0
    } else {
        (counter + 1) as u64
    }
}

/// The value that `entries` holds under `key`, if there is one.
pub open spec fn value_in(entries: Map<Seq<char>, (Seq<char>, u64)>, key: Seq<char>) -> Option<
    Seq<char>,
> {
    if entries.contains_key(key) {
        Some(entries[key].0)
    } else {
        None
    }
}

/// The mathematical form of the store.
pub struct StoreView {
    /// For each key its value and the time of its last access.
    pub entries: Map<Seq<char>, (Seq<char>, u64)>,
    /// How many operations were asked for.
    pub total_operations: u64,
    /// How many reads found their key.
    pub hit_count: u64,
    /// How many reads did not.
    pub miss_count: u64,
}

impl StoreView {
    /// The store that holds nothing and has counted nothing.
    pub open spec fn empty() -> StoreView {
        StoreView { entries: Map::empty(), total_operations: 0, hit_count: 0, miss_count: 0 }
    }

    /// The value stored under `key`, if there is one.
    pub open spec fn lookup(self, key: Seq<char>) -> Option<Seq<char>> {
        value_in(self.entries, key)
    }

    /// The keys that have an entry.
    pub open spec fn keys(self) -> Set<Seq<char>> {
        self.entries.dom()
    }

    /// The store after `value` was stored under `key` at `now`.
    pub open spec fn set(self, key: Seq<char>, value: Seq<char>, now: u64) -> StoreView {
        StoreView {
            entries: self.entries.insert(key, (value, now)),
            total_operations: bump(self.total_operations),
            ..self
        }
    }

    /// The store after `key` was read at `now`.
    pub open spec fn get(self, key: Seq<char>, now: u64) -> StoreView {
        if self.entries.contains_key(key) {
            StoreView {
                entries: self.entries.insert(key, (self.entries[key].0, now)),
                total_operations: bump(self.total_operations),
                hit_count: bump(self.hit_count),
                ..self
            }
        } else {
            StoreView {
                total_operations: bump(self.total_operations),
                miss_count: bump(self.miss_count),
                ..self
            }
        }
    }

    /// The store after `key` was deleted.
    pub open spec fn delete(self, key: Seq<char>) -> StoreView {
        StoreView {
            entries: self.entries.remove(key),
            total_operations: bump(self.total_operations),
            ..self
        }
    }

    /// The store after its keys were listed.
    pub open spec fn listed(self) -> StoreView {
        StoreView { total_operations: bump(self.total_operations), ..self }
    }
}

/// A counter after `n` steps.
pub open spec fn bump_by(counter: u64, n: nat) -> u64
    decreases n,
{
    if n == 0 {
        counter
    } else {
        bump(bump_by(counter, (n - 1) as nat))
    }
}

/// Whether two maps hold the same keys with the same values; the times of
/// access may differ.
pub open spec fn same_values(
    a: Map<Seq<char>, (Seq<char>, u64)>,
    b: Map<Seq<char>, (Seq<char>, u64)>,
) -> bool {
    &&& a.dom() == b.dom()
    &&& forall|k: Seq<char>| a.contains_key(k) ==> (#[trigger] a[k]).0 == b[k].0
}

/// How many of `keys` have an entry, counted with repeats.
pub open spec fn present_count(keys: Seq<Seq<char>>, entries: Map<Seq<char>, (Seq<char>, u64)>) -> nat
    decreases keys.len(),
{
    if keys.len() == 0 {
        0
    } else if entries.contains_key(keys.last()) {
        present_count(keys.drop_last(), entries) + 1
    } else {
        present_count(keys.drop_last(), entries)
    }
}

/// Whether `keys` lists every key of `store` once.
pub open spec fn lists_keys(keys: Seq<Seq<char>>, store: StoreView) -> bool {
    keys.no_duplicates() && keys.to_set() == store.keys()
}

/// The store: a map from key to entry, and three counters.
pub struct Sodium {
    storage: DashMap<String, CacheEntry>,
    total_operations: u64,
    hit_count: u64,
    miss_count: u64,
}

impl View for Sodium {
    type V = StoreView;

    closed spec fn view(&self) -> StoreView {
        StoreView {
            entries: contents(self.storage),
            total_operations: self.total_operations,
            hit_count: self.hit_count,
            miss_count: self.miss_count,
        }
    }
}

/// The next value of a counter.
fn next_count(counter: u64) -> (r: u64)
    ensures
        r == bump(counter),
{
    if counter == u64::MAX {
        0
    } else {
        counter + 1
    }
}

impl Sodium {
    /// A store that holds nothing.
    pub fn new() -> (s: Sodium)
        ensures
            s@ == StoreView::empty(),
    {
        Sodium { storage: map_new(), total_operations: 0, hit_count: 0, miss_count: 0 }
    }

    /// How many operations were asked for.
    pub fn total_operations(&self) -> (n: u64)
        ensures
            n == self@.total_operations,
    {
        self.total_operations
    }

    /// How many reads found their key.
    pub fn hit_count(&self) -> (n: u64)
        ensures
            n == self@.hit_count,
    {
        self.hit_count
    }

    /// How many reads did not find their key.
    pub fn miss_count(&self) -> (n: u64)
        ensures
            n == self@.miss_count,
    {
        self.miss_count
    }

    /// Stores `value` under `key`, with `now` as the time of access.
    pub fn set_at(&mut self, key: String, value: String, now: u64) -> (r: Result<(), CacheError>)
        ensures
            r is Ok,
            final(self)@ == old(self)@.set(key@, value@, now),
    {
        self.total_operations = next_count(self.total_operations);
        let entry = CacheEntry::new(value, now);
        map_insert(&mut self.storage, key, entry);
        Ok(())
    }

    /// Stores `value` under `key`, in place of what was stored there. The
    /// time of access is read from the clock.
    pub fn set(&mut self, key: String, value: String) -> (r: Result<(), CacheError>)
        ensures
            r is Ok,
            exists|now: u64| final(self)@ == old(self)@.set(key@, value@, now),
    {
        let now = now_seconds();
        self.set_at(key, value, now)
    }

    /// Reads the value stored under `key` and records the access at `now`.
    pub fn get_at(&mut self, key: &str, now: u64) -> (r: Result<String, CacheError>)
        ensures
            final(self)@ == old(self)@.get(key@, now),
            match r {
                Ok(value) => old(self)@.lookup(key@) == Some(value@),
                Err(e) => old(self)@.lookup(key@) is None && e@ == CacheErrorView::KeyNotFound(
                    key@,
                ),
            },
    {
        self.total_operations = next_count(self.total_operations);
        match map_get(&self.storage, key) {
            Some(entry) => {
                let mut entry = entry;
                entry.update_access_time(now);
                let value = entry.value.clone();
                map_insert(&mut self.storage, key.to_owned(), entry);
                self.hit_count = next_count(self.hit_count);
                Ok(value)
            },
            None => {
                self.miss_count = next_count(self.miss_count);
                Err(CacheError::KeyNotFound(key.to_owned()))
            },
        }
    }

    /// Reads the value stored under `key`. A hit records the access, at a
    /// time read from the clock.
    pub fn get(&mut self, key: &str) -> (r: Result<String, CacheError>)
        ensures
            exists|now: u64| final(self)@ == old(self)@.get(key@, now),
            match r {
                Ok(value) => old(self)@.lookup(key@) == Some(value@),
                Err(e) => old(self)@.lookup(key@) is None && e@ == CacheErrorView::KeyNotFound(
                    key@,
                ),
            },
    {
        let now = now_seconds();
        self.get_at(key, now)
    }

    /// Removes `key` and says whether it was there.
    pub fn delete(&mut self, key: &str) -> (r: Result<bool, CacheError>)
        ensures
            r == Ok::<bool, CacheError>(old(self)@.entries.contains_key(key@)),
            final(self)@ == old(self)@.delete(key@),
    {
        self.total_operations = next_count(self.total_operations);
        match map_remove(&mut self.storage, key) {
            Some(_) => Ok(true),
            None => Ok(false),
        }
    }

    /// Lists every key once, in no stated order.
    pub fn keys(&mut self) -> (r: Result<Vec<String>, CacheError>)
        ensures
            r matches Ok(keys) && lists_keys(views(keys@), old(self)@),
            final(self)@ == old(self)@.listed(),
    {
        self.total_operations = next_count(self.total_operations);
        let keys = map_keys(&self.storage);
        Ok(keys)
    }
}

/// One operation on the store.
pub enum StoreOp {
    /// `value` is stored under `key` at `now`.
    Put { key: Seq<char>, value: Seq<char>, now: u64 },
    /// `key` is read at `now`.
    Get { key: Seq<char>, now: u64 },
    /// `key` is deleted.
    Delete { key: Seq<char> },
    /// The keys are listed.
    List,
}

impl StoreView {
    /// The store after one operation.
    pub open spec fn apply(self, op: StoreOp) -> StoreView {
        match op {
            StoreOp::Put { key, value, now } => self.set(key, value, now),
            StoreOp::Get { key, now } => self.get(key, now),
            StoreOp::Delete { key } => self.delete(key),
            StoreOp::List => self.listed(),
        }
    }

    /// The store after the operations `ops`, the first of them first.
    pub open spec fn apply_all(self, ops: Seq<StoreOp>) -> StoreView
        decreases ops.len(),
    {
        if ops.len() == 0 {
            self
        } else {
            self.apply_all(ops.drop_last()).apply(ops.last())
        }
    }

    /// Whether `key` is live after the operations `ops`: of the stores and
    /// deletes of `key` the last was a store, or there was none and the
    /// store held the key before.
    pub open spec fn live_after(self, ops: Seq<StoreOp>, key: Seq<char>) -> bool
        decreases ops.len(),
    {
        if ops.len() == 0 {
            self.entries.contains_key(key)
        } else {
            match ops.last() {
                StoreOp::Put { key: k, .. } => k == key || self.live_after(ops.drop_last(), key),
                StoreOp::Delete { key: k } => k != key && self.live_after(ops.drop_last(), key),
                _ => self.live_after(ops.drop_last(), key),
            }
        }
    }
}

/// Storing the same value twice under a key is the same as storing it once,
/// but for the time of access and the count of operations; a read that
/// follows finds the value.
pub proof fn law_set_idempotent(
    store: StoreView,
    key: Seq<char>,
    value: Seq<char>,
    first: u64,
    second: u64,
)
    ensures
        store.set(key, value, first).set(key, value, second).lookup(key) == Some(value),
        same_values(
            store.set(key, value, first).set(key, value, second).entries,
            store.set(key, value, first).entries,
        ),
{
    let once = store.set(key, value, first).entries;
    let twice = store.set(key, value, first).set(key, value, second).entries;
    assert(twice.dom() =~= once.dom());
}

/// A value stored under a key replaces the value stored there before: a
/// read that follows finds the later one.
pub proof fn law_set_overwrites(
    store: StoreView,
    key: Seq<char>,
    earlier: Seq<char>,
    later: Seq<char>,
    first: u64,
    second: u64,
)
    ensures
        store.set(key, earlier, first).set(key, later, second).lookup(key) == Some(later),
{
}

/// Storing a value leaves every other key as it was.
pub proof fn law_set_is_local(
    store: StoreView,
    key: Seq<char>,
    value: Seq<char>,
    now: u64,
    other: Seq<char>,
)
    requires
        other != key,
    ensures
        store.set(key, value, now).lookup(other) == store.lookup(other),
{
}

/// After a value was stored under a key, deleting the key finds it there;
/// deleting it again does not, and a read that follows misses.
pub proof fn law_delete(store: StoreView, key: Seq<char>, value: Seq<char>, now: u64)
    ensures
        store.set(key, value, now).entries.contains_key(key),
        !store.set(key, value, now).delete(key).entries.contains_key(key),
        store.set(key, value, now).delete(key).delete(key).lookup(key) is None,
{
}

/// A read changes no value and no key.
pub proof fn law_get_keeps_values(store: StoreView, key: Seq<char>, now: u64)
    ensures
        same_values(store.get(key, now).entries, store.entries),
{
    assert(store.get(key, now).entries.dom() =~= store.entries.dom());
}

/// Every operation counts once.
pub proof fn law_operations_are_counted(store: StoreView, ops: Seq<StoreOp>)
    ensures
        store.apply_all(ops).total_operations == bump_by(store.total_operations, ops.len()),
    decreases ops.len(),
{
    if ops.len() > 0 {
        law_operations_are_counted(store, ops.drop_last());
    }
}

/// After any sequence of operations, the store holds exactly the live
/// keys.
pub proof fn law_keys_are_live(store: StoreView, ops: Seq<StoreOp>, key: Seq<char>)
    ensures
        store.apply_all(ops).keys().contains(key) <==> store.live_after(ops, key),
    decreases ops.len(),
{
    if ops.len() > 0 {
        law_keys_are_live(store, ops.drop_last(), key);
    }
}

/// A listing of the keys after any sequence of operations holds each live
/// key once and nothing else.
pub proof fn law_listing_is_live(store: StoreView, ops: Seq<StoreOp>, keys: Seq<Seq<char>>)
    requires
        lists_keys(keys, store.apply_all(ops)),
    ensures
        keys.no_duplicates(),
        forall|key: Seq<char>| keys.contains(key) <==> store.live_after(ops, key),
{
    assert forall|key: Seq<char>| keys.contains(key) <==> store.live_after(ops, key) by {
        law_keys_are_live(store, ops, key);
        assert(keys.contains(key) <==> keys.to_set().contains(key));
    }
}

} // verus!
