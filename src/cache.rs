//! The discovery cache: walk results keyed by root and visibility options,
//! reused until their time-to-live runs out, at most `MAX_CACHE_ENTRIES` kept.

use crate::discovery::{copy_match, GlobMatch};
use dashmap::DashMap;
use vstd::prelude::*;

verus! {

#[verifier::external_type_specification]
#[verifier::external_body]
#[verifier::reject_recursive_types(K)]
#[verifier::reject_recursive_types(V)]
#[verifier::reject_recursive_types(S)]
pub struct ExDashMap<K, V, S>(dashmap::DashMap<K, V, S>);

/// The most scans the cache keeps.
pub const MAX_CACHE_ENTRIES: usize = 16;

/// What the cache stores for one key.
#[derive(Clone)]
pub struct CacheSlot {
    /// The instant (milliseconds) from which the slot is stale.
    pub expires_at: u64,
    /// The walk result.
    pub entries: Vec<GlobMatch>,
}

/// The map key: root, include-hidden flag, ignore-rules flag.
pub type KeyTuple = (String, bool, bool);

/// A key as plain values.
pub type KeyView = (Seq<char>, bool, bool);

pub open spec fn key_view(k: KeyTuple) -> KeyView {
    (k.0@, k.1, k.2)
}

/// Cached slots as plain values: expiry and entries, by key.
pub type SlotMap = Map<KeyView, (u64, Seq<GlobMatch>)>;

/// The slots a map holds, by key.
pub uninterp spec fn slots_of(m: DashMap<KeyTuple, CacheSlot>) -> SlotMap;

/// An empty map.
///
/// Relies on `dashmap::DashMap::new`: the map starts empty.
#[verifier::external_body]
fn map_new() -> (r: DashMap<KeyTuple, CacheSlot>)
    ensures
        slots_of(r) == SlotMap::empty(),
{
    DashMap::new()
}

/// A copy of the slot stored under `k`, if any.
///
/// Relies on `dashmap::DashMap::get`: it finds the value stored under a key
/// equal to `k` (`String` equality is equality of the characters).
#[verifier::external_body]
fn map_get(m: &DashMap<KeyTuple, CacheSlot>, k: &KeyTuple) -> (r: Option<CacheSlot>)
    ensures
        match r {
            Some(s) => slots_of(*m).contains_key(key_view(*k)) && slots_of(*m)[key_view(*k)] == (s.expires_at, s.entries@),
            None => !slots_of(*m).contains_key(key_view(*k)),
        },
{
    m.get(k).map(|slot| slot.value().clone())
}

/// Stores `v` under `k`, replacing what was there.
///
/// Relies on `dashmap::DashMap::insert`.
#[verifier::external_body]
fn map_insert(m: &mut DashMap<KeyTuple, CacheSlot>, k: KeyTuple, v: CacheSlot)
    ensures
        slots_of(*final(m)) == slots_of(*old(m)).insert(key_view(k), (v.expires_at, v.entries@)),
{
    m.insert(k, v);
}

/// Removes what is stored under `k`.
///
/// Relies on `dashmap::DashMap::remove`.
#[verifier::external_body]
fn map_remove(m: &mut DashMap<KeyTuple, CacheSlot>, k: &KeyTuple)
    ensures
        slots_of(*final(m)) == slots_of(*old(m)).remove(key_view(*k)),
{
    m.remove(k);
}

/// Every key of the map with the expiry of its slot, each key once.
///
/// Relies on `dashmap::DashMap::iter`: with no other access to the map it
/// visits every entry exactly once.
#[verifier::external_body]
fn map_expiries(m: &DashMap<KeyTuple, CacheSlot>) -> (r: Vec<(KeyTuple, u64)>)
    ensures
        r@.len() == slots_of(*m).dom().len(),
        forall|i: int|
            0 <= i < r@.len() ==> slots_of(*m).contains_key(key_view(#[trigger] r@[i].0)) && slots_of(*m)[key_view(
                r@[i].0,
            )].0 == r@[i].1,
        forall|k: KeyView| slots_of(*m).contains_key(k) ==> exists|i: int| 0 <= i < r@.len() && key_view(#[trigger] r@[i].0) == k,
{
    m.iter().map(|e| (e.key().clone(), e.value().expires_at)).collect()
}

/// The key of a cached walk.
pub struct CacheKey {
    /// The absolute root that was walked.
    pub root: String,
    /// Whether hidden entries were included.
    pub include_hidden: bool,
    /// Whether ignore files were honored.
    pub use_gitignore: bool,
}

pub open spec fn cache_key_view(k: CacheKey) -> KeyView {
    (k.root@, k.include_hidden, k.use_gitignore)
}

/// What a lookup at `now` finds: the entries of a slot that has not expired.
pub open spec fn lookup_result(m: SlotMap, k: KeyView, now: u64) -> Option<Seq<GlobMatch>> {
    if m.contains_key(k) && m[k].0 > now {
        Some(m[k].1)
    } else {
        None
    }
}

/// The map after a lookup at `now`: an expired slot of `k` is dropped.
pub open spec fn after_lookup(m: SlotMap, k: KeyView, now: u64) -> SlotMap {
    if m.contains_key(k) && m[k].0 <= now {
        m.remove(k)
    } else {
        m
    }
}

/// The expiry of a slot stored at `now` with `ttl_ms`, saturating.
pub open spec fn expiry(now: u64, ttl_ms: u32) -> u64 {
    if now + ttl_ms > u64::MAX {
        u64::MAX
    } else {
        (now + ttl_ms) as u64
    }
}

/// `after` is `m` with `k` stored at `now`, and, if that makes more than
/// `MAX_CACHE_ENTRIES`, one slot with the earliest expiry dropped.
pub open spec fn stored(m: SlotMap, k: KeyView, entries: Seq<GlobMatch>, now: u64, ttl_ms: u32, after: SlotMap) -> bool {
    let m1 = m.insert(k, (expiry(now, ttl_ms), entries));
    if m1.dom().len() <= MAX_CACHE_ENTRIES {
        after == m1
    } else {
        exists|k0: KeyView|
            #![trigger m1.remove(k0)]
            m1.contains_key(k0) && (forall|k1: KeyView| #[trigger] m1.contains_key(k1) ==> m1[k0].0 <= m1[k1].0) && after
                == m1.remove(k0)
    }
}

/// A short-lived cache of walk results, shared by the requests it is passed to.
pub struct DiscoveryCache {
    slots: DashMap<KeyTuple, CacheSlot>,
}

impl View for DiscoveryCache {
    type V = SlotMap;

    closed spec fn view(&self) -> SlotMap {
        slots_of(self.slots)
    }
}

/// A copy of a list of entries.
pub fn copy_entries(v: &Vec<GlobMatch>) -> (r: Vec<GlobMatch>)
    ensures
        r@ == v@,
{
    let mut r: Vec<GlobMatch> = Vec::new();
    let mut i: usize = 0;
    while i < v.len()
        invariant
            i <= v.len(),
            r@ == v@.take(i as int),
        decreases v.len() - i,
    {
        r.push(copy_match(&v[i]));
        i = i + 1;
        assert(r@ =~= v@.take(i as int));
    }
    assert(v@.take(v.len() as int) =~= v@);
    r
}

impl DiscoveryCache {
    /// An empty cache.
    pub fn new() -> (r: DiscoveryCache)
        ensures
            r@ == SlotMap::empty(),
    {
        DiscoveryCache { slots: map_new() }
    }

    /// The entries cached under `key` if they are still fresh at `now`; a
    /// stale slot is dropped.
    pub fn lookup(&mut self, key: &CacheKey, now: u64) -> (r: Option<Vec<GlobMatch>>)
        ensures
            match r {
                Some(v) => lookup_result(old(self)@, cache_key_view(*key), now) == Some(v@),
                None => lookup_result(old(self)@, cache_key_view(*key), now) is None,
            },
            final(self)@ == after_lookup(old(self)@, cache_key_view(*key), now),
    {
        let k: KeyTuple = (key.root.clone(), key.include_hidden, key.use_gitignore);
        assert(key_view(k) == cache_key_view(*key));
        match map_get(&self.slots, &k) {
            Some(slot) => {
                if slot.expires_at > now {
                    Some(slot.entries)
                } else {
                    map_remove(&mut self.slots, &k);
                    None
                }
            },
            None => None,
        }
    }

    /// Stores `entries` under `key` at `now` for `ttl_ms`, then, if the
    /// cache holds more than `MAX_CACHE_ENTRIES`, drops a slot that expires
    /// first.
    pub fn store(&mut self, key: &CacheKey, entries: &Vec<GlobMatch>, now: u64, ttl_ms: u32)
        ensures
            stored(old(self)@, cache_key_view(*key), entries@, now, ttl_ms, final(self)@),
    {
        let k: KeyTuple = (key.root.clone(), key.include_hidden, key.use_gitignore);
        assert(key_view(k) == cache_key_view(*key));
        let slot = CacheSlot { expires_at: now.saturating_add(ttl_ms as u64), entries: copy_entries(entries) };
        map_insert(&mut self.slots, k, slot);
        let ghost m1 = slots_of(self.slots);
        let exps = map_expiries(&self.slots);
        if exps.len() <= MAX_CACHE_ENTRIES {
            return;
        }
        let mut best: usize = 0;
        let mut i: usize = 1;
        while i < exps.len()
            invariant
                1 <= i <= exps@.len(),
                best < exps@.len(),
                forall|j: int| 0 <= j < i ==> exps@[best as int].1 <= #[trigger] exps@[j].1,
            decreases exps.len() - i,
        {
            if exps[i].1 < exps[best].1 {
                best = i;
            }
            i = i + 1;
        }
        let victim: KeyTuple = (exps[best].0.0.clone(), exps[best].0.1, exps[best].0.2);
        assert(key_view(victim) == key_view(exps@[best as int].0));
        proof {
            let k0 = key_view(victim);
            assert forall|k1: KeyView| #[trigger] m1.contains_key(k1) implies m1[k0].0 <= m1[k1].0 by {
                let j = choose|j: int| 0 <= j < exps@.len() && key_view(#[trigger] exps@[j].0) == k1;
            }
        }
        map_remove(&mut self.slots, &victim);
        assert(slots_of(self.slots) == m1.remove(key_view(victim)));
    }
}

impl DiscoveryCache {
    /// The fresh entries for `key` at the current time, which is returned
    /// too (the time a following `record` should use). With a zero
    /// lifetime the cache is bypassed and left alone.
    pub fn cached_entries(&mut self, key: &CacheKey, ttl_ms: u32) -> (r: (Option<Vec<GlobMatch>>, u64))
        ensures
            ttl_ms == 0 ==> r.0 is None && final(self)@ == old(self)@,
            ttl_ms > 0 ==> match r.0 {
                Some(v) => lookup_result(old(self)@, cache_key_view(*key), r.1) == Some(v@),
                None => lookup_result(old(self)@, cache_key_view(*key), r.1) is None,
            } && final(self)@ == after_lookup(old(self)@, cache_key_view(*key), r.1),
    {
        let now = crate::cancel::clock_ms();
        if ttl_ms == 0 {
            return (None, now);
        }
        (self.lookup(key, now), now)
    }

    /// Records a fresh walk of `key` made at `now`; with a zero lifetime
    /// nothing is kept.
    pub fn record(&mut self, key: &CacheKey, entries: &Vec<GlobMatch>, now: u64, ttl_ms: u32)
        ensures
            ttl_ms == 0 ==> final(self)@ == old(self)@,
            ttl_ms > 0 ==> stored(old(self)@, cache_key_view(*key), entries@, now, ttl_ms, final(self)@),
    {
        if ttl_ms > 0 {
            self.store(key, entries, now, ttl_ms);
        }
    }
}

/// Cache freshness: after a store at `now` with a positive `ttl_ms`, as long
/// as the slot was not the one evicted, a lookup before the expiry finds
/// exactly the stored entries and leaves the cache as it was (so repeated
/// lookups agree, whatever happened on disk since), and a lookup at or after
/// the expiry finds nothing, which sends the caller back to a fresh walk.
pub proof fn lemma_cache_fresh_then_stale(
    m: SlotMap,
    k: KeyView,
    entries: Seq<GlobMatch>,
    now: u64,
    ttl_ms: u32,
    after: SlotMap,
    early: u64,
    late: u64,
)
    requires
        ttl_ms > 0,
        stored(m, k, entries, now, ttl_ms, after),
        after.contains_key(k),
        early < expiry(now, ttl_ms),
        late >= expiry(now, ttl_ms),
    ensures
        lookup_result(after, k, early) == Some(entries),
        after_lookup(after, k, early) == after,
        lookup_result(after, k, late) is None,
{
    let m1 = m.insert(k, (expiry(now, ttl_ms), entries));
    if m1.dom().len() > MAX_CACHE_ENTRIES {
        let k0 = choose|k0: KeyView|
            #![trigger m1.remove(k0)]
            m1.contains_key(k0) && (forall|k1: KeyView| #[trigger] m1.contains_key(k1) ==> m1[k0].0 <= m1[k1].0) && after
                == m1.remove(k0);
        assert(k0 != k);
        assert(after[k] == m1[k]);
    }
}

} // verus!
