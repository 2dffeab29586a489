//! The cache handle: a table of entries judged against the system clock.
use vstd::prelude::*;
use serde_json::Value;
use crate::clock::current_instant;
use crate::item::{Item, Ttl, instant_fits, normalized_default, resolve};
use crate::table::{Cache, key_set, lookup, map_of_entries, stored, sweep, sweep_keys, unique_keys};

verus! {

/// A cache: its table, default time to live and sweep interval. Every
/// operation that depends on expiry reads the clock once and judges every
/// entry against that one instant.
pub struct RCache {
    cache: Cache,
}

impl View for RCache {
    type V = Map<Seq<char>, Item>;

    closed spec fn view(&self) -> Map<Seq<char>, Item> {
        self.cache@
    }
}

impl RCache {
    /// The handle's invariant: its table is well formed.
    pub closed spec fn wf(&self) -> bool {
        self.cache.wf()
    }

    /// The default time to live ("never" or a finite duration).
    pub closed spec fn default_ttl(&self) -> Ttl {
        self.cache.default_ttl()
    }

    /// The sweep interval in nanoseconds.
    pub closed spec fn sweep_interval(&self) -> u64 {
        self.cache.sweep_interval()
    }

    /// A handle that holds `table`.
    pub fn from_table(table: Cache) -> (r: RCache)
        requires
            table.wf(),
        ensures
            r.wf(),
            r@ == table@,
            r.default_ttl() == table.default_ttl(),
            r.sweep_interval() == table.sweep_interval(),
    {
        RCache { cache: table }
    }

    /// Stores `value` under `key`, replacing any previous entry and its
    /// expiration; the expiration is resolved from `ed` at the current instant.
    pub fn set(&mut self, key: &str, value: Value, ed: Ttl)
        requires
            old(self).wf(),
        ensures
            final(self).wf(),
            exists|now: u128|
                instant_fits(now) && final(self)@ == old(self)@.insert(
                    key@,
                    (Item { object: value, expiration: resolve(ed, old(self).default_ttl(), now as int) }),
                ),
            final(self).default_ttl() == old(self).default_ttl(),
            final(self).sweep_interval() == old(self).sweep_interval(),
    {
        let now = current_instant();
        self.cache.set_at(key, value, ed, now);
    }

    /// Stores `value` under `key` with the cache's default time to live.
    pub fn set_with_default_exp(&mut self, key: &str, value: Value)
        requires
            old(self).wf(),
        ensures
            final(self).wf(),
            exists|now: u128|
                instant_fits(now) && final(self)@ == old(self)@.insert(
                    key@,
                    (Item {
                        object: value,
                        expiration: resolve(Ttl::UseDefault, old(self).default_ttl(), now as int),
                    }),
                ),
            final(self).default_ttl() == old(self).default_ttl(),
            final(self).sweep_interval() == old(self).sweep_interval(),
    {
        self.set(key, value, Ttl::UseDefault)
    }

    /// Stores `value` under `key` only where the key holds a value that is
    /// not expired at the current instant.
    pub fn replace(&mut self, key: &str, value: Value, ed: Ttl)
        requires
            old(self).wf(),
        ensures
            final(self).wf(),
            exists|now: u128|
                instant_fits(now) && (if lookup(old(self)@, key@, now as int) is Some {
                    final(self)@ == old(self)@.insert(
                        key@,
                        (Item { object: value, expiration: resolve(ed, old(self).default_ttl(), now as int) }),
                    )
                } else {
                    final(self)@ == old(self)@
                }),
            final(self).default_ttl() == old(self).default_ttl(),
            final(self).sweep_interval() == old(self).sweep_interval(),
    {
        let now = current_instant();
        self.cache.replace_at(key, value, ed, now);
    }

    /// Removes every entry.
    pub fn flush(&mut self)
        requires
            old(self).wf(),
        ensures
            final(self).wf(),
            final(self)@ == Map::<Seq<char>, Item>::empty(),
            final(self).default_ttl() == old(self).default_ttl(),
            final(self).sweep_interval() == old(self).sweep_interval(),
    {
        self.cache.flush();
    }

    /// Removes the entry under `key`, if any.
    pub fn delete(&mut self, key: &str)
        requires
            old(self).wf(),
        ensures
            final(self).wf(),
            final(self)@ == old(self)@.remove(key@),
            final(self).default_ttl() == old(self).default_ttl(),
            final(self).sweep_interval() == old(self).sweep_interval(),
    {
        self.cache.delete(key);
    }

    /// The keys whose entries are expired at the current instant, with that
    /// instant: the first phase of a sweep, which only reads the table.
    pub fn expired_keys(&self) -> (r: (Vec<String>, u128))
        requires
            self.wf(),
        ensures
            instant_fits(r.1),
            key_set(r.0@) == self@.dom().filter(|k: Seq<char>| self@[k].expiration.expired_at(r.1 as int)),
    {
        let now = current_instant();
        (self.cache.expired_keys_at(now), now)
    }

    /// The second phase of a sweep: removes each entry whose key is in `keys`
    /// and which, as it stands now, is expired at `now`; an entry stored again
    /// since `keys` was collected is judged by its new expiration.
    pub fn remove_expired(&mut self, keys: &Vec<String>, now: u128)
        requires
            old(self).wf(),
        ensures
            final(self).wf(),
            final(self)@ == sweep_keys(old(self)@, key_set(keys@), now as int),
            final(self).default_ttl() == old(self).default_ttl(),
            final(self).sweep_interval() == old(self).sweep_interval(),
    {
        self.cache.remove_expired(keys, now);
    }

    /// Removes the entries expired at the current instant: the expired keys
    /// are collected, then each is removed if its entry is still expired.
    pub fn delete_expired(&mut self)
        requires
            old(self).wf(),
        ensures
            final(self).wf(),
            exists|now: u128| instant_fits(now) && final(self)@ == sweep(old(self)@, now as int),
            final(self).default_ttl() == old(self).default_ttl(),
            final(self).sweep_interval() == old(self).sweep_interval(),
    {
        let ghost m0 = self@;
        let (keys, now) = self.expired_keys();
        self.remove_expired(&keys, now);
        assert(self@ =~= sweep(m0, now as int));
    }

    /// A copy of every (key, item) pair held, expired or not.
    pub fn get_items(&self) -> (r: Vec<(String, Item)>)
        requires
            self.wf(),
        ensures
            unique_keys(r@),
            map_of_entries(r@) == self@,
    {
        self.cache.entries()
    }

    /// The value under `key`, unless it is absent or expired at the current
    /// instant. The table is left as it is.
    pub fn get(&self, key: &str) -> (r: Option<Value>)
        requires
            self.wf(),
        ensures
            exists|now: u128| instant_fits(now) && r == lookup(self@, key@, now as int),
    {
        let now = current_instant();
        self.cache.get_at(key, now)
    }

    /// The number of entries held, expired or not.
    pub fn item_count(&self) -> (r: usize)
        requires
            self.wf(),
        ensures
            r == self@.len(),
            self@.dom().finite(),
    {
        self.cache.item_count()
    }
}

/// A cache holding the pairs of `items` (a later pair replacing an earlier
/// one with the same key), with the given default time to live ("use
/// default" is read as "never") and sweep interval in nanoseconds.
pub fn new_cache(default_expiration: Ttl, clean_expiration: u64, items: Vec<(String, Item)>) -> (r: RCache)
    ensures
        r.wf(),
        r@ == stored(items@),
        r.default_ttl() == normalized_default(default_expiration),
        r.sweep_interval() == clean_expiration,
{
    RCache::from_table(Cache::from_items(default_expiration, clean_expiration, &items))
}

/// An empty cache with the given default time to live and sweep interval.
pub fn new(default_expiration: Ttl, clean_expiration: u64) -> (r: RCache)
    ensures
        r.wf(),
        r@ == Map::<Seq<char>, Item>::empty(),
        r.default_ttl() == normalized_default(default_expiration),
        r.sweep_interval() == clean_expiration,
{
    RCache::from_table(Cache::empty(default_expiration, clean_expiration))
}

/// A cache holding the pairs of `items`, with the given default time to live
/// and sweep interval.
pub fn new_from(default_expiration: Ttl, clean_expiration: u64, items: Vec<(String, Item)>) -> (r: RCache)
    ensures
        r.wf(),
        r@ == stored(items@),
        r.default_ttl() == normalized_default(default_expiration),
        r.sweep_interval() == clean_expiration,
{
    new_cache(default_expiration, clean_expiration, items)
}

} // verus!
