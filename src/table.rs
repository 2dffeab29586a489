//! The table of entries: a vector of (key, item) pairs with unique keys,
//! seen by contracts as a map from key to item.
use vstd::prelude::*;
use serde_json::Value;
use crate::item::{Item, Ttl, instant_fits, normalize_default, normalized_default, resolve, resolve_expiry};

verus! {

/// Whether the pairs of `items` carry pairwise distinct keys.
pub open spec fn unique_keys(items: Seq<(String, Item)>) -> bool {
    forall|i: int, j: int|
        0 <= i < items.len() && 0 <= j < items.len() && i != j ==> items[i].0@ != items[j].0@
}

/// Whether some pair of `items` has key `k`.
pub open spec fn has_key(items: Seq<(String, Item)>, k: Seq<char>) -> bool {
    exists|i: int| 0 <= i < items.len() && items[i].0@ == k
}

/// The item paired with key `k` in `items`.
pub open spec fn entry_for(items: Seq<(String, Item)>, k: Seq<char>) -> Item {
    items[choose|i: int| 0 <= i < items.len() && items[i].0@ == k].1
}

/// The map from key to item that `items` stands for.
pub open spec fn map_of_entries(items: Seq<(String, Item)>) -> Map<Seq<char>, Item> {
    Map::new(|k: Seq<char>| has_key(items, k), |k: Seq<char>| entry_for(items, k))
}

/// The map obtained by storing the pairs of `items` one after another, a
/// later pair replacing an earlier one with the same key.
pub open spec fn stored(items: Seq<(String, Item)>) -> Map<Seq<char>, Item>
    decreases items.len(),
{
    if items.len() == 0 {
        Map::empty()
    } else {
        stored(items.drop_last()).insert(items.last().0@, items.last().1)
    }
}

/// What a lookup of `k` at `now` yields: the value if the key is present and
/// its entry is not expired.
pub open spec fn lookup(m: Map<Seq<char>, Item>, k: Seq<char>, now: int) -> Option<Value> {
    if m.contains_key(k) && !m[k].expiration.expired_at(now) {
        Some(m[k].object)
    } else {
        None
    }
}

/// The table without the entries that are expired at `now`.
pub open spec fn sweep(m: Map<Seq<char>, Item>, now: int) -> Map<Seq<char>, Item> {
    m.restrict(m.dom().filter(|k: Seq<char>| !m[k].expiration.expired_at(now)))
}

/// The table without those entries whose key is in `ks` and which are expired at `now`.
pub open spec fn sweep_keys(m: Map<Seq<char>, Item>, ks: Set<Seq<char>>, now: int) -> Map<
    Seq<char>,
    Item,
> {
    m.restrict(m.dom().filter(|k: Seq<char>| !(ks.contains(k) && m[k].expiration.expired_at(now))))
}

/// The keys of `keys`, as a set of character sequences.
pub open spec fn key_set(keys: Seq<String>) -> Set<Seq<char>> {
    Set::new(|k: Seq<char>| exists|i: int| 0 <= i < keys.len() && keys[i]@ == k)
}

/// Whether one of the first `n` pairs of `items` has key `k` and is expired at `now`.
spec fn expired_in_prefix(items: Seq<(String, Item)>, n: int, k: Seq<char>, now: int) -> bool {
    exists|j: int| 0 <= j < n && items[j].0@ == k && items[j].1.expiration.expired_at(now)
}

proof fn lemma_entry_at(items: Seq<(String, Item)>, i: int)
    requires
        unique_keys(items),
        0 <= i < items.len(),
    ensures
        has_key(items, items[i].0@),
        entry_for(items, items[i].0@) == items[i].1,
        map_of_entries(items).contains_key(items[i].0@),
        map_of_entries(items)[items[i].0@] == items[i].1,
{
    let k = items[i].0@;
    assert(has_key(items, k));
    let j = choose|j: int| 0 <= j < items.len() && items[j].0@ == k;
    assert(j == i);
}

proof fn lemma_update(items: Seq<(String, Item)>, i: int, key: String, item: Item)
    requires
        unique_keys(items),
        0 <= i < items.len(),
        items[i].0@ == key@,
    ensures
        unique_keys(items.update(i, (key, item))),
        map_of_entries(items.update(i, (key, item))) == map_of_entries(items).insert(key@, item),
{
    let n = items.update(i, (key, item));
    assert(unique_keys(n));
    lemma_entry_at(n, i);
    assert forall|k: Seq<char>| has_key(n, k) <==> has_key(items, k) || k == key@ by {
        if has_key(items, k) {
            let j = choose|j: int| 0 <= j < items.len() && items[j].0@ == k;
            assert(n[j].0@ == k);
        }
        if has_key(n, k) {
            let j = choose|j: int| 0 <= j < n.len() && n[j].0@ == k;
            assert(items[j].0@ == k);
        }
    }
    assert forall|k: Seq<char>| has_key(n, k) && k != key@ implies entry_for(n, k) == entry_for(
        items,
        k,
    ) by {
        let j = choose|j: int| 0 <= j < n.len() && n[j].0@ == k;
        lemma_entry_at(n, j);
        lemma_entry_at(items, j);
    }
    assert(map_of_entries(n) =~= map_of_entries(items).insert(key@, item));
}

proof fn lemma_push(items: Seq<(String, Item)>, key: String, item: Item)
    requires
        unique_keys(items),
        !has_key(items, key@),
    ensures
        unique_keys(items.push((key, item))),
        map_of_entries(items.push((key, item))) == map_of_entries(items).insert(key@, item),
{
    let n = items.push((key, item));
    assert(unique_keys(n)) by {
        assert forall|i: int| 0 <= i < items.len() implies items[i].0@ != key@ by {
            if items[i].0@ == key@ {
                assert(has_key(items, key@));
            }
        }
    }
    lemma_entry_at(n, items.len() as int);
    assert forall|k: Seq<char>| has_key(n, k) <==> has_key(items, k) || k == key@ by {
        if has_key(items, k) {
            let j = choose|j: int| 0 <= j < items.len() && items[j].0@ == k;
            assert(n[j].0@ == k);
        }
        if has_key(n, k) && k != key@ {
            let j = choose|j: int| 0 <= j < n.len() && n[j].0@ == k;
            assert(items[j].0@ == k);
        }
    }
    assert forall|k: Seq<char>| has_key(n, k) && k != key@ implies entry_for(n, k) == entry_for(
        items,
        k,
    ) by {
        let j = choose|j: int| 0 <= j < n.len() && n[j].0@ == k;
        lemma_entry_at(n, j);
        lemma_entry_at(items, j);
    }
    assert(map_of_entries(n) =~= map_of_entries(items).insert(key@, item));
}

proof fn lemma_remove(items: Seq<(String, Item)>, i: int)
    requires
        unique_keys(items),
        0 <= i < items.len(),
    ensures
        unique_keys(items.remove(i)),
        map_of_entries(items.remove(i)) == map_of_entries(items).remove(items[i].0@),
{
    let n = items.remove(i);
    let key = items[i].0@;
    assert(unique_keys(n)) by {
        assert forall|a: int, b: int|
            0 <= a < n.len() && 0 <= b < n.len() && a != b implies n[a].0@ != n[b].0@ by {
            let a1 = if a < i { a } else { a + 1 };
            let b1 = if b < i { b } else { b + 1 };
            assert(n[a] == items[a1]);
            assert(n[b] == items[b1]);
        }
    }
    assert forall|k: Seq<char>| has_key(n, k) <==> has_key(items, k) && k != key by {
        if has_key(items, k) && k != key {
            let j = choose|j: int| 0 <= j < items.len() && items[j].0@ == k;
            if j < i {
                assert(n[j].0@ == k);
            } else {
                assert(j != i);
                assert(n[j - 1].0@ == k);
            }
        }
        if has_key(n, k) {
            let j = choose|j: int| 0 <= j < n.len() && n[j].0@ == k;
            let j1 = if j < i { j } else { j + 1 };
            assert(items[j1].0@ == k);
            assert(j1 != i);
        }
    }
    assert forall|k: Seq<char>| has_key(n, k) implies entry_for(n, k) == entry_for(items, k) by {
        let j = choose|j: int| 0 <= j < n.len() && n[j].0@ == k;
        let j1 = if j < i { j } else { j + 1 };
        lemma_entry_at(n, j);
        lemma_entry_at(items, j1);
    }
    assert(map_of_entries(n) =~= map_of_entries(items).remove(key));
}

proof fn lemma_len(items: Seq<(String, Item)>)
    requires
        unique_keys(items),
    ensures
        map_of_entries(items).dom().finite(),
        map_of_entries(items).len() == items.len(),
{
    let ks = items.map_values(|p: (String, Item)| p.0@);
    assert(ks.no_duplicates());
    ks.unique_seq_to_set();
    assert forall|k: Seq<char>| ks.contains(k) <==> has_key(items, k) by {
        if has_key(items, k) {
            let j = choose|j: int| 0 <= j < items.len() && items[j].0@ == k;
            assert(ks[j] == k);
        }
    }
    assert(map_of_entries(items).dom() =~= ks.to_set());
}

/// The sweeper's configuration: the time between two sweeps, in nanoseconds;
/// zero turns the sweeper off.
pub struct Janitor {
    pub interval: u64,
}

impl Janitor {
    /// Whether a sweeper runs at all.
    pub fn enabled(&self) -> (r: bool)
        ensures
            r == (self.interval > 0),
    {
        self.interval > 0
    }
}

/// The cache's storage: its entries and its default time to live.
pub struct Cache {
    default_expiration: Ttl,
    items: Vec<(String, Item)>,
    janitor: Janitor,
}

impl View for Cache {
    type V = Map<Seq<char>, Item>;

    closed spec fn view(&self) -> Map<Seq<char>, Item> {
        map_of_entries(self.items@)
    }
}

impl Cache {
    /// The cache's invariant: keys are unique and the default is resolved.
    pub closed spec fn wf(&self) -> bool {
        &&& unique_keys(self.items@)
        &&& self.default_expiration != Ttl::UseDefault
    }

    /// The default time to live ("never" or a finite duration).
    pub closed spec fn default_ttl(&self) -> Ttl {
        self.default_expiration
    }

    /// The sweep interval in nanoseconds.
    pub closed spec fn sweep_interval(&self) -> u64 {
        self.janitor.interval
    }

    /// The table holds finitely many entries, one per element of its vector.
    pub proof fn lemma_finite(&self)
        requires
            self.wf(),
        ensures
            self@.dom().finite(),
    {
        lemma_len(self.items@);
    }

    /// The default time to live of this cache.
    pub fn default_expiration(&self) -> (r: Ttl)
        ensures
            r == self.default_ttl(),
    {
        self.default_expiration
    }

    /// The sweeper's configuration of this cache.
    pub fn janitor(&self) -> (r: &Janitor)
        ensures
            r.interval == self.sweep_interval(),
    {
        &self.janitor
    }

    /// An empty table with the given default and sweep interval; a default of
    /// "use default" is read as "never".
    pub fn empty(default_expiration: Ttl, interval: u64) -> (r: Cache)
        ensures
            r.wf(),
            r@ == Map::<Seq<char>, Item>::empty(),
            r.default_ttl() == normalized_default(default_expiration),
            r.sweep_interval() == interval,
    {
        let r = Cache {
            default_expiration: normalize_default(default_expiration),
            items: Vec::new(),
            janitor: Janitor { interval },
        };
        assert(r@ =~= Map::<Seq<char>, Item>::empty());
        r
    }

    /// The position of `key` in the table, if present.
    fn find(&self, key: &String) -> (r: Option<usize>)
        requires
            self.wf(),
        ensures
            match r {
                Some(i) => i < self.items@.len() && self.items@[i as int].0@ == key@,
                None => !self@.contains_key(key@),
            },
    {
        let mut i: usize = 0;
        while i < self.items.len()
            invariant
                i <= self.items@.len(),
                forall|j: int| 0 <= j < i ==> self.items@[j].0@ != key@,
            decreases self.items@.len() - i,
        {
            if self.items[i].0 == *key {
                return Some(i);
            }
            i = i + 1;
        }
        None
    }

    /// Stores `item` under `key`, replacing any previous entry.
    pub fn insert_item(&mut self, key: String, item: Item)
        requires
            old(self).wf(),
        ensures
            final(self).wf(),
            final(self)@ == old(self)@.insert(key@, item),
            final(self).default_ttl() == old(self).default_ttl(),
            final(self).sweep_interval() == old(self).sweep_interval(),
    {
        match self.find(&key) {
            Some(i) => {
                proof {
                    lemma_update(self.items@, i as int, key, item);
                }
                self.items[i] = (key, item);
            },
            None => {
                proof {
                    lemma_push(self.items@, key, item);
                }
                self.items.push((key, item));
            },
        }
    }

    /// Stores `value` under `key` at instant `now`, expiring as `ttl` says.
    pub fn set_at(&mut self, key: &str, value: Value, ttl: Ttl, now: u128)
        requires
            old(self).wf(),
            instant_fits(now),
        ensures
            final(self).wf(),
            final(self)@ == old(self)@.insert(
                key@,
                (Item { object: value, expiration: resolve(ttl, old(self).default_ttl(), now as int) }),
            ),
            final(self).default_ttl() == old(self).default_ttl(),
            final(self).sweep_interval() == old(self).sweep_interval(),
    {
        let expiration = resolve_expiry(ttl, self.default_expiration, now);
        self.insert_item(key.to_owned(), Item::new(value, expiration));
    }

    /// The value stored under `key`, unless it is absent or expired at `now`.
    /// The table is left as it is.
    pub fn get_at(&self, key: &str, now: u128) -> (r: Option<Value>)
        requires
            self.wf(),
        ensures
            r == lookup(self@, key@, now as int),
    {
        let k = key.to_owned();
        match self.find(&k) {
            Some(i) => {
                proof {
                    lemma_entry_at(self.items@, i as int);
                }
                let entry = &self.items[i].1;
                if entry.is_expired_at(now) {
                    None
                } else {
                    Some(entry.object.clone())
                }
            },
            None => None,
        }
    }

    /// Stores `value` under `key` at `now` only where a lookup of `key` at
    /// `now` finds a value.
    pub fn replace_at(&mut self, key: &str, value: Value, ttl: Ttl, now: u128)
        requires
            old(self).wf(),
            instant_fits(now),
        ensures
            final(self).wf(),
            lookup(old(self)@, key@, now as int) is Some ==> final(self)@ == old(self)@.insert(
                key@,
                (Item { object: value, expiration: resolve(ttl, old(self).default_ttl(), now as int) }),
            ),
            lookup(old(self)@, key@, now as int) is None ==> final(self)@ == old(self)@,
            final(self).default_ttl() == old(self).default_ttl(),
            final(self).sweep_interval() == old(self).sweep_interval(),
    {
        if self.get_at(key, now).is_some() {
            self.set_at(key, value, ttl, now);
        }
    }

    /// Removes the entry under `key`, if any.
    pub fn delete(&mut self, key: &str)
        requires
            old(self).wf(),
        ensures
            final(self).wf(),
            final(self)@ == old(self)@.remove(key@),
            final(self).default_ttl() == old(self).default_ttl(),
            final(self).sweep_interval() == old(self).sweep_interval(),
    {
        let k = key.to_owned();
        match self.find(&k) {
            Some(i) => {
                proof {
                    lemma_remove(self.items@, i as int);
                }
                self.items.remove(i);
            },
            None => {
                assert(self@ =~= self@.remove(key@));
            },
        }
    }

    /// Removes every entry.
    pub fn flush(&mut self)
        requires
            old(self).wf(),
        ensures
            final(self).wf(),
            final(self)@ == Map::<Seq<char>, Item>::empty(),
            final(self).default_ttl() == old(self).default_ttl(),
            final(self).sweep_interval() == old(self).sweep_interval(),
    {
        self.items.clear();
        assert(self@ =~= Map::<Seq<char>, Item>::empty());
    }

    /// The number of entries held, expired or not.
    pub fn item_count(&self) -> (r: usize)
        requires
            self.wf(),
        ensures
            r == self@.len(),
            self@.dom().finite(),
    {
        proof {
            lemma_len(self.items@);
        }
        self.items.len()
    }

    /// A table holding the pairs of `items` stored in order, a later pair
    /// replacing an earlier one with the same key.
    pub fn from_items(default_expiration: Ttl, interval: u64, items: &Vec<(String, Item)>) -> (r: Cache)
        ensures
            r.wf(),
            r@ == stored(items@),
            r.default_ttl() == normalized_default(default_expiration),
            r.sweep_interval() == interval,
    {
        let mut r = Cache::empty(default_expiration, interval);
        let mut i: usize = 0;
        while i < items.len()
            invariant
                i <= items@.len(),
                r.wf(),
                r@ == stored(items@.take(i as int)),
                r.default_ttl() == normalized_default(default_expiration),
                r.sweep_interval() == interval,
            decreases items@.len() - i,
        {
            let key = items[i].0.clone();
            let item = items[i].1.duplicate();
            r.insert_item(key, item);
            assert(items@.take(i + 1).drop_last() =~= items@.take(i as int));
            i = i + 1;
        }
        assert(items@.take(i as int) =~= items@);
        r
    }

    /// A copy of every (key, item) pair held, expired or not.
    pub fn entries(&self) -> (r: Vec<(String, Item)>)
        requires
            self.wf(),
        ensures
            unique_keys(r@),
            map_of_entries(r@) == self@,
    {
        let mut r: Vec<(String, Item)> = Vec::new();
        let mut i: usize = 0;
        while i < self.items.len()
            invariant
                i <= self.items@.len(),
                r@ == self.items@.take(i as int),
            decreases self.items@.len() - i,
        {
            let key = self.items[i].0.clone();
            let item = self.items[i].1.duplicate();
            r.push((key, item));
            assert(r@ =~= self.items@.take(i + 1));
            i = i + 1;
        }
        assert(r@ =~= self.items@);
        r
    }

    /// The keys whose entries are expired at `now`: the first phase of a sweep,
    /// which only reads the table.
    pub fn expired_keys_at(&self, now: u128) -> (r: Vec<String>)
        requires
            self.wf(),
        ensures
            key_set(r@) == self@.dom().filter(|k: Seq<char>| self@[k].expiration.expired_at(now as int)),
    {
        let mut r: Vec<String> = Vec::new();
        let mut i: usize = 0;
        while i < self.items.len()
            invariant
                i <= self.items@.len(),
                self.wf(),
                forall|k: Seq<char>|
                    key_set(r@).contains(k) <==> expired_in_prefix(self.items@, i as int, k, now as int),
            decreases self.items@.len() - i,
        {
            let ghost r0 = r@;
            let ghost ki = self.items@[i as int].0@;
            let expired = self.items[i].1.is_expired_at(now);
            if expired {
                let key = self.items[i].0.clone();
                r.push(key);
                assert forall|k: Seq<char>| key_set(r@).contains(k) <==> (key_set(r0).contains(k) || k == ki) by {
                    if key_set(r@).contains(k) {
                        let a = choose|a: int| 0 <= a < r@.len() && r@[a]@ == k;
                        if a < r0.len() {
                            assert(r0[a]@ == k);
                        }
                    }
                    if key_set(r0).contains(k) {
                        let a = choose|a: int| 0 <= a < r0.len() && r0[a]@ == k;
                        assert(r@[a]@ == k);
                    }
                    if k == ki {
                        assert(r@[r0.len() as int]@ == k);
                    }
                }
            }
            assert forall|k: Seq<char>|
                expired_in_prefix(self.items@, i + 1, k, now as int) <==> (expired_in_prefix(self.items@, i as int, k, now as int)
                    || (k == ki && expired)) by {
                if expired_in_prefix(self.items@, i + 1, k, now as int) {
                    let j = choose|j: int|
                        0 <= j < i + 1 && self.items@[j].0@ == k
                            && self.items@[j].1.expiration.expired_at(now as int);
                    if j < i {
                        assert(expired_in_prefix(self.items@, i as int, k, now as int));
                    }
                }
                if expired_in_prefix(self.items@, i as int, k, now as int) {
                    let j = choose|j: int|
                        0 <= j < i && self.items@[j].0@ == k
                            && self.items@[j].1.expiration.expired_at(now as int);
                    assert(expired_in_prefix(self.items@, i + 1, k, now as int));
                }
                if k == ki && expired {
                    assert(expired_in_prefix(self.items@, i + 1, k, now as int));
                }
            }
            assert forall|k: Seq<char>|
                key_set(r@).contains(k) <==> expired_in_prefix(self.items@, i + 1, k, now as int) by {
                assert(key_set(r0).contains(k) <==> expired_in_prefix(self.items@, i as int, k, now as int));
                if !expired {
                    assert(r@ == r0);
                }
            }
            i = i + 1;
        }
        let ghost m = self@;
        assert forall|k: Seq<char>|
            key_set(r@).contains(k) <==> m.dom().filter(|k: Seq<char>| m[k].expiration.expired_at(now as int)).contains(k) by {
            if key_set(r@).contains(k) {
                let j = choose|j: int|
                    0 <= j < self.items@.len() && self.items@[j].0@ == k
                        && self.items@[j].1.expiration.expired_at(now as int);
                lemma_entry_at(self.items@, j);
            }
            if m.dom().contains(k) && m[k].expiration.expired_at(now as int) {
                let j = choose|j: int| 0 <= j < self.items@.len() && self.items@[j].0@ == k;
                lemma_entry_at(self.items@, j);
            }
        }
        assert(key_set(r@) =~= m.dom().filter(|k: Seq<char>| m[k].expiration.expired_at(now as int)));
        r
    }

    /// The second phase of a sweep: removes each entry whose key is in `keys`
    /// and which, as it stands now in the table, is expired at `now`. An
    /// entry stored again since `keys` was taken is judged by its new
    /// expiration, not by the old one.
    pub fn remove_expired(&mut self, keys: &Vec<String>, now: u128)
        requires
            old(self).wf(),
        ensures
            final(self).wf(),
            final(self)@ == sweep_keys(old(self)@, key_set(keys@), now as int),
            final(self).default_ttl() == old(self).default_ttl(),
            final(self).sweep_interval() == old(self).sweep_interval(),
    {
        let ghost m0 = self@;
        let mut i: usize = 0;
        assert(self@ =~= sweep_keys(m0, key_set(keys@.take(0)), now as int));
        while i < keys.len()
            invariant
                i <= keys@.len(),
                self.wf(),
                self@ == sweep_keys(m0, key_set(keys@.take(i as int)), now as int),
                self.default_ttl() == old(self).default_ttl(),
                self.sweep_interval() == old(self).sweep_interval(),
            decreases keys@.len() - i,
        {
            let ghost k = keys@[i as int]@;
            let ghost before = self@;
            let ghost t0 = keys@.take(i as int);
            let ghost t1 = keys@.take(i + 1);
            assert(key_set(t1) =~= key_set(t0).insert(k)) by {
                assert forall|x: Seq<char>| key_set(t1).contains(x) <==> key_set(t0).insert(k).contains(x) by {
                    if key_set(t1).contains(x) {
                        let a = choose|a: int| 0 <= a < t1.len() && t1[a]@ == x;
                        if a < i {
                            assert(t0[a]@ == x);
                        }
                    }
                    if key_set(t0).contains(x) {
                        let a = choose|a: int| 0 <= a < t0.len() && t0[a]@ == x;
                        assert(t1[a]@ == x);
                    }
                    if x == k {
                        assert(t1[i as int]@ == x);
                    }
                }
            }
            match self.find(&keys[i]) {
                Some(j) => {
                    proof {
                        lemma_entry_at(self.items@, j as int);
                    }
                    if self.items[j].1.is_expired_at(now) {
                        proof {
                            lemma_remove(self.items@, j as int);
                        }
                        self.items.remove(j);
                    }
                },
                None => {},
            }
            assert(self@ =~= sweep_keys(m0, key_set(keys@.take(i + 1)), now as int));
            i = i + 1;
        }
        assert(keys@.take(i as int) =~= keys@);
    }

    /// Removes every entry that is expired at `now`.
    pub fn delete_expired_at(&mut self, now: u128)
        requires
            old(self).wf(),
        ensures
            final(self).wf(),
            final(self)@ == sweep(old(self)@, now as int),
            final(self).default_ttl() == old(self).default_ttl(),
            final(self).sweep_interval() == old(self).sweep_interval(),
    {
        let ghost m0 = self@;
        let keys = self.expired_keys_at(now);
        self.remove_expired(&keys, now);
        assert(self@ =~= sweep(m0, now as int));
    }
}

} // verus!
