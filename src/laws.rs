//! Properties of the cache stated over the table's model and proved.
use vstd::prelude::*;
use serde_json::Value;
use crate::item::{Expiry, Item, Ttl, instant_fits, normalized_default, resolve};
use crate::table::{lookup, stored, sweep, sweep_keys};

verus! {

/// A key that no stored pair carries is not found, at any instant.
pub proof fn law_never_set_is_absent(items: Seq<(String, Item)>, k: Seq<char>, now: int)
    requires
        forall|i: int| 0 <= i < items.len() ==> items[i].0@ != k,
    ensures
        !stored(items).contains_key(k),
        lookup(stored(items), k, now) is None,
    decreases items.len(),
{
    if items.len() > 0 {
        law_never_set_is_absent(items.drop_last(), k, now);
    }
}

/// A value stored with "never expire" is found at every later instant.
pub proof fn law_never_expires(
    m: Map<Seq<char>, Item>,
    k: Seq<char>,
    v: Value,
    default: Ttl,
    stored_at: int,
    now: int,
)
    ensures
        lookup(
            m.insert(k, (Item { object: v, expiration: resolve(Ttl::Never, default, stored_at) })),
            k,
            now,
        ) == Some(v),
{
}

/// A value stored at `stored_at` for `d` nanoseconds is found while less than
/// `d` has elapsed, and not found once `d` or more has elapsed.
pub proof fn law_finite_ttl(
    m: Map<Seq<char>, Item>,
    k: Seq<char>,
    v: Value,
    d: u64,
    default: Ttl,
    stored_at: u128,
    elapsed: int,
)
    requires
        instant_fits(stored_at),
        elapsed >= 0,
    ensures
        lookup(
            m.insert(k, (Item { object: v, expiration: resolve(Ttl::For(d), default, stored_at as int) })),
            k,
            stored_at + elapsed,
        ) == if elapsed < d {
            Some(v)
        } else {
            None::<Value>
        },
{
}

/// Storing with "use default" in a cache built with default `default` gives
/// the same table as storing with `default` itself.
pub proof fn law_default_policy(m: Map<Seq<char>, Item>, k: Seq<char>, v: Value, default: Ttl, now: int)
    ensures
        resolve(Ttl::UseDefault, normalized_default(default), now) == resolve(
            default,
            normalized_default(default),
            now,
        ),
        m.insert(
            k,
            (Item { object: v, expiration: resolve(Ttl::UseDefault, normalized_default(default), now) }),
        ) == m.insert(
            k,
            (Item { object: v, expiration: resolve(default, normalized_default(default), now) }),
        ),
{
}

/// Once `d` or more has elapsed since a key was stored for `d`, a sweep
/// removes its entry; where no other entry is expired, the count drops by
/// exactly one.
pub proof fn law_sweep_removes_expired(
    m: Map<Seq<char>, Item>,
    k: Seq<char>,
    v: Value,
    d: u64,
    default: Ttl,
    stored_at: u128,
    now: int,
)
    requires
        m.dom().finite(),
        instant_fits(stored_at),
        now >= stored_at + d,
        forall|j: Seq<char>| m.contains_key(j) && j != k ==> !m[j].expiration.expired_at(now),
    ensures
        ({
            let m1 = m.insert(
                k,
                (Item { object: v, expiration: resolve(Ttl::For(d), default, stored_at as int) }),
            );
            &&& !sweep(m1, now).contains_key(k)
            &&& sweep(m1, now).len() + 1 == m1.len()
        }),
{
    let m1 = m.insert(
        k,
        (Item { object: v, expiration: resolve(Ttl::For(d), default, stored_at as int) }),
    );
    assert(sweep(m1, now) =~= m1.remove(k));
    assert(m1.dom().finite());
}

/// Sweeping twice at the same instant leaves the table as one sweep does.
pub proof fn law_sweep_idempotent(m: Map<Seq<char>, Item>, now: int)
    ensures
        sweep(sweep(m, now), now) == sweep(m, now),
{
    assert(sweep(sweep(m, now), now) =~= sweep(m, now));
}

/// A value stored between the two phases of a sweep, with an expiration
/// still ahead at the sweep's instant, survives the sweep and is found,
/// whatever keys the first phase collected.
pub proof fn law_sweep_spares_fresh_value(
    m: Map<Seq<char>, Item>,
    keys: Set<Seq<char>>,
    k: Seq<char>,
    v2: Value,
    expiration: Expiry,
    now: int,
)
    requires
        !expiration.expired_at(now),
    ensures
        lookup(sweep_keys(m.insert(k, (Item { object: v2, expiration })), keys, now), k, now) == Some(
            v2,
        ),
{
    let m1 = m.insert(k, (Item { object: v2, expiration }));
    assert(m1.dom().filter(|x: Seq<char>| !(keys.contains(x) && m1[x].expiration.expired_at(now))).contains(k));
}

} // verus!
