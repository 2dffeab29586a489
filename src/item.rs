//! Entries of the cache and the time-to-live policy that dates them.
use vstd::prelude::*;
use serde_json::Value;
use crate::clock::current_instant;

verus! {

/// Lets verified code carry JSON values; their contents are never inspected.
#[verifier::external_type_specification]
#[verifier::external_body]
pub struct ExValue(serde_json::Value);

/// Relies on the derived `Clone` of `serde_json::Value`: the copy equals the value it was made from.
pub assume_specification[ <serde_json::Value as Clone>::clone ](v: &serde_json::Value) -> (r: serde_json::Value)
    ensures
        r == *v,
;

/// Nanoseconds in one second.
pub const NANOS_PER_SEC: u64 = 1_000_000_000;

/// How long a value stays valid, as requested by a caller of `set`.
#[derive(Clone, Copy, Debug, PartialEq, Eq, Structural)]
pub enum Ttl {
    /// Use the cache's default time to live.
    UseDefault,
    /// The value never expires.
    Never,
    /// The value expires this many nanoseconds after it is stored; zero means
    /// that it is expired at once.
    For(u64),
}

/// The absolute expiration instant of an entry.
#[derive(Clone, Copy, Debug, PartialEq, Eq, Structural)]
pub enum Expiry {
    /// The entry never expires.
    Never,
    /// The entry is expired at this instant (nanoseconds since the epoch) and later.
    At(u128),
}

impl Expiry {
    /// An entry is expired from its expiration instant on; `Never` is never expired.
    pub open spec fn expired_at(self, now: int) -> bool {
        match self {
            Expiry::Never => false,
            Expiry::At(t) => now >= t,
        }
    }
}

/// The largest instant from which any finite time to live can still be added.
pub open spec fn instant_fits(now: u128) -> bool {
    now as int + u64::MAX as int <= u128::MAX as int
}

/// The default policy that a cache keeps: "use default" is read as "never".
pub open spec fn normalized_default(ttl: Ttl) -> Ttl {
    match ttl {
        Ttl::UseDefault => Ttl::Never,
        _ => ttl,
    }
}

/// The expiration instant of a value stored at `now` with `ttl`, where the
/// cache's default is `default`.
pub open spec fn resolve(ttl: Ttl, default: Ttl, now: int) -> Expiry {
    match ttl {
        Ttl::UseDefault => match normalized_default(default) {
            Ttl::For(d) => Expiry::At((now + d) as u128),
            _ => Expiry::Never,
        },
        Ttl::Never => Expiry::Never,
        Ttl::For(d) => Expiry::At((now + d) as u128),
    }
}

/// Normalizes a default policy: "use default" becomes "never".
pub fn normalize_default(ttl: Ttl) -> (r: Ttl)
    ensures
        r == normalized_default(ttl),
        r != Ttl::UseDefault,
{
    match ttl {
        Ttl::UseDefault => Ttl::Never,
        _ => ttl,
    }
}

/// Computes the expiration instant of a value stored at `now` with `ttl`.
pub fn resolve_expiry(ttl: Ttl, default: Ttl, now: u128) -> (r: Expiry)
    requires
        instant_fits(now),
    ensures
        r == resolve(ttl, default, now as int),
{
    let effective = match ttl {
        Ttl::UseDefault => normalize_default(default),
        _ => ttl,
    };
    match effective {
        Ttl::For(d) => Expiry::At(now + d as u128),
        _ => Expiry::Never,
    }
}

/// One cached value and its expiration.
pub struct Item {
    pub object: Value,
    pub expiration: Expiry,
}

impl Item {
    /// An item holding `object` that expires as `expiration` says.
    pub fn new(object: Value, expiration: Expiry) -> (r: Item)
        ensures
            r.object == object,
            r.expiration == expiration,
    {
        Item { object, expiration }
    }

    /// A copy of this item.
    pub fn duplicate(&self) -> (r: Item)
        ensures
            r == *self,
    {
        Item { object: self.object.clone(), expiration: self.expiration }
    }

    /// Whether this item is expired at the current instant; an item that
    /// never expires never is.
    pub fn is_expired(&self) -> (r: bool)
        ensures
            self.expiration == Expiry::Never ==> !r,
            r ==> self.expiration is At,
            exists|now: u128| instant_fits(now) && r == self.expiration.expired_at(now as int),
    {
        self.is_expired_at(current_instant())
    }

    /// Whether this item is expired at `now`.
    pub fn is_expired_at(&self, now: u128) -> (r: bool)
        ensures
            r == self.expiration.expired_at(now as int),
    {
        match self.expiration {
            Expiry::Never => false,
            Expiry::At(t) => now >= t,
        }
    }
}

} // verus!
