//! The resolver cache: for how long a resolved name is used again.

use crate::net::SocketAddress;
use vstd::prelude::*;

verus! {

/// The default of the most entries of the cache.
pub const DEFAULT_MAX_ENTRIES: u64 = 2000;

/// The default time for which an entry is used, in seconds.
pub const DEFAULT_TTL_SECS: u64 = 300;

/// A resolved name in the cache.
#[derive(Debug, Clone, Copy, PartialEq, Eq, Structural)]
pub struct CachedAddress {
    pub addr: SocketAddress,
    /// The time from which on the entry is no longer used, in
    /// milliseconds.
    pub ttl: u64,
}

/// What the cache says of a name.
#[derive(Debug, Clone, Copy, PartialEq, Eq, Structural)]
pub enum CacheLookup {
    /// The name is cached and the entry is fresh: use this address.
    Hit(SocketAddress),
    /// The name is cached but the entry is too old: drop it and resolve.
    Expired,
    /// The name is not cached: resolve.
    Miss,
}

/// What the cache says at `now` of a name for which it holds `cached`.
pub open spec fn spec_lookup(cached: Option<CachedAddress>, now: u64) -> CacheLookup {
    match cached {
        Some(entry) => if now < entry.ttl {
            CacheLookup::Hit(entry.addr)
        } else {
            CacheLookup::Expired
        },
        None => CacheLookup::Miss,
    }
}

/// The time at which an entry made at `now` is no longer used, with
/// `ttl_secs` seconds to live: `now` and those seconds in milliseconds,
/// or the last moment there is where that is past it.
pub open spec fn spec_expiry(now: u64, ttl_secs: u64) -> u64 {
    if now + ttl_secs * 1000 > u64::MAX {
        u64::MAX
    } else {
        (now + ttl_secs * 1000) as u64
    }
}

/// The settings of the resolver cache.
#[derive(Debug, Clone, Copy, PartialEq, Eq, Structural)]
pub struct DnsResolver {
    pub max_entries: u64,
    pub ttl_secs: u64,
}

impl DnsResolver {
    /// A resolver with the default settings.
    pub fn new() -> (r: Self)
        ensures
            r == (DnsResolver { max_entries: DEFAULT_MAX_ENTRIES, ttl_secs: DEFAULT_TTL_SECS }),
    {
        Self::with_config(DEFAULT_MAX_ENTRIES, DEFAULT_TTL_SECS)
    }

    /// A resolver that caches at most `max_entries` names, each for
    /// `ttl_secs` seconds.
    pub fn with_config(max_entries: u64, ttl_secs: u64) -> (r: Self)
        ensures
            r == (DnsResolver { max_entries, ttl_secs }),
    {
        Self { max_entries, ttl_secs }
    }

    /// What the cache says at `now` of a name for which it holds `cached`.
    pub fn lookup(&self, cached: Option<CachedAddress>, now: u64) -> (r: CacheLookup)
        ensures
            r == spec_lookup(cached, now),
    {
        match cached {
            Some(entry) => if now < entry.ttl {
                CacheLookup::Hit(entry.addr)
            } else {
                CacheLookup::Expired
            },
            None => CacheLookup::Miss,
        }
    }

    /// The entry to cache for a name that was resolved to `addr` at `now`.
    pub fn entry(&self, addr: SocketAddress, now: u64) -> (e: CachedAddress)
        ensures
            e == (CachedAddress { addr, ttl: spec_expiry(now, self.ttl_secs) }),
    {
        let life: u64 = match self.ttl_secs.checked_mul(1000) {
            Some(ms) => ms,
            None => u64::MAX,
        };
        let ttl: u64 = match now.checked_add(life) {
            Some(t) => t,
            None => u64::MAX,
        };
        CachedAddress { addr, ttl }
    }

    /// The address of a name after the resolver was asked: the first
    /// address that it gave, or nothing where it gave none.
    pub fn resolve(&self, first: Option<SocketAddress>, now: u64) -> (r: Option<CachedAddress>)
        ensures
            r == (match first {
                Some(addr) => Some(CachedAddress { addr, ttl: spec_expiry(now, self.ttl_secs) }),
                None => None,
            }),
    {
        match first {
            Some(addr) => Some(self.entry(addr, now)),
            None => None,
        }
    }
}

/// A cached address is used only while it is fresh, and what is used is
/// what was resolved: an entry made at `made` answers every lookup before
/// its time is over with the address that it was made for, and none after.
/// (The last moment there is counts as after.)
pub proof fn lemma_cache_is_transparent(
    addr: SocketAddress,
    made: u64,
    ttl_secs: u64,
    now: u64,
)
    ensures
        spec_lookup(Some(CachedAddress { addr, ttl: spec_expiry(made, ttl_secs) }), now) == (if now
            < spec_expiry(made, ttl_secs) {
            CacheLookup::Hit(addr)
        } else {
            CacheLookup::Expired
        }),
        made <= now < u64::MAX && now - made < ttl_secs * 1000 ==> spec_lookup(
            Some(CachedAddress { addr, ttl: spec_expiry(made, ttl_secs) }),
            now,
        ) == CacheLookup::Hit(addr),
{
}

} // verus!
