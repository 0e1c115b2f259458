//! The cached snapshot of a run and the staleness policy that decides
//! whether a run may reuse it or must call the remote provider.

use vstd::prelude::*;

use crate::item::Item;
use crate::item::ItemV;

verus! {

/// A snapshot older than this many seconds is stale.
pub const MAX_CACHE_AGE: u64 = 60 * 60 * 24 * 3;

/// A point in time, as a duration since the epoch.
#[derive(Clone, Copy, Debug, PartialEq, Eq, Structural)]
pub struct Timestamp {
    pub secs: u64,
    pub nanos: u32,
}

/// `a` is no later than `b`.
pub open spec fn timestamp_le(a: Timestamp, b: Timestamp) -> bool {
    a.secs < b.secs || (a.secs == b.secs && a.nanos <= b.nanos)
}

/// Whole seconds elapsed from `from` to `to`; meaningful when
/// `timestamp_le(from, to)` holds.
pub open spec fn age_secs(from: Timestamp, to: Timestamp) -> int {
    if to.nanos >= from.nanos {
        to.secs - from.secs
    } else {
        to.secs - from.secs - 1
    }
}

/// One timestamped, user-tagged snapshot of the not-yet-handled items.
#[derive(Debug, PartialEq, Eq)]
pub struct Cache {
    pub fetched_at: Timestamp,
    pub user: String,
    pub list: Vec<Item>,
}

/// The mathematical value of a [`Cache`].
pub ghost struct CacheV {
    pub fetched_at: Timestamp,
    pub user: Seq<char>,
    pub list: Seq<ItemV>,
}

impl View for Cache {
    type V = CacheV;

    open spec fn view(&self) -> CacheV {
        CacheV {
            fetched_at: self.fetched_at,
            user: self.user@,
            list: self.list@.map_values(|x: Item| x@),
        }
    }
}

/// A snapshot is fresh for a run iff it belongs to the run's user, does not
/// lie in the future (clock skew counts as stale, never as an underflow),
/// and is at most [`MAX_CACHE_AGE`] seconds old.
pub open spec fn spec_fresh(cache: CacheV, user: Seq<char>, now: Timestamp) -> bool {
    &&& cache.user == user
    &&& timestamp_le(cache.fetched_at, now)
    &&& age_secs(cache.fetched_at, now) <= MAX_CACHE_AGE
}

/// A run reuses the cached list iff caching is not bypassed, a snapshot
/// exists, and that snapshot is fresh for the run's user.
pub open spec fn spec_use_cache(
    no_cache: bool,
    cache: Option<Cache>,
    user: Seq<char>,
    now: Timestamp,
) -> bool {
    !no_cache && match cache {
        Some(c) => spec_fresh(c@, user, now),
        None => false,
    }
}

impl Cache {
    pub fn new(fetched_at: Timestamp, user: String, list: Vec<Item>) -> (r: Self)
        ensures
            r.fetched_at == fetched_at,
            r.user@ == user@,
            r.list == list,
    {
        Cache { fetched_at, list, user }
    }

    /// Whether this snapshot may stand in for a fetch in a run as `user`
    /// happening at time `now`.
    pub fn is_fresh(&self, user: &String, now: Timestamp) -> (r: bool)
        ensures
            r == spec_fresh(self@, user@, now),
            self@.user != user@ ==> !r,
    {
        if !self.user.eq(user) {
            return false;
        }
        if now.secs < self.fetched_at.secs {
            return false;
        }
        if now.secs == self.fetched_at.secs && now.nanos < self.fetched_at.nanos {
            return false;
        }
        let diff: u64 = if now.nanos >= self.fetched_at.nanos {
            now.secs - self.fetched_at.secs
        } else {
            now.secs - self.fetched_at.secs - 1
        };
        diff <= MAX_CACHE_AGE
    }
}

/// The single decision of the cache-or-provider path: true iff the run must
/// call the remote provider, false iff the cached list is reused verbatim.
pub fn should_fetch(no_cache: bool, cache: &Option<Cache>, user: &String, now: Timestamp) -> (r:
    bool)
    ensures
        r == !spec_use_cache(no_cache, *cache, user@, now),
        (*cache) matches Some(c) && c@.user == user@ && timestamp_le(c.fetched_at, now)
            && age_secs(c.fetched_at, now) <= MAX_CACHE_AGE && !no_cache ==> !r,
        (*cache) matches Some(c) && c@.user != user@ ==> r,
        (*cache) is None ==> r,
{
    if no_cache {
        return true;
    }
    match cache {
        None => true,
        Some(c) => !c.is_fresh(user, now),
    }
}

/// Startup configuration persisted between runs.
#[derive(Debug, PartialEq, Eq)]
pub struct Config {
    pub user: String,
}

impl Cache {
    /// The file a snapshot of this prefix lives in.
    pub fn get_file(prefix: &str) -> (r: String)
        ensures
            r@ == prefix@ + "_cache.json"@,
    {
        String::from_str(prefix).concat("_cache.json")
    }
}

impl Config {
    pub fn new() -> (r: Config)
        ensures
            r.user@ == Seq::<char>::empty(),
    {
        Config { user: String::new() }
    }
}

} // verus!
