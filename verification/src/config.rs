//! The configuration the client runs on: the league, the cached exchange
//! ratio with its freshness timestamp, and the items to price.
//!
//! Loading and saving the configuration file is plain I/O and stays with the
//! caller; the decision when the cached ratio must be refreshed, and the
//! bookkeeping of a refresh, are logic and live here. Instants are seconds of
//! the caller's wall clock.

use vstd::prelude::*;

verus! {

/// How long a cached exchange ratio stays fresh: one day, in seconds.
pub const RATIO_MAX_AGE_SECS: u64 = 86400;

/// An item to price: a display name and the opaque query payload the search
/// endpoint understands.
pub struct Item {
    pub name: String,
    pub query: String,
}

/// Recorded normalized prices of one item, in hundredths of the base unit.
pub struct Prices {
    pub chaos: Vec<u128>,
}

pub struct Config {
    pub league: String,
    /// Base units per one alternate unit, as a whole number; zero means the
    /// ratio was never fetched.
    pub chaos_to_divine: u32,
    /// When the ratio was last fetched, in seconds of the wall clock.
    pub last_update: Option<u64>,
    pub items: Vec<Item>,
    /// Recorded price lists, keyed by item name; see `prices_keys_unique`.
    pub prices: Option<Vec<(String, Prices)>>,
}

impl Config {
    /// The recorded price lists form a map from item name to prices: each
    /// name appears at most once. Nothing in the library reads the field, but
    /// every producer of a `Config` is expected to keep this.
    pub open spec fn prices_keys_unique(self) -> bool {
        self.prices matches Some(ps) ==> (forall|a: int, b: int|
            0 <= a < b < ps@.len() ==> ps@[a].0@ != ps@[b].0@)
    }

    /// Whether the cached ratio must be refreshed at instant `now_secs`: it
    /// was never fetched, or it is unset, or it is more than a day old.
    pub fn ratio_is_stale(&self, now_secs: u64) -> (r: bool)
        ensures
            r == (self.chaos_to_divine == 0 || self.last_update is None || (
            self.last_update matches Some(t) && t + RATIO_MAX_AGE_SECS < now_secs)),
    {
        if self.chaos_to_divine == 0 {
            return true;
        }
        match self.last_update {
            None => true,
            Some(t) => now_secs > RATIO_MAX_AGE_SECS && t < now_secs - RATIO_MAX_AGE_SECS,
        }
    }

    /// Record a freshly fetched ratio and the instant it was fetched;
    /// everything else is untouched. The caller is expected to persist the
    /// configuration afterwards.
    pub fn set_chaos_to_divine(&mut self, ratio: u32, now_secs: u64)
        ensures
            final(self).chaos_to_divine == ratio,
            final(self).last_update == Some(now_secs),
            final(self).league == old(self).league,
            final(self).items == old(self).items,
            final(self).prices == old(self).prices,
    {
        self.chaos_to_divine = ratio;
        self.last_update = Some(now_secs);
    }
}

} // verus!
