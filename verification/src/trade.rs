//! The dispatcher core: the two quota gates, the request paths, and the
//! response types of the search and fetch endpoints.
//!
//! The surrounding binary owns the HTTP client. For each logical call it
//! drives the pacing loop — check the quota gate, sleep for the reported wait
//! time, check again — and performs the network send once it is let through;
//! everything it sends and everything it makes of the response is computed
//! here.

use vstd::prelude::*;
use vstd::string::*;
use crate::codec;
use crate::gate::Admission;
use crate::gate::Gate;
use crate::gate::grants;
use crate::gate::next_after;
use crate::gate::wait_time;

verus! {

/// The search endpoint allows 3 calls per 5 seconds: one slot per
/// ceil(5000 / 3) milliseconds.
pub const SEARCH_INTERVAL_MS: u64 = 1667;

/// The fetch endpoint allows 6 calls per 4 seconds: one slot per
/// ceil(4000 / 6) milliseconds.
pub const FETCH_INTERVAL_MS: u64 = 667;

/// The fetch endpoint accepts at most this many identifiers per call.
pub const FETCH_MAX_IDS: usize = 10;

/// How a call fails: the network call itself failed (carrying the transport's
/// message), or the response could not be read in the expected shape.
/// Throttling never surfaces as an error; it is waited out internally.
#[derive(Debug, PartialEq, Eq)]
pub enum TradeError {
    Transport(String),
    Decode,
}

/// A search response: the remote service's ranking of listing identifiers,
/// in reported order.
pub struct Search {
    pub result: Vec<String>,
}

/// A fetch response: the listings for the requested identifiers, in reported
/// order.
pub struct Fetch {
    pub result: Vec<FetchItem>,
}

pub struct FetchItem {
    pub id: String,
    pub listing: FetchItemListing,
}

pub struct FetchItemListing {
    pub price: FetchItemPrice,
}

/// A listed price: the amount in hundredths of the tagged currency unit.
pub struct FetchItemPrice {
    pub amount: u64,
    pub currency: String,
}

/// The dispatcher state: the session credential and one independent gate per
/// endpoint class. The two quotas are enforced by the remote service
/// independently, so they are paced independently.
pub struct Trade {
    session_id: String,
    search_gate: Gate,
    fetch_gate: Gate,
}

impl Trade {
    /// The session credential bound at construction.
    pub closed spec fn session(self) -> Seq<char> {
        self.session_id@
    }

    pub closed spec fn search_gate(self) -> Gate {
        self.search_gate
    }

    pub closed spec fn fetch_gate(self) -> Gate {
        self.fetch_gate
    }

    pub open spec fn wf(self) -> bool {
        &&& self.search_gate().wf()
        &&& self.fetch_gate().wf()
    }

    pub fn new(poe_session_id: &str) -> (t: Trade)
        ensures
            t.wf(),
            t.session() == poe_session_id@,
            t.search_gate().interval() == SEARCH_INTERVAL_MS,
            t.fetch_gate().interval() == FETCH_INTERVAL_MS,
            t.search_gate().next() == 0,
            t.fetch_gate().next() == 0,
    {
        Trade {
            session_id: poe_session_id.to_owned(),
            search_gate: Gate::new(SEARCH_INTERVAL_MS),
            fetch_gate: Gate::new(FETCH_INTERVAL_MS),
        }
    }

    /// The session credential, for the transport to attach to every request.
    pub fn session_id(&self) -> (s: &str)
        ensures
            s@ == self.session(),
    {
        self.session_id.as_str()
    }

    /// One check of the search gate at instant `now_ms`. The fetch gate is
    /// untouched.
    pub fn check_search(&mut self, now_ms: u64) -> (a: Admission)
        requires
            old(self).wf(),
            now_ms + old(self).search_gate().interval() <= u64::MAX,
        ensures
            final(self).wf(),
            final(self).session() == old(self).session(),
            final(self).fetch_gate() == old(self).fetch_gate(),
            final(self).search_gate().interval() == old(self).search_gate().interval(),
            final(self).search_gate().next() == next_after(
                old(self).search_gate().interval() as int,
                old(self).search_gate().next() as int,
                now_ms as int,
            ),
            grants(old(self).search_gate().next() as int, now_ms as int) ==> a
                == Admission::Proceed,
            !grants(old(self).search_gate().next() as int, now_ms as int) ==> a
                == Admission::Wait(
                wait_time(old(self).search_gate().next() as int, now_ms as int) as u64,
            ),
    {
        self.search_gate.check(now_ms)
    }

    /// One check of the fetch gate at instant `now_ms`. The search gate is
    /// untouched.
    pub fn check_fetch(&mut self, now_ms: u64) -> (a: Admission)
        requires
            old(self).wf(),
            now_ms + old(self).fetch_gate().interval() <= u64::MAX,
        ensures
            final(self).wf(),
            final(self).session() == old(self).session(),
            final(self).search_gate() == old(self).search_gate(),
            final(self).fetch_gate().interval() == old(self).fetch_gate().interval(),
            final(self).fetch_gate().next() == next_after(
                old(self).fetch_gate().interval() as int,
                old(self).fetch_gate().next() as int,
                now_ms as int,
            ),
            grants(old(self).fetch_gate().next() as int, now_ms as int) ==> a
                == Admission::Proceed,
            !grants(old(self).fetch_gate().next() as int, now_ms as int) ==> a
                == Admission::Wait(
                wait_time(old(self).fetch_gate().next() as int, now_ms as int) as u64,
            ),
    {
        self.fetch_gate.check(now_ms)
    }
}

/// The identifiers actually sent by one fetch call: the first ten, in
/// original order; fewer only if fewer were given.
pub open spec fn first_ten(ids: Seq<Seq<char>>) -> Seq<Seq<char>> {
    if ids.len() <= FETCH_MAX_IDS {
        ids
    } else {
        ids.take(FETCH_MAX_IDS as int)
    }
}

/// The given pieces joined with single commas, in order.
pub open spec fn comma_join(ids: Seq<Seq<char>>) -> Seq<char>
    decreases ids.len(),
{
    if ids.len() == 0 {
        Seq::empty()
    } else if ids.len() == 1 {
        ids[0]
    } else {
        ids[0] + seq![','] + comma_join(ids.drop_first())
    }
}

/// The request path of a search call for the given league.
pub fn search_path(league: &str) -> (p: String)
    ensures
        p@ == "/search/"@ + league@,
{
    let mut p = String::from_str("/search/");
    p.append(league);
    p
}

/// The request path of a fetch call: the first ten identifiers, in original
/// order, joined by commas. Identifiers beyond the tenth are dropped here —
/// the endpoint accepts at most ten per call — and callers needing more must
/// paginate with further calls.
pub fn fetch_path(hashes: &Vec<String>) -> (p: String)
    ensures
        p@ == "/fetch/"@ + comma_join(first_ten(hashes@.map_values(|s: String| s@))),
{
    let ghost ids = hashes@.map_values(|s: String| s@);
    let ghost tids = first_ten(ids);
    let n: usize = if hashes.len() < FETCH_MAX_IDS {
        hashes.len()
    } else {
        FETCH_MAX_IDS
    };
    assert(tids.len() == n);
    assert(forall|k: int| 0 <= k < n ==> tids[k] == ids[k]);
    let mut p = String::from_str("/fetch/");
    let mut i: usize = 0;
    while i < n
        invariant
            i <= n,
            n == tids.len(),
            tids == first_ten(hashes@.map_values(|s: String| s@)),
            forall|k: int| 0 <= k < n ==> tids[k] == hashes@.map_values(|s: String| s@)[k],
            n <= hashes.len(),
            p@ + (if i == n {
                Seq::<char>::empty()
            } else if i == 0 {
                comma_join(tids)
            } else {
                seq![','] + comma_join(tids.skip(i as int))
            }) == "/fetch/"@ + comma_join(tids),
        decreases n - i,
    {
        if i > 0 {
            p.append(",");
            proof {
                reveal_strlit(",");
            }
        }
        p.append(hashes[i].as_str());
        proof {
            let m = hashes@.map_values(|s: String| s@);
            assert(m[i as int] == hashes@[i as int]@);
            if i + 1 < n {
                assert(tids.skip(i as int).drop_first() =~= tids.skip(i + 1));
                assert(tids.skip(i as int).len() == n - i);
                assert(tids.skip(i as int)[0] == tids[i as int]);
            } else {
                assert(tids.skip(i as int).len() == 1);
                assert(tids.skip(i as int)[0] == tids[i as int]);
            }
            if i == 0 && n == 1 {
                assert(comma_join(tids) == tids[0]);
            }
        }
        i = i + 1;
    }
    p
}

/// The outcome of a search call, given what came back from the transport:
/// a transport failure propagates unchanged and is never retried; a response
/// body either decodes into the identifier sequence or fails as a whole.
pub fn finish_search(outcome: Result<String, String>) -> (r: Result<Search, TradeError>)
    ensures
        (outcome matches Err(m) ==> r == Err::<Search, TradeError>(TradeError::Transport(m))),
        (outcome matches Ok(body) ==> (codec::spec_parse_search(body@) matches Some(ids) ==> r
            matches Ok(res) && res.result@.map_values(|s: String| s@) == ids)),
        (outcome matches Ok(body) ==> (codec::spec_parse_search(body@) is None ==> r == Err::<
            Search,
            TradeError,
        >(TradeError::Decode))),
    {
    match outcome {
        Ok(body) => codec::parse_search(body.as_str()),
        Err(m) => Err(TradeError::Transport(m)),
    }
}

/// The outcome of a fetch call, under the same rules as `finish_search`.
pub fn finish_fetch(outcome: Result<String, String>) -> (r: Result<Fetch, TradeError>)
    ensures
        (outcome matches Err(m) ==> r == Err::<Fetch, TradeError>(TradeError::Transport(m))),
        (outcome matches Ok(body) ==> (codec::spec_parse_fetch(body@) matches Some(items) ==> r
            matches Ok(res) && res.result@.map_values(|it: FetchItem| codec::item_model(it))
            == items)),
        (outcome matches Ok(body) ==> (codec::spec_parse_fetch(body@) is None ==> r == Err::<
            Fetch,
            TradeError,
        >(TradeError::Decode))),
    {
    match outcome {
        Ok(body) => codec::parse_fetch(body.as_str()),
        Err(m) => Err(TradeError::Transport(m)),
    }
}

} // verus!
