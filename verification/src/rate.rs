//! Limiting how often one address may ask.

use dashmap::DashMap;
use vstd::prelude::*;
use vstd::string::*;

use crate::counts;

verus! {

/// What was admitted in the second that is counted.
pub struct Second {
    /// Which second, counted from the start.
    pub number: u64,
    /// How often each address was admitted in it.
    pub admitted: Map<Seq<char>, u64>,
}

/// What was admitted so far in the second in which `now_ms` lies.
pub open spec fn current(counted: Second, now_ms: u64) -> Second {
    if now_ms / 1_000 == counted.number {
        counted
    } else {
        Second { number: now_ms / 1_000, admitted: counts::no_entries() }
    }
}

/// How often an address was admitted.
pub open spec fn times(admitted: Map<Seq<char>, u64>, address: Seq<char>) -> u64 {
    if admitted.contains_key(address) {
        admitted[address]
    } else {
        0
    }
}

/// One more request of `address` is within the limit; without a limit each one is.
pub open spec fn within(limit: u32, now: Second, address: Seq<char>) -> bool {
    limit == 0 || times(now.admitted, address) < limit
}

/// No address was admitted more often than the limit allows.
pub open spec fn respects(limit: u32, counted: Second) -> bool {
    forall|address: Seq<char>| #[trigger]
        counted.admitted.contains_key(address) ==> counted.admitted[address] <= limit
}

/// What is counted after a request of `address` at `now_ms`.
pub open spec fn after_request(
    limit: u32,
    counted: Second,
    address: Seq<char>,
    now_ms: u64,
) -> Second {
    let now = current(counted, now_ms);
    if limit == 0 {
        counted
    } else if within(limit, now, address) {
        Second {
            number: now.number,
            admitted: now.admitted.insert(address, (times(now.admitted, address) + 1) as u64),
        }
    } else {
        now
    }
}

/// Admits so many requests of an address in each second.
pub struct RateLimiter {
    limit: u32,
    number: u64,
    admitted: DashMap<String, u64>,
}

impl RateLimiter {
    /// What is counted.
    pub closed spec fn counted(&self) -> Second {
        Second { number: self.number, admitted: counts::entries_of(self.admitted) }
    }

    /// How many requests of an address are admitted in a second; 0 for any number.
    pub closed spec fn limit(&self) -> u32 {
        self.limit
    }

    /// A limiter that has admitted nothing yet.
    pub fn new(limit: u32) -> (r: RateLimiter)
        ensures
            r.limit() == limit,
            r.counted() == (Second { number: 0, admitted: counts::no_entries() }),
    {
        RateLimiter { limit, number: 0, admitted: counts::new_map(1_000) }
    }

    /// Whether a request of `address` at `now_ms` is admitted.
    pub fn allow(&mut self, address: &str, now_ms: u64) -> (r: bool)
        ensures
            r == within(old(self).limit(), current(old(self).counted(), now_ms), address@),
            final(self).counted() == after_request(
                old(self).limit(),
                old(self).counted(),
                address@,
                now_ms,
            ),
            final(self).limit() == old(self).limit(),
    {
        if self.limit == 0 {
            return true;
        }
        if now_ms / 1_000 != self.number {
            self.number = now_ms / 1_000;
            self.admitted = counts::new_map(1_000);
        }
        let so_far: u64 = match counts::number_at(&self.admitted, address) {
            Some(n) => n,
            None => 0,
        };
        if so_far >= self.limit as u64 {
            return false;
        }
        counts::increment_or_insert(&mut self.admitted, address.to_owned(), 1);
        true
    }
}

/// What is counted after requests of these addresses at these times, one after the
/// other, when nothing was counted before.
pub open spec fn after_requests(limit: u32, requests: Seq<(Seq<char>, u64)>) -> Second
    decreases requests.len(),
{
    if requests.len() == 0 {
        Second { number: 0, admitted: counts::no_entries() }
    } else {
        let (address, now_ms) = requests.last();
        after_request(limit, after_requests(limit, requests.drop_last()), address, now_ms)
    }
}

/// However the requests come, no address is admitted more often in a second than
/// the limit allows.
pub proof fn law_limit_is_respected(limit: u32, requests: Seq<(Seq<char>, u64)>)
    requires
        limit > 0,
    ensures
        respects(limit, after_requests(limit, requests)),
    decreases requests.len(),
{
    if requests.len() > 0 {
        law_limit_is_respected(limit, requests.drop_last());
    }
}

} // verus!
