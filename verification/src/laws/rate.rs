//! Limiting how often one address may ask.

use vstd::prelude::*;

use crate::rate;
use crate::rate::RateLimiter;

verus! {

/// A request, and whether it was admitted.
pub struct Asked {
    pub address: Seq<char>,
    pub now_ms: u64,
    pub admitted: bool,
}

/// How many of the first `n` requests were admitted of an address in a second.
pub open spec fn admitted_in(asked: Seq<Asked>, n: int, address: Seq<char>, second: int) -> nat
    decreases n,
{
    if n <= 0 {
        0
    } else {
        let before = admitted_in(asked, n - 1, address, second);
        let last = asked[n - 1];
        if last.admitted && last.address == address && last.now_ms / 1_000 == second {
            before + 1
        } else {
            before
        }
    }
}

/// Of requests that come one after the other, each is admitted exactly where fewer
/// requests of its address than the limit were admitted before it in the same second;
/// without a limit each is.
pub proof fn law_requests_within_the_limit_are_admitted(
    limit: u32,
    states: Seq<RateLimiter>,
    asked: Seq<Asked>,
    k: int,
)
    requires
        states.len() == asked.len() + 1,
        call_ensures(RateLimiter::new, (limit,), states[0]),
        forall|i: int|
            #![trigger asked[i]]
            0 <= i < asked.len() ==> exists|l: &mut RateLimiter, address: &str|
                *l == states[i] && *final(l) == states[i + 1] && address@ == asked[i].address
                    && #[trigger] call_ensures(
                    RateLimiter::allow,
                    (l, address, asked[i].now_ms),
                    asked[i].admitted,
                ),
        forall|i: int, j: int|
            0 <= i <= j < asked.len() ==> (#[trigger] asked[i]).now_ms <= (
            #[trigger] asked[j]).now_ms,
        0 <= k < asked.len(),
    ensures
        asked[k].admitted <==> limit == 0 || admitted_in(
            asked,
            k,
            asked[k].address,
            asked[k].now_ms as int / 1_000,
        ) < limit,
{
    assert forall|i: int|
        #![trigger asked[i]]
        0 <= i < asked.len() implies is_request(states[i], asked[i], states[i + 1]) by {}
    lemma_counted(limit, states, asked, k);
    let this = asked[k];
    if k == 0 || asked[k].now_ms / 1_000 != asked[k - 1].now_ms / 1_000 {
        lemma_new_second(asked, k, asked[k].address, asked[k].now_ms as int / 1_000);
    }
}

/// How many of the first `n` requests were admitted of an address since the last one
/// that came in another second.
pub open spec fn admitted_since(asked: Seq<Asked>, n: int, address: Seq<char>, second: int) -> nat
    decreases n,
{
    if n <= 0 || asked[n - 1].now_ms as int / 1_000 != second {
        0
    } else if asked[n - 1].admitted && asked[n - 1].address == address {
        admitted_since(asked, n - 1, address, second) + 1
    } else {
        admitted_since(asked, n - 1, address, second)
    }
}

/// Whatever the clock does, a request is admitted exactly where fewer requests of its
/// address than the limit were admitted since the second began.
pub proof fn law_each_second_counts_anew(
    limit: u32,
    states: Seq<RateLimiter>,
    asked: Seq<Asked>,
    k: int,
)
    requires
        states.len() == asked.len() + 1,
        call_ensures(RateLimiter::new, (limit,), states[0]),
        forall|i: int|
            #![trigger asked[i]]
            0 <= i < asked.len() ==> exists|l: &mut RateLimiter, address: &str|
                *l == states[i] && *final(l) == states[i + 1] && address@ == asked[i].address
                    && #[trigger] call_ensures(
                    RateLimiter::allow,
                    (l, address, asked[i].now_ms),
                    asked[i].admitted,
                ),
        0 <= k < asked.len(),
    ensures
        asked[k].admitted <==> limit == 0 || admitted_since(
            asked,
            k,
            asked[k].address,
            asked[k].now_ms as int / 1_000,
        ) < limit,
{
    assert forall|i: int|
        #![trigger asked[i]]
        0 <= i < asked.len() implies is_request(states[i], asked[i], states[i + 1]) by {}
    lemma_counted_since(limit, states, asked, k);
    let this = asked[k];
    let counted = states[k].counted();
    assert(limit > 0 ==> rate::times(counted.admitted, this.address) == admitted_since(
        asked,
        k,
        this.address,
        counted.number as int,
    ));
}

proof fn lemma_counted_since(limit: u32, states: Seq<RateLimiter>, asked: Seq<Asked>, n: int)
    requires
        states.len() == asked.len() + 1,
        states[0].limit() == limit,
        states[0].counted().number == 0,
        states[0].counted().admitted == crate::counts::no_entries(),
        forall|i: int|
            #![trigger asked[i]]
            0 <= i < asked.len() ==> is_request(states[i], asked[i], states[i + 1]),
        0 <= n <= asked.len(),
    ensures
        states[n].limit() == limit,
        limit > 0 && n > 0 ==> states[n].counted().number == asked[n - 1].now_ms / 1_000,
        n == 0 ==> states[n].counted().admitted == crate::counts::no_entries(),
        limit > 0 ==> forall|a: Seq<char>| #[trigger]
            rate::times(states[n].counted().admitted, a) == admitted_since(
                asked,
                n,
                a,
                states[n].counted().number as int,
            ),
    decreases n,
{
    if n > 0 {
        lemma_counted_since(limit, states, asked, n - 1);
        assert(states[n - 1 + 1] == states[n]);
        let before = states[n - 1].counted();
        let after = states[n].counted();
        let last = asked[n - 1];
        if limit > 0 {
            assert forall|a: Seq<char>| #[trigger]
                rate::times(after.admitted, a) == admitted_since(
                    asked,
                    n,
                    a,
                    after.number as int,
                ) by {
                let now = rate::current(before, last.now_ms);
                assert(rate::times(before.admitted, a) == admitted_since(
                    asked,
                    n - 1,
                    a,
                    before.number as int,
                ));
                assert(rate::times(now.admitted, a) == admitted_since(
                    asked,
                    n - 1,
                    a,
                    last.now_ms as int / 1_000,
                ));
            }
        }
    }
}

spec fn is_request(before: RateLimiter, asked: Asked, after: RateLimiter) -> bool {
    &&& asked.admitted == rate::within(
        before.limit(),
        rate::current(before.counted(), asked.now_ms),
        asked.address,
    )
    &&& after.counted() == rate::after_request(
        before.limit(),
        before.counted(),
        asked.address,
        asked.now_ms,
    )
    &&& after.limit() == before.limit()
}

proof fn lemma_new_second(asked: Seq<Asked>, n: int, address: Seq<char>, second: int)
    requires
        0 <= n <= asked.len(),
        forall|i: int, j: int|
            0 <= i <= j < asked.len() ==> (#[trigger] asked[i]).now_ms <= (
            #[trigger] asked[j]).now_ms,
        n > 0 ==> asked[n - 1].now_ms as int / 1_000 < second,
    ensures
        admitted_in(asked, n, address, second) == 0,
    decreases n,
{
    if n > 1 {
        assert(asked[n - 2].now_ms <= asked[n - 1].now_ms);
        lemma_new_second(asked, n - 1, address, second);
    } else if n == 1 {
        lemma_new_second(asked, 0, address, second);
    }
}

proof fn lemma_counted(limit: u32, states: Seq<RateLimiter>, asked: Seq<Asked>, n: int)
    requires
        states.len() == asked.len() + 1,
        states[0].limit() == limit,
        states[0].counted().number == 0,
        states[0].counted().admitted == crate::counts::no_entries(),
        forall|i: int|
            #![trigger asked[i]]
            0 <= i < asked.len() ==> is_request(states[i], asked[i], states[i + 1]),
        forall|i: int, j: int|
            0 <= i <= j < asked.len() ==> (#[trigger] asked[i]).now_ms <= (
            #[trigger] asked[j]).now_ms,
        0 <= n <= asked.len(),
    ensures
        states[n].limit() == limit,
        limit > 0 && n > 0 ==> states[n].counted().number == asked[n - 1].now_ms / 1_000,
        n == 0 ==> states[n].counted().number == 0 && states[n].counted().admitted
            == crate::counts::no_entries(),
        limit > 0 ==> forall|a: Seq<char>| #[trigger]
            rate::times(states[n].counted().admitted, a) == admitted_in(
                asked,
                n,
                a,
                states[n].counted().number as int,
            ),
    decreases n,
{
    if n > 0 {
        lemma_counted(limit, states, asked, n - 1);
        assert(states[n - 1 + 1] == states[n]);
        let before = states[n - 1].counted();
        let after = states[n].counted();
        let last = asked[n - 1];
        let second = last.now_ms as int / 1_000;
        if limit > 0 {
            if n > 1 {
                assert(asked[n - 2].now_ms <= asked[n - 1].now_ms);
            }
            assert forall|a: Seq<char>| #[trigger]
                rate::times(after.admitted, a) == admitted_in(
                    asked,
                    n,
                    a,
                    after.number as int,
                ) by {
                if before.number != second {
                    lemma_new_second(asked, n - 1, a, second);
                }
                let now = rate::current(before, last.now_ms);
                assert(rate::times(before.admitted, a) == admitted_in(
                    asked,
                    n - 1,
                    a,
                    before.number as int,
                ));
                assert(rate::times(now.admitted, a) == admitted_in(asked, n - 1, a, second));
            }
        }
    }
}

} // verus!
