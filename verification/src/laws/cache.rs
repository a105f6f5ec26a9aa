//! Caches from image keys to project names.

use vstd::prelude::*;

use crate::cache::{
    sentinel_urls, settle, CacheBackend, MokaCache, RedisCache, RedisCommand, RedisSetupError,
    Unreachable,
};
use crate::text;

verus! {

/// What a new cache is asked for, it does not know.
pub proof fn law_new_cache_is_empty(ttl_ms: u64, cache: MokaCache, key: &str, r: Option<String>)
    requires
        call_ensures(MokaCache::build, (ttl_ms,), cache),
        call_ensures(MokaCache::get, (&cache, key), r),
    ensures
        r is None,
        cache.limits() == (ttl_ms, 500_000u64),
        !cache.crowded(),
        ttl_ms <= 31_536_000_000_000 ==> call_requires(MokaCache::build, (ttl_ms,)),
{
}

/// What was written under a key is what a lookup of it gives back, unless the entry was
/// found to be too old or the cache was too full; and what a lookup of another key can
/// give is what it could give before.
pub proof fn law_read_gives_back_what_was_written(
    before: MokaCache,
    key: String,
    value: String,
    after: MokaCache,
    same: &str,
    r: Option<String>,
    other: &str,
    q: Option<String>,
)
    requires
        exists|c: &mut MokaCache|
            *c == before && *final(c) == after && #[trigger] call_ensures(
                MokaCache::set,
                (c, key, value),
                (),
            ),
        same@ == key@,
        other@ != key@,
        call_ensures(MokaCache::get, (&after, same), r),
        call_ensures(MokaCache::get, (&after, other), q),
    ensures
        r is Some ==> r->0@ == value@,
        r is None ==> after.crowded() || after.aged(key@),
        q is Some ==> before.recalled().contains_key(other@) && q->0@
            == before.recalled()[other@],
        q is None && before.recalled().contains_key(other@) ==> after.crowded() || after.aged(
            other@,
        ),
        after.crowded() ==> before.crowded() || after.recalled().dom().len()
            > before.limits().1,
        after.recalled() == before.recalled().insert(key@, value@),
        after.limits() == before.limits(),
{
}

/// A deleted key is not found, and what a lookup of another key can give is what it
/// could give before.
pub proof fn law_deleted_key_is_not_found(
    before: MokaCache,
    key: &str,
    after: MokaCache,
    r: Option<String>,
    other: &str,
    q: Option<String>,
)
    requires
        exists|c: &mut MokaCache|
            *c == before && *final(c) == after && #[trigger] call_ensures(
                MokaCache::delete,
                (c, key),
                (),
            ),
        other@ != key@,
        call_ensures(MokaCache::get, (&after, key), r),
        call_ensures(MokaCache::get, (&after, other), q),
    ensures
        r is None,
        q is Some ==> before.recalled().contains_key(other@) && q->0@
            == before.recalled()[other@],
        q is None && before.recalled().contains_key(other@) ==> before.crowded() || after.aged(
            other@,
        ),
        after.recalled() == before.recalled().remove(key@),
        after.limits() == before.limits(),
{
}

/// What Redis answered counts; where it did not answer, what the local cache holds.
pub proof fn law_local_cache_stands_in_for_redis(
    answer: Option<String>,
    local: Option<String>,
    answered: Option<String>,
    unanswered: Option<String>,
    cache: RedisCache<MokaCache>,
    key: &str,
    from_redis: Option<String>,
    from_local: Option<String>,
)
    requires
        call_ensures(settle, (Ok(answer), local), answered),
        call_ensures(settle, (Err(Unreachable), local), unanswered),
        call_ensures(RedisCache::<MokaCache>::get, (&cache, key, Ok(answer)), from_redis),
        call_ensures(RedisCache::<MokaCache>::get, (&cache, key, Err(Unreachable)), from_local),
    ensures
        answered == answer,
        unanswered == local,
        from_redis == answer,
        from_local matches Some(value) ==> cache.fallback_recalled().contains_key(key@) && value@
            == cache.fallback_recalled()[key@],
        cache.fallback_answers(key@, text::opt_view(from_local)),
{
}

/// What Redis did not take, the local cache takes; what it took, the local cache does
/// not. A deleted key is gone from the local cache, however Redis answered.
pub proof fn law_local_cache_takes_what_redis_does_not(
    before: RedisCache<MokaCache>,
    key: String,
    value: String,
    taken: RedisCache<MokaCache>,
    not_taken: RedisCache<MokaCache>,
    name: &str,
    deleted: RedisCache<MokaCache>,
)
    requires
        exists|c: &mut RedisCache<MokaCache>|
            *c == before && *final(c) == taken && #[trigger] call_ensures(
                RedisCache::<MokaCache>::set,
                (c, key, value, Ok(())),
                (),
            ),
        exists|c: &mut RedisCache<MokaCache>|
            *c == before && *final(c) == not_taken && #[trigger] call_ensures(
                RedisCache::<MokaCache>::set,
                (c, key, value, Err(Unreachable)),
                (),
            ),
        exists|c: &mut RedisCache<MokaCache>|
            *c == before && *final(c) == deleted && #[trigger] call_ensures(
                RedisCache::<MokaCache>::delete,
                (c, name),
                (),
            ),
    ensures
        taken.fallback_recalled() == before.fallback_recalled(),
        not_taken.fallback_recalled() == before.fallback_recalled().insert(key@, value@),
        deleted.fallback_recalled() == before.fallback_recalled().remove(name@),
        not_taken.key_prefix() == before.key_prefix() && not_taken.seconds() == before.seconds()
            && not_taken.target() == before.target(),
        taken.key_prefix() == before.key_prefix() && taken.seconds() == before.seconds()
            && taken.target() == before.target(),
        deleted.key_prefix() == before.key_prefix() && deleted.seconds() == before.seconds()
            && deleted.target() == before.target(),
{
}

/// The commands speak of the key behind the prefix and a colon, or of the key itself
/// where there is no prefix; a write holds the value and the time to live.
pub proof fn law_commands_speak_of_the_prefixed_key(
    cache: RedisCache<MokaCache>,
    key: &str,
    value: &str,
    prefixed: String,
    get: RedisCommand,
    set_: RedisCommand,
    del: RedisCommand,
)
    requires
        call_ensures(RedisCache::<MokaCache>::prefixed, (&cache, key), prefixed),
        call_ensures(RedisCache::<MokaCache>::get_command, (&cache, key), get),
        call_ensures(RedisCache::<MokaCache>::set_command, (&cache, key, value), set_),
        call_ensures(RedisCache::<MokaCache>::delete_command, (&cache, key), del),
    ensures
        cache.key_prefix().len() > 0 ==> prefixed@ == cache.key_prefix() + ":"@ + key@,
        cache.key_prefix().len() == 0 ==> prefixed@ == key@,
        get matches RedisCommand::Get { key: k } && k@ == prefixed@,
        set_ matches RedisCommand::SetEx { key: k, value: v, seconds } && k@ == prefixed@ && v@
            == value@ && seconds == cache.seconds(),
        del matches RedisCommand::Del { key: k } && k@ == prefixed@,
{
}

/// A cache on Redis speaks to what it was set up with: the endpoints, the master, the
/// password, the database, and TLS or not. An entry lives for the whole seconds of the
/// time to live, and for one at least. It is refused for want of endpoints exactly
/// where the list names none.
pub proof fn law_redis_cache_keeps_its_settings(
    sentinels: &str,
    master: &str,
    password: Option<&str>,
    db: u8,
    ttl_ms: u64,
    prefix: String,
    tls: bool,
    r: Result<RedisCache<MokaCache>, RedisSetupError>,
    urls: Vec<String>,
    message: Option<&'static str>,
)
    requires
        call_ensures(
            RedisCache::<MokaCache>::from_sentinel,
            (sentinels, master, password, db, ttl_ms, prefix, tls),
            r,
        ),
        call_ensures(sentinel_urls, (sentinels, tls), urls),
        r is Err ==> call_ensures(RedisSetupError::message, (&r->Err_0,), message),
    ensures
        urls@.len() == 0 <==> (r is Err && r->Err_0 is NoSentinels),
        urls@.len() > 0 ==> (r is Ok <==> crate::cache::urls_accepted(text::views(urls@))),
        (r is Err && r->Err_0 is Client) ==> message is None,
        (r is Err && r->Err_0 is NoSentinels) ==> message is Some && message->0@
            == "REDIS_SENTINELS: no valid host:port pairs"@,
        r matches Ok(cache) ==> {
            &&& cache.target().0 == text::views(urls@)
            &&& cache.target().1 == master@
            &&& cache.target().2.0 == (match password {
                Some(word) => Some(word@),
                None => None,
            })
            &&& cache.target().2.1 == db
            &&& cache.target().2.2 == tls
            &&& cache.seconds() >= 1
            &&& ttl_ms >= 1_000 ==> cache.seconds() * 1_000 <= ttl_ms < (cache.seconds() + 1)
                * 1_000
            &&& ttl_ms < 1_000 ==> cache.seconds() == 1
            &&& cache.key_prefix() == prefix@
            &&& cache.fallback_recalled() == Map::<Seq<char>, Seq<char>>::empty()
            &&& cache.fallback_limits() == (ttl_ms, 500_000u64)
        },
{
    assert(text::views(urls@).len() == urls@.len());
}

proof fn lemma_urls_concat(a: Seq<Seq<char>>, b: Seq<Seq<char>>, tls: bool)
    ensures
        crate::cache::urls_of(a + b, tls) == crate::cache::urls_of(a, tls) + crate::cache::urls_of(
            b,
            tls,
        ),
    decreases a.len(),
{
    if a.len() == 0 {
        assert(a + b =~= b);
        assert(crate::cache::urls_of(a, tls) + crate::cache::urls_of(b, tls)
            =~= crate::cache::urls_of(b, tls));
    } else {
        assert((a + b).drop_first() =~= a.drop_first() + b);
        assert((a + b)[0] == a[0]);
        lemma_urls_concat(a.drop_first(), b, tls);
        assert(crate::cache::urls_of(a + b, tls) =~= crate::cache::urls_of(a, tls)
            + crate::cache::urls_of(b, tls));
    }
}

proof fn lemma_split_at_comma(a: Seq<char>, b: Seq<char>)
    ensures
        text::split_on(a + seq![','] + b, ',') == text::split_on(a, ',') + text::split_on(b, ','),
    decreases a.len(),
{
    let all = a + seq![','] + b;
    text::lemma_first_index(a, ',');
    text::lemma_split_on_step(a, ',');
    text::lemma_split_on_step(all, ',');
    let k = text::first_index(a, ',');
    assert forall|j: int| 0 <= j < k implies all[j] != ',' by {
        assert(all[j] == a[j]);
    }
    if k < a.len() {
        assert(all[k] == a[k]);
        text::lemma_first_index_unique(all, ',', k);
        assert(all.take(k) =~= a.take(k));
        assert(all.skip(k + 1) =~= a.skip(k + 1) + seq![','] + b);
        lemma_split_at_comma(a.skip(k + 1), b);
        assert(text::split_on(all, ',') =~= text::split_on(a, ',') + text::split_on(b, ','));
    } else {
        assert(all[k] == ',');
        text::lemma_first_index_unique(all, ',', k);
        assert(all.take(k) =~= a);
        assert(all.skip(k + 1) =~= b);
    }
}

/// The endpoints of a list are those before a comma and behind them those after it. One
/// endpoint without a comma has its scheme before it, without the white space around
/// it; a blank one is left out.
pub proof fn law_endpoints_are_listed_one_by_one(
    front: &str,
    back: &str,
    both: &str,
    tls: bool,
    a: Vec<String>,
    b: Vec<String>,
    ab: Vec<String>,
    one: &str,
    host: String,
    r: Vec<String>,
)
    requires
        both@ == front@ + seq![','] + back@,
        call_ensures(sentinel_urls, (front, tls), a),
        call_ensures(sentinel_urls, (back, tls), b),
        call_ensures(sentinel_urls, (both, tls), ab),
        !one@.contains(','),
        call_ensures(text::trim, (one,), host),
        call_ensures(sentinel_urls, (one, tls), r),
    ensures
        text::views(ab@) == text::views(a@) + text::views(b@),
        host@.len() == 0 ==> r@.len() == 0,
        host@.len() > 0 ==> r@.len() == 1 && r@[0]@ == (if tls {
            "rediss://"@
        } else {
            "redis://"@
        }) + host@,
{
    lemma_split_at_comma(front@, back@);
    lemma_urls_concat(text::split_on(front@, ','), text::split_on(back@, ','), tls);
    text::lemma_first_index(one@, ',');
    text::lemma_split_on_step(one@, ',');
    let k = text::first_index(one@, ',');
    if k < one@.len() {
        assert(one@.contains(one@[k]));
    }
    let pieces = text::split_on(one@, ',');
    assert(pieces =~= seq![one@]);
    assert(pieces.drop_first() =~= Seq::<Seq<char>>::empty());
    reveal_with_fuel(crate::cache::urls_of, 2);
    let views = text::views(r@);
    assert(views.len() == r@.len());
    if host@.len() > 0 {
        assert(views =~= seq![crate::cache::scheme(tls) + host@]);
        assert(views[0] == r@[0]@);
    }
}

} // verus!
