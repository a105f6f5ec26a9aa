//! Caches from image keys to project names.
//!
//! An entry leaves a cache when its time is up, or when room is needed. So a cache
//! is modelled by what was written to it: under each key the value written last,
//! unless it was deleted since. A lookup yields that value, or nothing; and of the
//! in-memory cache it yields nothing only where nothing is written, the time is up,
//! or the cache was too full.

use moka::sync::Cache as MokaMap;
use redis::sentinel::{SentinelClient, SentinelNodeConnectionInfo, SentinelServerType};
use redis::{RedisConnectionInfo, RedisError, TlsMode};
use std::time::Duration;
use vstd::prelude::*;
use vstd::string::*;

use crate::text;

verus! {

/// A lookup of `key` may yield `answer` in a cache to which `recalled` was
/// written: the value that was written last, or nothing.
pub open spec fn may_answer(
    recalled: Map<Seq<char>, Seq<char>>,
    key: Seq<char>,
    answer: Option<Seq<char>>,
) -> bool {
    answer matches Some(value) ==> recalled.contains_key(key) && value == recalled[key]
}

/// A lookup of `key` comes to `answer` in a cache to which `recalled` was written:
/// the value that was written last, and nothing only where there is none, where its
/// time was up (`aged`), or where the cache held too many entries at some time
/// (`crowded`).
pub open spec fn comes_to(
    recalled: Map<Seq<char>, Seq<char>>,
    crowded: bool,
    aged: bool,
    key: Seq<char>,
    answer: Option<Seq<char>>,
) -> bool {
    match answer {
        Some(value) => recalled.contains_key(key) && value == recalled[key],
        None => recalled.contains_key(key) ==> crowded || aged,
    }
}

/// A cache from text to text.
pub trait CacheBackend: Sized {
    /// What was written: under each key the value written last, unless it was
    /// deleted since.
    spec fn recalled(&self) -> Map<Seq<char>, Seq<char>>;

    /// A lookup of `key` in this cache can come to `answer`.
    spec fn answers(&self, key: Seq<char>, answer: Option<Seq<char>>) -> bool;

    /// The time to live of an entry in milliseconds, and the most entries held.
    spec fn limits(&self) -> (u64, u64);

    /// The value under `key`. Only the value that was written last can come,
    /// and nothing once the key was deleted.
    fn get(&self, key: &str) -> (r: Option<String>)
        ensures
            self.answers(key@, text::opt_view(r)),
            may_answer(self.recalled(), key@, text::opt_view(r)),
    ;

    /// Writes `value` under `key`.
    fn set(&mut self, key: String, value: String)
        ensures
            final(self).recalled() == old(self).recalled().insert(key@, value@),
            final(self).limits() == old(self).limits(),
    ;

    /// Removes what stands under `key`.
    fn delete(&mut self, key: &str)
        ensures
            final(self).recalled() == old(self).recalled().remove(key@),
            final(self).limits() == old(self).limits(),
    ;
}

/// The number of entries that an in-memory cache holds at most.
pub const CAPACITY: u64 = 500_000;

/// The longest time to live of an entry, in milliseconds: a thousand years of
/// 365 days.
pub const MAX_TTL_MS: u64 = 31_536_000_000_000;

/// `moka::sync::Cache`, opaque to the proofs.
#[verifier::external_type_specification]
#[verifier::external_body]
#[verifier::reject_recursive_types(K)]
#[verifier::reject_recursive_types(V)]
#[verifier::reject_recursive_types(S)]
pub struct ExMokaMap<K, V, S>(MokaMap<K, V, S>);

/// What was written to a moka cache: under each key the value inserted last,
/// unless it was invalidated since.
pub uninterp spec fn written(cache: MokaMap<String, String>) -> Map<Seq<char>, Seq<char>>;

/// The time to live and the capacity that a moka cache was built with, in
/// milliseconds and in entries.
pub uninterp spec fn limits_of(cache: MokaMap<String, String>) -> (u64, u64);

/// Whether a moka cache was given more entries than its capacity at some time:
/// entries that were inserted and not invalidated since.
pub uninterp spec fn overfilled(cache: MokaMap<String, String>) -> bool;

/// Whether the entry under a key was found to be older than the time to live when it
/// was looked up. Of a lookup at another time nothing follows.
pub uninterp spec fn outlived(cache: MokaMap<String, String>, key: Seq<char>) -> bool;

/// The record of a cache that nothing was written to.
pub open spec fn nothing_written() -> Map<Seq<char>, Seq<char>> {
    Map::empty()
}

/// `CacheBuilder::build` after `time_to_live` and `max_capacity`: a new cache,
/// to which nothing was written, with these limits. It panics for a time to live
/// of more than a thousand years.
#[verifier::external_body]
fn moka_build(ttl_ms: u64, capacity: u64) -> (cache: MokaMap<String, String>)
    requires
        ttl_ms <= MAX_TTL_MS,
    ensures
        written(cache) == nothing_written(),
        limits_of(cache) == (ttl_ms, capacity),
        !overfilled(cache),
{
    MokaMap::builder().time_to_live(Duration::from_millis(ttl_ms)).max_capacity(capacity).build()
}

/// `Cache::get`: the value inserted last under the key, or nothing. An entry leaves
/// only when its time to live is up, or for room once there are more entries than the
/// capacity. When the time is up rests on the clock, and which entry leaves for room
/// on how often each is asked for, so that is left unsaid.
#[verifier::external_body]
fn moka_get(cache: &MokaMap<String, String>, key: &str) -> (r: Option<String>)
    ensures
        comes_to(
            written(*cache),
            overfilled(*cache),
            outlived(*cache, key@),
            key@,
            text::opt_view(r),
        ),
{
    cache.get(key)
}

/// `Cache::insert`: the value replaces what was written under the key; the
/// limits stay. The cache is overfilled where there are more entries now than its
/// capacity.
#[verifier::external_body]
fn moka_insert(cache: &mut MokaMap<String, String>, key: String, value: String)
    ensures
        written(*final(cache)) == written(*old(cache)).insert(key@, value@),
        limits_of(*final(cache)) == limits_of(*old(cache)),
        overfilled(*final(cache)) == (overfilled(*old(cache)) || written(
            *final(cache),
        ).dom().len() > limits_of(*old(cache)).1),
{
    cache.insert(key, value)
}

/// `Cache::invalidate`: the value under the key is discarded; the limits stay.
#[verifier::external_body]
fn moka_invalidate(cache: &mut MokaMap<String, String>, key: &str)
    ensures
        written(*final(cache)) == written(*old(cache)).remove(key@),
        limits_of(*final(cache)) == limits_of(*old(cache)),
        overfilled(*final(cache)) == overfilled(*old(cache)),
{
    cache.invalidate(key)
}

/// The in-memory cache, with a time to live for every entry.
pub struct MokaCache {
    inner: MokaMap<String, String>,
}

impl MokaCache {
    /// Whether the cache was given more entries than it holds at some time.
    pub closed spec fn crowded(&self) -> bool {
        overfilled(self.inner)
    }

    /// Whether the entry under `key` was found to be older than the time to live.
    pub closed spec fn aged(&self, key: Seq<char>) -> bool {
        outlived(self.inner, key)
    }

    /// A new, empty cache where every entry expires after `ttl_ms` milliseconds.
    pub fn build(ttl_ms: u64) -> (cache: MokaCache)
        requires
            ttl_ms <= MAX_TTL_MS,
        ensures
            cache.recalled() == nothing_written(),
            cache.limits() == (ttl_ms, CAPACITY),
            !cache.crowded(),
    {
        MokaCache { inner: moka_build(ttl_ms, CAPACITY) }
    }
}

impl CacheBackend for MokaCache {
    closed spec fn recalled(&self) -> Map<Seq<char>, Seq<char>> {
        written(self.inner)
    }

    open spec fn answers(&self, key: Seq<char>, answer: Option<Seq<char>>) -> bool {
        comes_to(self.recalled(), self.crowded(), self.aged(key), key, answer)
    }

    closed spec fn limits(&self) -> (u64, u64) {
        limits_of(self.inner)
    }

    fn get(&self, key: &str) -> (r: Option<String>)
        ensures
            comes_to(
                self.recalled(),
                self.crowded(),
                self.aged(key@),
                key@,
                text::opt_view(r),
            ),
    {
        moka_get(&self.inner, key)
    }

    fn set(&mut self, key: String, value: String)
        ensures
            final(self).crowded() == (old(self).crowded() || final(self).recalled().dom().len()
                > old(self).limits().1),
    {
        moka_insert(&mut self.inner, key, value);
    }

    fn delete(&mut self, key: &str)
        ensures
            final(self).crowded() == old(self).crowded(),
    {
        moka_invalidate(&mut self.inner, key);
    }
}

/// A change to a cache.
pub enum Change {
    /// The value was written under the key.
    Write { key: Seq<char>, value: Seq<char> },
    /// The key was deleted.
    Delete { key: Seq<char> },
}

/// The key of a change.
pub open spec fn key_of(change: Change) -> Seq<char> {
    match change {
        Change::Write { key, .. } => key,
        Change::Delete { key } => key,
    }
}

/// What is recalled after the changes to an empty cache.
pub open spec fn recalled_after(changes: Seq<Change>) -> Map<Seq<char>, Seq<char>>
    decreases changes.len(),
{
    if changes.len() == 0 {
        nothing_written()
    } else {
        let before = recalled_after(changes.drop_last());
        match changes.last() {
            Change::Write { key, value } => before.insert(key, value),
            Change::Delete { key } => before.remove(key),
        }
    }
}

/// Whether an empty cache with room for `capacity` entries was given more of them at
/// some time of the changes.
pub open spec fn crowded_after(changes: Seq<Change>, capacity: u64) -> bool
    decreases changes.len(),
{
    changes.len() > 0 && (crowded_after(changes.drop_last(), capacity) || (changes.last() is Write
        && recalled_after(changes).dom().len() > capacity))
}

/// The keys that were changed.
pub open spec fn changed_keys(changes: Seq<Change>) -> Set<Seq<char>> {
    changes.map_values(|change: Change| key_of(change)).to_set()
}

proof fn lemma_recalled_keys(changes: Seq<Change>, n: int)
    requires
        0 <= n <= changes.len(),
    ensures
        recalled_after(changes.take(n)).dom().subset_of(changed_keys(changes)),
    decreases n,
{
    if n > 0 {
        let some = changes.take(n);
        assert(some.drop_last() =~= changes.take(n - 1));
        lemma_recalled_keys(changes, n - 1);
        let keys = changes.map_values(|change: Change| key_of(change));
        assert(keys[n - 1] == key_of(some.last()));
        assert(keys.to_set().contains(key_of(some.last())));
    }
}

proof fn lemma_few_keys_leave_room(changes: Seq<Change>, capacity: u64, n: int)
    requires
        0 <= n <= changes.len(),
        changed_keys(changes).len() <= capacity,
    ensures
        !crowded_after(changes.take(n), capacity),
    decreases n,
{
    if n > 0 {
        assert(changes.take(n).drop_last() =~= changes.take(n - 1));
        lemma_few_keys_leave_room(changes, capacity, n - 1);
        lemma_recalled_keys(changes, n);
        vstd::seq_lib::seq_to_set_is_finite(
            changes.map_values(|change: Change| key_of(change)),
        );
        vstd::set_lib::lemma_len_subset(
            recalled_after(changes.take(n)).dom(),
            changed_keys(changes),
        );
    }
}

proof fn lemma_last_change(changes: Seq<Change>, key: Seq<char>, i: int, n: int)
    requires
        -1 <= i < n <= changes.len() || (i == -1 && n == 0),
        i >= 0 ==> key_of(changes[i]) == key,
        forall|j: int| i < j < changes.len() ==> key_of(#[trigger] changes[j]) != key,
    ensures
        ({
            let recalled = recalled_after(changes.take(n));
            if i >= 0 && changes[i] is Write {
                recalled.contains_key(key) && recalled[key] == changes[i]->value
            } else {
                !recalled.contains_key(key)
            }
        }),
    decreases n,
{
    if n > 0 {
        let some = changes.take(n);
        assert(some.drop_last() =~= changes.take(n - 1));
        assert(some.last() == changes[n - 1]);
        if n - 1 > i {
            lemma_last_change(changes, key, i, n - 1);
        }
    }
}

/// After any changes to an empty in-memory cache, with no more keys than it has room
/// for, the last change of a key decides what a lookup of it yields, unless the time
/// of the entry was up: the value if it was written, and nothing if it was deleted.
/// `i` is the place of that change, or -1 for a key that was never changed, of which
/// nothing comes. Changes of other keys make no difference.
pub proof fn law_last_change_decides(
    changes: Seq<Change>,
    key: Seq<char>,
    i: int,
    aged: bool,
    answer: Option<Seq<char>>,
)
    requires
        changed_keys(changes).len() <= CAPACITY,
        -1 <= i < changes.len(),
        i >= 0 ==> key_of(changes[i]) == key,
        forall|j: int| i < j < changes.len() ==> key_of(#[trigger] changes[j]) != key,
        comes_to(
            recalled_after(changes),
            crowded_after(changes, CAPACITY),
            aged,
            key,
            answer,
        ),
    ensures
        answer is Some ==> i >= 0 && changes[i] is Write && answer == Some(changes[i]->value),
        answer is None ==> i < 0 || changes[i] is Delete || aged,
{
    let n = changes.len() as int;
    assert(changes.take(n) =~= changes);
    lemma_few_keys_leave_room(changes, CAPACITY, n);
    lemma_last_change(changes, key, i, n);
}

/// The scheme of a Redis URL, with TLS or without.
pub open spec fn scheme(tls: bool) -> Seq<char> {
    if tls {
        "rediss://"@
    } else {
        "redis://"@
    }
}

/// The Redis URLs of a comma-separated list of `host:port` pairs: one for each
/// piece that is not blank, without the white space around it.
pub open spec fn urls_of(pieces: Seq<Seq<char>>, tls: bool) -> Seq<Seq<char>>
    decreases pieces.len(),
{
    if pieces.len() == 0 {
        seq![]
    } else {
        let host = text::trimmed(pieces[0]);
        let rest = urls_of(pieces.drop_first(), tls);
        if host.len() == 0 {
            rest
        } else {
            seq![scheme(tls) + host] + rest
        }
    }
}

/// The Redis URLs that a list of Sentinel endpoints names.
pub open spec fn sentinel_urls_of(sentinels: Seq<char>, tls: bool) -> Seq<Seq<char>> {
    urls_of(text::split_on(sentinels, ','), tls)
}

/// The Redis URLs of the comma-separated endpoints in `sentinels`.
pub fn sentinel_urls(sentinels: &str, tls: bool) -> (urls: Vec<String>)
    ensures
        text::views(urls@) == sentinel_urls_of(sentinels@, tls),
{
    let chars = text::chars_of(sentinels);
    let mut urls: Vec<String> = Vec::new();
    let mut from: usize = 0;
    assert(chars@.skip(0) =~= sentinels@);
    assert(text::views(urls@) =~= Seq::<Seq<char>>::empty());
    loop
        invariant
            chars@ == sentinels@,
            from <= chars@.len(),
            sentinel_urls_of(sentinels@, tls) == text::views(urls@) + urls_of(
                text::split_on(chars@.skip(from as int), ','),
                tls,
            ),
        decreases chars@.len() - from,
    {
        let to: usize = text::find_char(&chars, from, ',');
        let ghost rest = chars@.skip(from as int);
        let ghost pieces = text::split_on(rest, ',');
        let ghost before = text::views(urls@);
        proof {
            text::lemma_split_on_step(rest, ',');
            assert(rest.take(to - from) =~= chars@.subrange(from as int, to as int));
            assert(to == chars@.len() ==> rest =~= chars@.subrange(from as int, to as int));
            assert(pieces[0] == chars@.subrange(from as int, to as int));
        }
        let host = text::trim_range(&chars, from, to);
        if !host.as_str().is_empty() {
            let mut url = if tls {
                "rediss://".to_owned()
            } else {
                "redis://".to_owned()
            };
            url.append(host.as_str());
            urls.push(url);
            assert(text::views(urls@) =~= before.push(url@));
        }
        assert(text::views(urls@) + urls_of(pieces.drop_first(), tls) =~= before + urls_of(
            pieces,
            tls,
        ));
        if to == chars.len() {
            assert(pieces.drop_first() =~= Seq::<Seq<char>>::empty());
            assert(text::views(urls@) + Seq::<Seq<char>>::empty() =~= text::views(urls@));
            return urls;
        }
        proof {
            assert(rest.skip(to - from + 1) =~= chars@.skip(to + 1));
            assert(pieces.drop_first() =~= text::split_on(chars@.skip(to + 1), ','));
        }
        from = to + 1;
    }
}

/// `redis::sentinel::SentinelClient`, opaque to the proofs.
#[verifier::external_type_specification]
#[verifier::external_body]
pub struct ExSentinelClient(SentinelClient);

/// `redis::RedisConnectionInfo`, opaque to the proofs.
#[verifier::external_type_specification]
#[verifier::external_body]
pub struct ExRedisConnectionInfo(RedisConnectionInfo);

/// `redis::sentinel::SentinelNodeConnectionInfo`, opaque to the proofs.
#[verifier::external_type_specification]
#[verifier::external_body]
pub struct ExSentinelNode(SentinelNodeConnectionInfo);

/// `redis::RedisError`, opaque to the proofs.
#[verifier::external_type_specification]
#[verifier::external_body]
pub struct ExRedisError(RedisError);

/// The password and the database number that connection information holds: what
/// its methods `password` and `db` return.
pub uninterp spec fn login_of(info: RedisConnectionInfo) -> (Option<Seq<char>>, int);

/// How the Redis nodes are connected to: the password, the database number, and
/// whether TLS is spoken and certificates are verified.
pub uninterp spec fn node_of(node: SentinelNodeConnectionInfo) -> (Option<Seq<char>>, int, bool);

/// What a Sentinel client was built from: the Sentinel URLs, the name of the
/// master group, and how the Redis nodes are connected to.
pub uninterp spec fn target_of(client: SentinelClient) -> (
    Seq<Seq<char>>,
    Seq<char>,
    (Option<Seq<char>>, int, bool),
);

/// Whether `SentinelClient::build` takes these URLs: it parses each of them and
/// refuses an empty list.
pub uninterp spec fn urls_accepted(urls: Seq<Seq<char>>) -> bool;

/// `RedisConnectionInfo::default` with `set_db`: this database and no password.
#[verifier::external_body]
fn login_without_password(db: u8) -> (info: RedisConnectionInfo)
    ensures
        login_of(info) == (None::<Seq<char>>, db as int),
{
    RedisConnectionInfo::default().set_db(db.into())
}

/// `RedisConnectionInfo::set_password`: the password changes, the database does
/// not.
#[verifier::external_body]
fn login_with_password(info: RedisConnectionInfo, password: &str) -> (r: RedisConnectionInfo)
    ensures
        login_of(r) == (Some(password@), login_of(info).1),
{
    info.set_password(password)
}

/// `SentinelNodeConnectionInfo::default` with `set_redis_connection_info`: this
/// login, over plain connections.
#[verifier::external_body]
fn plain_node(info: RedisConnectionInfo) -> (node: SentinelNodeConnectionInfo)
    ensures
        node_of(node) == (login_of(info).0, login_of(info).1, false),
{
    SentinelNodeConnectionInfo::default().set_redis_connection_info(info)
}

/// `SentinelNodeConnectionInfo::set_tls_mode` with `TlsMode::Secure`: the same login,
/// over TLS with verified certificates.
#[verifier::external_body]
fn tls_node(node: SentinelNodeConnectionInfo) -> (r: SentinelNodeConnectionInfo)
    ensures
        node_of(r) == (node_of(node).0, node_of(node).1, true),
{
    node.set_tls_mode(TlsMode::Secure)
}

/// `SentinelClient::build` for the master of a group: a client for this target,
/// exactly where the URLs parse. It connects to nothing yet.
#[verifier::external_body]
fn sentinel_client(urls: Vec<String>, master: &str, node: SentinelNodeConnectionInfo) -> (r: Result<
    SentinelClient,
    RedisError,
>)
    ensures
        r is Ok <==> urls_accepted(text::views(urls@)),
        r matches Ok(client) ==> target_of(client) == (text::views(urls@), master@, node_of(node)),
{
    SentinelClient::build(urls, String::from(master), Some(node), SentinelServerType::Master)
}

/// Why a Redis cache could not be set up.
pub enum RedisSetupError {
    /// The list of endpoints names none.
    NoSentinels,
    /// The client refused the endpoints.
    Client(RedisError),
}

impl RedisSetupError {
    /// The message for the log, where the error is not the client's own.
    pub fn message(&self) -> (r: Option<&'static str>)
        ensures
            self is NoSentinels ==> (r matches Some(m) && m@
                == "REDIS_SENTINELS: no valid host:port pairs"@),
            self is Client ==> r is None,
    {
        match self {
            RedisSetupError::NoSentinels => Some("REDIS_SENTINELS: no valid host:port pairs"),
            RedisSetupError::Client(_) => None,
        }
    }
}

/// A Redis command of the cache.
pub enum RedisCommand {
    /// Read the value under a key.
    Get { key: String },
    /// Write a value under a key, for a number of seconds.
    SetEx { key: String, value: String, seconds: u64 },
    /// Remove a key.
    Del { key: String },
}

/// Redis could not be reached, or refused the command.
pub struct Unreachable;

/// The Redis key of a cache key under a prefix; without a prefix the key itself.
pub open spec fn prefixed_key(prefix: Seq<char>, key: Seq<char>) -> Seq<char> {
    if prefix.len() == 0 {
        key
    } else {
        prefix + ":"@ + key
    }
}

/// The cache shared over Redis Sentinel, with a local cache to fall back on
/// while Redis is unreachable.
///
/// Who owns the cache sends the commands that it names, and hands back what
/// became of them.
pub struct RedisCache<C: CacheBackend> {
    /// The client through which the commands are sent.
    pub sentinel: SentinelClient,
    ttl_secs: u64,
    prefix: String,
    fallback: C,
}

/// What a lookup comes to: what Redis answered, or `local` where it did not.
pub fn settle(reply: Result<Option<String>, Unreachable>, local: Option<String>) -> (r: Option<
    String,
>)
    ensures
        reply matches Ok(answer) ==> r == answer,
        reply is Err ==> r == local,
{
    match reply {
        Ok(answer) => answer,
        Err(_) => local,
    }
}

impl RedisCache<MokaCache> {
    /// A cache on the Redis master of a Sentinel group.
    ///
    /// `sentinels` is a comma-separated list of `host:port` pairs, `master_name`
    /// names the group, and `ttl_ms` is the time to live of an entry in
    /// milliseconds. Redis counts it in whole seconds, at least one. With `tls`, both
    /// the Sentinels and the Redis nodes are connected to by TLS.
    pub fn from_sentinel(
        sentinels: &str,
        master_name: &str,
        password: Option<&str>,
        db: u8,
        ttl_ms: u64,
        prefix: String,
        tls: bool,
    ) -> (r: Result<RedisCache<MokaCache>, RedisSetupError>)
        requires
            sentinel_urls_of(sentinels@, tls).len() > 0 ==> ttl_ms <= MAX_TTL_MS,
        ensures
            sentinel_urls_of(sentinels@, tls).len() == 0 <==> r matches Err(
                RedisSetupError::NoSentinels,
            ),
            r is Ok <==> sentinel_urls_of(sentinels@, tls).len() > 0 && urls_accepted(
                sentinel_urls_of(sentinels@, tls),
            ),
            r matches Ok(cache) ==> {
                &&& cache.target() == (
                    sentinel_urls_of(sentinels@, tls),
                    master_name@,
                    (text::opt_text(password), db as int, tls),
                )
                &&& cache.seconds() == (if ttl_ms < 1000 {
                    1
                } else {
                    ttl_ms / 1000
                })
                &&& cache.key_prefix() == prefix@
                &&& cache.fallback_recalled() == nothing_written()
                &&& cache.fallback_limits() == (ttl_ms, CAPACITY)
            },
    {
        let urls = sentinel_urls(sentinels, tls);
        assert(text::views(urls@).len() == urls@.len());
        if urls.len() == 0 {
            return Err(RedisSetupError::NoSentinels);
        }
        let info = login_without_password(db);
        let info = match password {
            Some(word) => login_with_password(info, word),
            None => info,
        };
        let node = plain_node(info);
        let node = if tls {
            tls_node(node)
        } else {
            node
        };
        match sentinel_client(urls, master_name, node) {
            Err(e) => Err(RedisSetupError::Client(e)),
            Ok(sentinel) => {
                let fallback = MokaCache::build(ttl_ms);
                let whole: u64 = ttl_ms / 1000;
                let ttl_secs: u64 = if whole < 1 {
                    1
                } else {
                    whole
                };
                Ok(RedisCache { sentinel, ttl_secs, prefix, fallback })
            },
        }
    }
}

impl<C: CacheBackend> RedisCache<C> {
    /// What the client was built from.
    pub closed spec fn target(&self) -> (
        Seq<Seq<char>>,
        Seq<char>,
        (Option<Seq<char>>, int, bool),
    ) {
        target_of(self.sentinel)
    }

    /// For how many seconds Redis keeps an entry.
    pub closed spec fn seconds(&self) -> u64 {
        self.ttl_secs
    }

    /// The prefix of the keys in Redis.
    pub closed spec fn key_prefix(&self) -> Seq<char> {
        self.prefix@
    }

    /// What was written to the local cache.
    pub closed spec fn fallback_recalled(&self) -> Map<Seq<char>, Seq<char>> {
        self.fallback.recalled()
    }

    /// A lookup of `key` in the local cache can come to `answer`.
    pub closed spec fn fallback_answers(
        &self,
        key: Seq<char>,
        answer: Option<Seq<char>>,
    ) -> bool {
        self.fallback.answers(key, answer)
    }

    /// The limits of the local cache.
    pub closed spec fn fallback_limits(&self) -> (u64, u64) {
        self.fallback.limits()
    }

    /// The Redis key of `key`.
    pub fn prefixed(&self, key: &str) -> (r: String)
        ensures
            r@ == prefixed_key(self.key_prefix(), key@),
    {
        if self.prefix.as_str().is_empty() {
            key.to_owned()
        } else {
            let mut r = self.prefix.clone();
            r.append(":");
            r.append(key);
            r
        }
    }

    /// The command that reads `key`.
    pub fn get_command(&self, key: &str) -> (r: RedisCommand)
        ensures
            r matches RedisCommand::Get { key: k } && k@ == prefixed_key(self.key_prefix(), key@),
    {
        RedisCommand::Get { key: self.prefixed(key) }
    }

    /// The value under `key`, given how the command that reads it ended: what
    /// Redis answered, or what the local cache holds where it did not answer.
    pub fn get(&self, key: &str, reply: Result<Option<String>, Unreachable>) -> (r: Option<String>)
        ensures
            reply matches Ok(answer) ==> r == answer,
            reply is Err ==> self.fallback_answers(key@, text::opt_view(r)) && may_answer(
                self.fallback_recalled(),
                key@,
                text::opt_view(r),
            ),
    {
        let local = if reply.is_err() {
            self.fallback.get(key)
        } else {
            None
        };
        settle(reply, local)
    }

    /// The command that writes `value` under `key`.
    pub fn set_command(&self, key: &str, value: &str) -> (r: RedisCommand)
        ensures
            r matches RedisCommand::SetEx { key: k, value: v, seconds } && k@ == prefixed_key(
                self.key_prefix(),
                key@,
            ) && v@ == value@ && seconds == self.seconds(),
    {
        RedisCommand::SetEx {
            key: self.prefixed(key),
            value: value.to_owned(),
            seconds: self.ttl_secs,
        }
    }

    /// Completes a write, given how its command ended: where Redis did not take
    /// the value, the local cache does.
    pub fn set(&mut self, key: String, value: String, reply: Result<(), Unreachable>)
        ensures
            reply is Ok ==> final(self).fallback_recalled() == old(self).fallback_recalled(),
            reply is Err ==> final(self).fallback_recalled() == old(
                self,
            ).fallback_recalled().insert(key@, value@),
            final(self).seconds() == old(self).seconds(),
            final(self).key_prefix() == old(self).key_prefix(),
            final(self).target() == old(self).target(),
            final(self).fallback_limits() == old(self).fallback_limits(),
    {
        if reply.is_err() {
            self.fallback.set(key, value);
        }
    }

    /// The command that removes `key`.
    pub fn delete_command(&self, key: &str) -> (r: RedisCommand)
        ensures
            r matches RedisCommand::Del { key: k } && k@ == prefixed_key(self.key_prefix(), key@),
    {
        RedisCommand::Del { key: self.prefixed(key) }
    }

    /// Completes a removal, however its command ended: the local cache forgets
    /// the key.
    pub fn delete(&mut self, key: &str)
        ensures
            final(self).fallback_recalled() == old(self).fallback_recalled().remove(key@),
            final(self).seconds() == old(self).seconds(),
            final(self).key_prefix() == old(self).key_prefix(),
            final(self).target() == old(self).target(),
            final(self).fallback_limits() == old(self).fallback_limits(),
    {
        self.fallback.delete(key);
    }
}

/// After a write, a lookup of the key yields the value written or nothing, and a
/// lookup of any other key yields what it could yield before.
pub proof fn law_write_is_what_is_read(
    recalled: Map<Seq<char>, Seq<char>>,
    key: Seq<char>,
    value: Seq<char>,
    other: Seq<char>,
    answer: Option<Seq<char>>,
)
    ensures
        may_answer(recalled.insert(key, value), key, answer) <==> (answer is None || answer
            == Some(value)),
        other != key ==> (may_answer(recalled.insert(key, value), other, answer) <==> may_answer(
            recalled,
            other,
            answer,
        )),
{
}

/// After a removal, a lookup of the key yields nothing, and a lookup of any other
/// key yields what it could yield before.
pub proof fn law_removed_key_is_absent(
    recalled: Map<Seq<char>, Seq<char>>,
    key: Seq<char>,
    other: Seq<char>,
    answer: Option<Seq<char>>,
)
    ensures
        may_answer(recalled.remove(key), key, answer) <==> answer is None,
        other != key ==> (may_answer(recalled.remove(key), other, answer) <==> may_answer(
            recalled,
            other,
            answer,
        )),
{
}

/// Under one prefix, different keys have different Redis keys.
pub proof fn law_prefixed_keys_are_distinct(prefix: Seq<char>, a: Seq<char>, b: Seq<char>)
    ensures
        prefixed_key(prefix, a) == prefixed_key(prefix, b) <==> a == b,
{
    if prefix.len() > 0 && prefixed_key(prefix, a) == prefixed_key(prefix, b) {
        let head = prefix + ":"@;
        assert(prefixed_key(prefix, a).skip(head.len() as int) =~= a);
        assert(prefixed_key(prefix, b).skip(head.len() as int) =~= b);
    }
}

} // verus!
