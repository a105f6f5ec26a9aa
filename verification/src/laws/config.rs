//! The configuration.

use vstd::prelude::*;

use crate::config;
use crate::config::{should_warn_plaintext_url, Config, ConfigError, Environment, ReadFile};
use crate::duration::{duration_fits, parse_go_duration};
use crate::secret;
use crate::text;
use crate::text::{parse_unsigned, push_decimal, trim};

verus! {

/// The variable `key` has this value: the first one of that name has it.
pub open spec fn says(vars: Seq<(String, String)>, key: Seq<char>, value: Seq<char>) -> bool {
    exists|i: int|
        {
            &&& 0 <= i < vars.len()
            &&& (#[trigger] vars[i]).0@ == key
            &&& vars[i].1@ == value
            &&& forall|j: int| 0 <= j < i ==> (#[trigger] vars[j]).0@ != key
        }
}

/// There is no variable `key`.
pub open spec fn unset(vars: Seq<(String, String)>, key: Seq<char>) -> bool {
    forall|i: int| 0 <= i < vars.len() ==> (#[trigger] vars[i]).0@ != key
}

/// The variable `key` is the same in two environments.
pub open spec fn agree_on(
    a: Seq<(String, String)>,
    b: Seq<(String, String)>,
    key: Seq<char>,
) -> bool {
    forall|value: Seq<char>| #[trigger] says(a, key, value) <==> says(b, key, value)
}

proof fn lemma_value(vars: Seq<(String, String)>, key: Seq<char>)
    ensures
        match config::value_of(vars, key) {
            Some(value) => says(vars, key, value) && !unset(vars, key),
            None => unset(vars, key),
        },
    decreases vars.len(),
{
    if vars.len() > 0 {
        if vars[0].0@ == key {
            assert(says(vars, key, vars[0].1@));
        } else {
            let rest = vars.drop_first();
            lemma_value(rest, key);
            if let Some(value) = config::value_of(rest, key) {
                let i = choose|i: int|
                    {
                        &&& 0 <= i < rest.len()
                        &&& (#[trigger] rest[i]).0@ == key
                        &&& rest[i].1@ == value
                        &&& forall|j: int| 0 <= j < i ==> (#[trigger] rest[j]).0@ != key
                    };
                assert(vars[i + 1] == rest[i]);
                assert forall|j: int| 0 <= j < i + 1 implies (#[trigger] vars[j]).0@ != key by {
                    if j > 0 {
                        assert(rest[j - 1] == vars[j]);
                    }
                }
            } else {
                assert forall|i: int| 0 <= i < vars.len() implies (#[trigger] vars[i]).0@
                    != key by {
                    if i > 0 {
                        assert(rest[i - 1] == vars[i]);
                    }
                }
            }
        }
    }
}

proof fn lemma_one_value(
    vars: Seq<(String, String)>,
    key: Seq<char>,
    value: Seq<char>,
    other: Seq<char>,
)
    requires
        says(vars, key, value),
        says(vars, key, other),
    ensures
        value == other,
        !unset(vars, key),
{
    let i = choose|i: int|
        {
            &&& 0 <= i < vars.len()
            &&& (#[trigger] vars[i]).0@ == key
            &&& vars[i].1@ == value
            &&& forall|j: int| 0 <= j < i ==> (#[trigger] vars[j]).0@ != key
        };
    let k = choose|k: int|
        {
            &&& 0 <= k < vars.len()
            &&& (#[trigger] vars[k]).0@ == key
            &&& vars[k].1@ == other
            &&& forall|j: int| 0 <= j < k ==> (#[trigger] vars[j]).0@ != key
        };
    assert(vars[i].0@ == vars[k].0@);
    assert(i == k);
}

proof fn lemma_values(vars: Seq<(String, String)>)
    ensures
        forall|key: Seq<char>, value: Seq<char>| #[trigger]
            says(vars, key, value) <==> config::value_of(vars, key) == Some(value),
        forall|key: Seq<char>| #[trigger]
            unset(vars, key) <==> config::value_of(vars, key) is None,
{
    assert forall|key: Seq<char>, value: Seq<char>| #[trigger]
        says(vars, key, value) <==> config::value_of(vars, key) == Some(value) by {
        lemma_value(vars, key);
        if says(vars, key, value) {
            lemma_one_value(vars, key, value, value);
            lemma_one_value(vars, key, value, config::value_of(vars, key)->0);
        }
    }
    assert forall|key: Seq<char>| #[trigger]
        unset(vars, key) <==> config::value_of(vars, key) is None by {
        lemma_value(vars, key);
    }
}

proof fn lemma_agree(a: Seq<(String, String)>, b: Seq<(String, String)>)
    ensures
        forall|key: Seq<char>| #[trigger]
            agree_on(a, b, key) ==> config::value_of(a, key) == config::value_of(b, key),
{
    lemma_values(a);
    lemma_values(b);
    assert forall|key: Seq<char>| #[trigger] agree_on(a, b, key) implies config::value_of(a, key)
        == config::value_of(b, key) by {
        if let Some(value) = config::value_of(a, key) {
            assert(says(a, key, value));
            assert(says(b, key, value));
        } else if let Some(value) = config::value_of(b, key) {
            assert(says(b, key, value));
            assert(says(a, key, value));
        }
    }
}

/// A variable is found by its name: of several with the same name the first counts.
pub proof fn law_variables_are_found_by_name(env: Environment, key: &str, r: Option<&String>)
    requires
        call_ensures(Environment::var, (&env, key), r),
    ensures
        r matches Some(value) ==> says(env.vars@, key@, value@),
        r is None <==> unset(env.vars@, key@),
{
    lemma_values(env.vars@);
}

/// A variable that is set gives its value, the text, the duration, the number or the
/// flag that it spells; one that spells none, or is not set, gives the default.
pub proof fn law_variables_give_what_they_spell(
    env: Environment,
    key: &str,
    value: &str,
    default_text: &str,
    default_ms: u64,
    default_number: u32,
    default_size: usize,
    default_flag: bool,
    ms: Option<u64>,
    number: Option<u64>,
    size: Option<u64>,
    as_text: String,
    as_ms: u64,
    as_number: u32,
    as_size: usize,
    as_flag: bool,
)
    requires
        call_ensures(Environment::env_str, (&env, key, default_text), as_text),
        call_ensures(Environment::env_duration, (&env, key, default_ms), as_ms),
        call_ensures(Environment::env_u32, (&env, key, default_number), as_number),
        call_ensures(Environment::env_usize, (&env, key, default_size), as_size),
        call_ensures(Environment::env_bool, (&env, key, default_flag), as_flag),
        call_ensures(parse_go_duration, (value,), ms),
        call_ensures(parse_unsigned, (value, 4_294_967_295u64), number),
        call_ensures(parse_unsigned, (value, usize::MAX as u64), size),
    ensures
        unset(env.vars@, key@) ==> as_text@ == default_text@ && as_ms == default_ms && as_number
            == default_number && as_size == default_size && as_flag == default_flag,
        says(env.vars@, key@, value@) ==> {
            &&& as_text@ == value@
            &&& as_ms == (match ms {
                Some(d) => d,
                None => default_ms,
            })
            &&& as_number == (match number {
                Some(n) => n as int,
                None => default_number as int,
            })
            &&& as_size == (match size {
                Some(n) => n as int,
                None => default_size as int,
            })
            &&& as_flag == is_flag(value@, default_flag)
        },
{
    lemma_values(env.vars@);
    lemma_flag(value@, default_flag);
}

/// The flag that a text spells: `true`, `1` or `yes`, and `false`, `0` or `no`.
pub open spec fn is_flag(value: Seq<char>, default: bool) -> bool {
    if default {
        !(value == "false"@ || value == "0"@ || value == "no"@)
    } else {
        value == "true"@ || value == "1"@ || value == "yes"@
    }
}

proof fn lemma_flag(value: Seq<char>, default: bool)
    ensures
        is_flag(value, default) == (if value == "true"@ || value == "1"@ || value == "yes"@ {
            true
        } else if value == "false"@ || value == "0"@ || value == "no"@ {
            false
        } else {
            default
        }),
{
    reveal_strlit("true");
    reveal_strlit("1");
    reveal_strlit("yes");
    reveal_strlit("false");
    reveal_strlit("0");
    reveal_strlit("no");
    assert("true"@.len() == 4 && "false"@.len() == 5 && "no"@.len() == 2 && "yes"@.len() == 3);
    assert("1"@[0] != "0"@[0]);
}

/// The configuration was loaded from this environment and these files.
pub open spec fn is_loaded(
    env: Environment,
    files: Vec<ReadFile>,
    r: Result<Config, ConfigError>,
) -> bool {
    call_ensures(Config::load, (&env, &files), r) || call_ensures(
        Config::checked_load,
        (&env, &files),
        Some(r),
    )
}

/// Each setting that is a duration is what its own variable spells, or its default where
/// the variable is not set or spells none.
pub proof fn law_durations_follow_their_variables(
    env: Environment,
    files: Vec<ReadFile>,
    c: Config,
    value: &str,
    spelled: Option<u64>,
)
    requires
        is_loaded(env, files, Ok(c)),
        call_ensures(parse_go_duration, (value,), spelled),
    ensures
        says(env.vars@, "DISCOVERY_INTERVAL"@, value@) ==> c.discovery_interval == (match spelled {
            Some(ms) => ms,
            None => 60_000u64,
        }),
        unset(env.vars@, "DISCOVERY_INTERVAL"@) ==> c.discovery_interval == 60_000,
        says(env.vars@, "RESOLVER_TIMEOUT"@, value@) ==> c.resolver_timeout == (match spelled {
            Some(ms) => ms,
            None => 10_000u64,
        }),
        unset(env.vars@, "RESOLVER_TIMEOUT"@) ==> c.resolver_timeout == 10_000,
        says(env.vars@, "CACHE_TTL"@, value@) ==> c.cache_ttl == (match spelled {
            Some(ms) => ms,
            None => 300_000u64,
        }),
        unset(env.vars@, "CACHE_TTL"@) ==> c.cache_ttl == 300_000,
        says(env.vars@, "NEGATIVE_CACHE_TTL"@, value@) ==> c.negative_cache_ttl == (match spelled {
            Some(ms) => ms,
            None => 30_000u64,
        }),
        unset(env.vars@, "NEGATIVE_CACHE_TTL"@) ==> c.negative_cache_ttl == 30_000,
        says(env.vars@, "STALE_WHILE_REVALIDATE"@, value@) ==> c.stale_while_revalidate == (match spelled {
            Some(ms) => ms,
            None => 60_000u64,
        }),
        unset(env.vars@, "STALE_WHILE_REVALIDATE"@) ==> c.stale_while_revalidate == 60_000,
        says(env.vars@, "CIRCUIT_BREAKER_TIMEOUT"@, value@) ==> c.circuit_breaker_timeout == (match spelled {
            Some(ms) => ms,
            None => 30_000u64,
        }),
        unset(env.vars@, "CIRCUIT_BREAKER_TIMEOUT"@) ==> c.circuit_breaker_timeout == 30_000,
        says(env.vars@, "RETRY_BASE_DELAY"@, value@) ==> c.retry_base_delay == (match spelled {
            Some(ms) => ms,
            None => 150u64,
        }),
        unset(env.vars@, "RETRY_BASE_DELAY"@) ==> c.retry_base_delay == 150,
        says(env.vars@, "IDLE_CONN_TIMEOUT"@, value@) ==> c.idle_conn_timeout == (match spelled {
            Some(ms) => ms,
            None => 90_000u64,
        }),
        unset(env.vars@, "IDLE_CONN_TIMEOUT"@) ==> c.idle_conn_timeout == 90_000,
        says(env.vars@, "BLOB_READ_TIMEOUT"@, value@) ==> c.blob_read_timeout == (match spelled {
            Some(ms) => ms,
            None => 60_000u64,
        }),
        unset(env.vars@, "BLOB_READ_TIMEOUT"@) ==> c.blob_read_timeout == 60_000,
{
    lemma_values(env.vars@);
}

/// Each setting that is a number is what its own variable spells, or its default where
/// the variable is not set or spells none.
pub proof fn law_numbers_follow_their_variables(
    env: Environment,
    files: Vec<ReadFile>,
    c: Config,
    value: &str,
    number: Option<u64>,
    size: Option<u64>,
)
    requires
        is_loaded(env, files, Ok(c)),
        call_ensures(parse_unsigned, (value, 4_294_967_295u64), number),
        call_ensures(parse_unsigned, (value, usize::MAX as u64), size),
    ensures
        says(env.vars@, "CIRCUIT_BREAKER_THRESHOLD"@, value@) ==> c.circuit_breaker_threshold == (match number {
            Some(n) => n as int,
            None => 5,
        }),
        unset(env.vars@, "CIRCUIT_BREAKER_THRESHOLD"@) ==> c.circuit_breaker_threshold == 5,
        says(env.vars@, "RETRY_MAX_ATTEMPTS"@, value@) ==> c.retry_max_attempts == (match number {
            Some(n) => n as int,
            None => 2,
        }),
        unset(env.vars@, "RETRY_MAX_ATTEMPTS"@) ==> c.retry_max_attempts == 2,
        says(env.vars@, "LISTEN_BACKLOG"@, value@) ==> c.listen_backlog == (match number {
            Some(n) => n as int,
            None => 8_192,
        }),
        unset(env.vars@, "LISTEN_BACKLOG"@) ==> c.listen_backlog == 8_192,
        says(env.vars@, "RATE_LIMIT_PER_IP"@, value@) ==> c.rate_limit_per_ip == (match number {
            Some(n) => n as int,
            None => 0,
        }),
        unset(env.vars@, "RATE_LIMIT_PER_IP"@) ==> c.rate_limit_per_ip == 0,
        says(env.vars@, "REDIS_DB"@, value@) ==> c.redis_db == (match number {
            Some(n) => n as int,
            None => 0,
        }),
        unset(env.vars@, "REDIS_DB"@) ==> c.redis_db == 0,
        says(env.vars@, "MAX_IDLE_CONNS_PER_HOST"@, value@) ==> c.max_idle_conns_per_host == (match size {
            Some(n) => n as int,
            None => 512,
        }),
        unset(env.vars@, "MAX_IDLE_CONNS_PER_HOST"@) ==> c.max_idle_conns_per_host == 512,
        says(env.vars@, "MAX_CONNS_PER_HOST"@, value@) ==> c.max_conns_per_host == (match size {
            Some(n) => n as int,
            None => 0,
        }),
        unset(env.vars@, "MAX_CONNS_PER_HOST"@) ==> c.max_conns_per_host == 0,
        says(env.vars@, "CACHE_WARMUP_TOP_N"@, value@) ==> c.cache_warmup_top_n == (match size {
            Some(n) => n as int,
            None => 100,
        }),
        unset(env.vars@, "CACHE_WARMUP_TOP_N"@) ==> c.cache_warmup_top_n == 100,
        says(env.vars@, "MAX_FANOUT_PROJECTS"@, value@) ==> c.max_fanout_projects == (match size {
            Some(n) => n as int,
            None => 50,
        }),
        unset(env.vars@, "MAX_FANOUT_PROJECTS"@) ==> c.max_fanout_projects == 50,
        c.redis_db <= 15,
{
    lemma_values(env.vars@);
}

/// Each setting that is a text is the value of its own variable, or its default where
/// the variable is not set.
pub proof fn law_texts_follow_their_variables(
    env: Environment,
    files: Vec<ReadFile>,
    c: Config,
    value: Seq<char>,
)
    requires
        is_loaded(env, files, Ok(c)),
    ensures
        says(env.vars@, "HARBOR_URL"@, value) ==> c.harbor_url@ == value,
        unset(env.vars@, "HARBOR_URL"@) ==> c.harbor_url@ == "http://harbor-core:80"@,
        says(env.vars@, "LISTEN_ADDR"@, value) ==> c.listen_addr@ == value,
        unset(env.vars@, "LISTEN_ADDR"@) ==> c.listen_addr@ == ":8080"@,
        says(env.vars@, "METRICS_ADDR"@, value) ==> c.metrics_addr@ == value,
        unset(env.vars@, "METRICS_ADDR"@) ==> c.metrics_addr@ == ":9090"@,
        says(env.vars@, "PROXY_PROJECT"@, value) ==> c.proxy_project@ == value,
        unset(env.vars@, "PROXY_PROJECT"@) ==> c.proxy_project@ == "proxy"@,
        says(env.vars@, "REDIS_SENTINELS"@, value) ==> c.redis_sentinels@ == value,
        unset(env.vars@, "REDIS_SENTINELS"@) ==> c.redis_sentinels@ == ""@,
        says(env.vars@, "REDIS_MASTER_NAME"@, value) ==> c.redis_master_name@ == value,
        unset(env.vars@, "REDIS_MASTER_NAME"@) ==> c.redis_master_name@ == "mymaster"@,
        says(env.vars@, "REDIS_KEY_PREFIX"@, value) ==> c.redis_key_prefix@ == value,
        unset(env.vars@, "REDIS_KEY_PREFIX"@) ==> c.redis_key_prefix@ == "hr"@,
        says(env.vars@, "LOG_LEVEL"@, value) ==> c.log_level@ == value,
        unset(env.vars@, "LOG_LEVEL"@) ==> c.log_level@ == "info"@,
        says(env.vars@, "LOG_FORMAT"@, value) ==> c.log_format@ == value,
        unset(env.vars@, "LOG_FORMAT"@) ==> c.log_format@ == "pretty"@,
        c.harbor_url@.len() > 0,
{
    lemma_values(env.vars@);
}

/// Each flag is what its own variable spells, and off where the variable is not set or
/// spells none.
pub proof fn law_flags_follow_their_variables(
    env: Environment,
    files: Vec<ReadFile>,
    c: Config,
    value: Seq<char>,
)
    requires
        is_loaded(env, files, Ok(c)),
    ensures
        says(env.vars@, "HTTP2_PRIOR_KNOWLEDGE"@, value) ==> c.http2_prior_knowledge == (value == "true"@ || value
            == "1"@ || value == "yes"@),
        unset(env.vars@, "HTTP2_PRIOR_KNOWLEDGE"@) ==> !c.http2_prior_knowledge,
        says(env.vars@, "REDIS_TLS"@, value) ==> c.redis_tls == (value == "true"@ || value
            == "1"@ || value == "yes"@),
        unset(env.vars@, "REDIS_TLS"@) ==> !c.redis_tls,
        says(env.vars@, "ENABLE_PPROF"@, value) ==> c.enable_pprof == (value == "true"@ || value
            == "1"@ || value == "yes"@),
        unset(env.vars@, "ENABLE_PPROF"@) ==> !c.enable_pprof,
{
    lemma_values(env.vars@);
    lemma_flag(value, false);
}

/// No setting depends on another variable than its own: two environments that agree on
/// the variable give the same setting, however else they differ.
pub proof fn law_settings_depend_on_their_own_variables(
    env: Environment,
    files: Vec<ReadFile>,
    c: Config,
    other_env: Environment,
    other_files: Vec<ReadFile>,
    other: Config,
)
    requires
        is_loaded(env, files, Ok(c)),
        is_loaded(other_env, other_files, Ok(other)),
    ensures
        agree_on(env.vars@, other_env.vars@, "DISCOVERY_INTERVAL"@) ==> c.discovery_interval == other.discovery_interval,
        agree_on(env.vars@, other_env.vars@, "RESOLVER_TIMEOUT"@) ==> c.resolver_timeout == other.resolver_timeout,
        agree_on(env.vars@, other_env.vars@, "CACHE_TTL"@) ==> c.cache_ttl == other.cache_ttl,
        agree_on(env.vars@, other_env.vars@, "NEGATIVE_CACHE_TTL"@) ==> c.negative_cache_ttl == other.negative_cache_ttl,
        agree_on(env.vars@, other_env.vars@, "STALE_WHILE_REVALIDATE"@) ==> c.stale_while_revalidate == other.stale_while_revalidate,
        agree_on(env.vars@, other_env.vars@, "CIRCUIT_BREAKER_TIMEOUT"@) ==> c.circuit_breaker_timeout == other.circuit_breaker_timeout,
        agree_on(env.vars@, other_env.vars@, "RETRY_BASE_DELAY"@) ==> c.retry_base_delay == other.retry_base_delay,
        agree_on(env.vars@, other_env.vars@, "IDLE_CONN_TIMEOUT"@) ==> c.idle_conn_timeout == other.idle_conn_timeout,
        agree_on(env.vars@, other_env.vars@, "BLOB_READ_TIMEOUT"@) ==> c.blob_read_timeout == other.blob_read_timeout,
        agree_on(env.vars@, other_env.vars@, "CIRCUIT_BREAKER_THRESHOLD"@) ==> c.circuit_breaker_threshold == other.circuit_breaker_threshold,
        agree_on(env.vars@, other_env.vars@, "RETRY_MAX_ATTEMPTS"@) ==> c.retry_max_attempts == other.retry_max_attempts,
        agree_on(env.vars@, other_env.vars@, "LISTEN_BACKLOG"@) ==> c.listen_backlog == other.listen_backlog,
        agree_on(env.vars@, other_env.vars@, "RATE_LIMIT_PER_IP"@) ==> c.rate_limit_per_ip == other.rate_limit_per_ip,
        agree_on(env.vars@, other_env.vars@, "REDIS_DB"@) ==> c.redis_db == other.redis_db,
        agree_on(env.vars@, other_env.vars@, "MAX_IDLE_CONNS_PER_HOST"@) ==> c.max_idle_conns_per_host == other.max_idle_conns_per_host,
        agree_on(env.vars@, other_env.vars@, "MAX_CONNS_PER_HOST"@) ==> c.max_conns_per_host == other.max_conns_per_host,
        agree_on(env.vars@, other_env.vars@, "CACHE_WARMUP_TOP_N"@) ==> c.cache_warmup_top_n == other.cache_warmup_top_n,
        agree_on(env.vars@, other_env.vars@, "MAX_FANOUT_PROJECTS"@) ==> c.max_fanout_projects == other.max_fanout_projects,
        agree_on(env.vars@, other_env.vars@, "HTTP2_PRIOR_KNOWLEDGE"@) ==> c.http2_prior_knowledge == other.http2_prior_knowledge,
        agree_on(env.vars@, other_env.vars@, "REDIS_TLS"@) ==> c.redis_tls == other.redis_tls,
        agree_on(env.vars@, other_env.vars@, "ENABLE_PPROF"@) ==> c.enable_pprof == other.enable_pprof,
        agree_on(env.vars@, other_env.vars@, "HARBOR_URL"@) ==> c.harbor_url@ == other.harbor_url@,
        agree_on(env.vars@, other_env.vars@, "LISTEN_ADDR"@) ==> c.listen_addr@ == other.listen_addr@,
        agree_on(env.vars@, other_env.vars@, "METRICS_ADDR"@) ==> c.metrics_addr@ == other.metrics_addr@,
        agree_on(env.vars@, other_env.vars@, "PROXY_PROJECT"@) ==> c.proxy_project@ == other.proxy_project@,
        agree_on(env.vars@, other_env.vars@, "REDIS_SENTINELS"@) ==> c.redis_sentinels@ == other.redis_sentinels@,
        agree_on(env.vars@, other_env.vars@, "REDIS_MASTER_NAME"@) ==> c.redis_master_name@ == other.redis_master_name@,
        agree_on(env.vars@, other_env.vars@, "REDIS_KEY_PREFIX"@) ==> c.redis_key_prefix@ == other.redis_key_prefix@,
        agree_on(env.vars@, other_env.vars@, "LOG_LEVEL"@) ==> c.log_level@ == other.log_level@,
        agree_on(env.vars@, other_env.vars@, "LOG_FORMAT"@) ==> c.log_format@ == other.log_format@,
{
    lemma_agree(env.vars@, other_env.vars@);
}

/// The first file with this path was read like this.
pub open spec fn file_is(
    files: Seq<ReadFile>,
    path: Seq<char>,
    read: Result<Seq<char>, Seq<char>>,
) -> bool {
    exists|i: int|
        {
            &&& 0 <= i < files.len()
            &&& (#[trigger] files[i]).0@ == path
            &&& match files[i].1 {
                Ok(contents) => read == Ok::<Seq<char>, Seq<char>>(contents@),
                Err(cause) => read == Err::<Seq<char>, Seq<char>>(cause@),
            }
            &&& forall|j: int| 0 <= j < i ==> (#[trigger] files[j]).0@ != path
        }
}

/// No file has this path.
pub open spec fn no_file(files: Seq<ReadFile>, path: Seq<char>) -> bool {
    forall|i: int| 0 <= i < files.len() ==> (#[trigger] files[i]).0@ != path
}

proof fn lemma_contents(files: Seq<ReadFile>, path: Seq<char>)
    ensures
        match config::contents_of(files, path) {
            Some(read) => file_is(files, path, read) && !no_file(files, path),
            None => no_file(files, path),
        },
    decreases files.len(),
{
    if files.len() > 0 {
        if files[0].0@ == path {
            assert(file_is(files, path, config::contents_of(files, path)->0));
        } else {
            let rest = files.drop_first();
            lemma_contents(rest, path);
            if let Some(read) = config::contents_of(rest, path) {
                let i = choose|i: int|
                    {
                        &&& 0 <= i < rest.len()
                        &&& (#[trigger] rest[i]).0@ == path
                        &&& match rest[i].1 {
                            Ok(contents) => read == Ok::<Seq<char>, Seq<char>>(contents@),
                            Err(cause) => read == Err::<Seq<char>, Seq<char>>(cause@),
                        }
                        &&& forall|j: int| 0 <= j < i ==> (#[trigger] rest[j]).0@ != path
                    };
                assert(files[i + 1] == rest[i]);
                assert forall|j: int| 0 <= j < i + 1 implies (#[trigger] files[j]).0@ != path by {
                    if j > 0 {
                        assert(rest[j - 1] == files[j]);
                    }
                }
            } else {
                assert forall|i: int| 0 <= i < files.len() implies (#[trigger] files[i]).0@
                    != path by {
                    if i > 0 {
                        assert(rest[i - 1] == files[i]);
                    }
                }
            }
        }
    }
}

proof fn lemma_files(files: Seq<ReadFile>)
    ensures
        forall|path: Seq<char>, read: Result<Seq<char>, Seq<char>>| #[trigger]
            file_is(files, path, read) <==> config::contents_of(files, path) == Some(read),
        forall|path: Seq<char>| #[trigger]
            no_file(files, path) <==> config::contents_of(files, path) is None,
{
    assert forall|path: Seq<char>, read: Result<Seq<char>, Seq<char>>| #[trigger]
        file_is(files, path, read) <==> config::contents_of(files, path) == Some(read) by {
        lemma_contents(files, path);
        if file_is(files, path, read) {
            let i = choose|i: int|
                {
                    &&& 0 <= i < files.len()
                    &&& (#[trigger] files[i]).0@ == path
                    &&& match files[i].1 {
                        Ok(contents) => read == Ok::<Seq<char>, Seq<char>>(contents@),
                        Err(cause) => read == Err::<Seq<char>, Seq<char>>(cause@),
                    }
                    &&& forall|j: int| 0 <= j < i ==> (#[trigger] files[j]).0@ != path
                };
            assert(files[i].0@ == path);
            let other = config::contents_of(files, path)->0;
            assert(file_is(files, path, other));
            let k = choose|k: int|
                {
                    &&& 0 <= k < files.len()
                    &&& (#[trigger] files[k]).0@ == path
                    &&& match files[k].1 {
                        Ok(contents) => other == Ok::<Seq<char>, Seq<char>>(contents@),
                        Err(cause) => other == Err::<Seq<char>, Seq<char>>(cause@),
                    }
                    &&& forall|j: int| 0 <= j < k ==> (#[trigger] files[j]).0@ != path
                };
            assert(i == k);
        }
    }
    assert forall|path: Seq<char>| #[trigger]
        no_file(files, path) <==> config::contents_of(files, path) is None by {
        lemma_contents(files, path);
    }
}

/// A secret comes from the file that the variable with `_FILE` behind its name names,
/// without the white space around it, and else from its own variable, as it is; it is
/// empty where neither is set. A file that could not be read is reported with the name,
/// the path and the cause.
pub proof fn law_secrets_come_from_file_or_variable(
    env: Environment,
    files: Vec<ReadFile>,
    key: &str,
    path: Seq<char>,
    contents: &str,
    bare: String,
    cause: Seq<char>,
    value: Seq<char>,
    r: Result<String, ConfigError>,
    file: Option<String>,
    read: bool,
)
    requires
        call_ensures(Environment::env_str_or_file, (&env, &files, key), r),
        call_ensures(Environment::secret_file, (&env, key), file),
        call_ensures(Environment::has_read, (&env, &files, key), read),
        call_ensures(trim, (contents,), bare),
    ensures
        says(env.vars@, key@ + "_FILE"@, path) && path.len() > 0 ==> {
            &&& file matches Some(f) && f@ == path
            &&& read <==> !no_file(files@, path)
            &&& file_is(files@, path, Ok(contents@)) ==> (r matches Ok(s) && s@ == bare@)
            &&& file_is(files@, path, Err(cause)) ==> (r matches Err(
                ConfigError::Unread { key: k, path: p, cause: w },
            ) && k@ == key@ && p@ == path && w@ == cause)
        },
        unset(env.vars@, key@ + "_FILE"@) || says(env.vars@, key@ + "_FILE"@, ""@) ==> {
            &&& file is None
            &&& read
            &&& says(env.vars@, key@, value) ==> (r matches Ok(s) && s@ == value)
            &&& unset(env.vars@, key@) ==> (r matches Ok(s) && s@.len() == 0)
        },
{
    lemma_values(env.vars@);
    lemma_files(files@);
    reveal_strlit("");
}

/// The credentials of a configuration are the secrets of their own names, and none is
/// empty but the password for Redis, which is left out then.
pub proof fn law_credentials_are_the_secrets(
    env: Environment,
    files: Vec<ReadFile>,
    c: Config,
    username: Result<String, ConfigError>,
    password: Result<String, ConfigError>,
    redis: Result<String, ConfigError>,
)
    requires
        is_loaded(env, files, Ok(c)),
        call_ensures(
            Environment::env_str_or_file,
            (&env, &files, "HARBOR_USERNAME"),
            username,
        ),
        call_ensures(
            Environment::env_str_or_file,
            (&env, &files, "HARBOR_PASSWORD"),
            password,
        ),
        call_ensures(Environment::env_str_or_file, (&env, &files, "REDIS_PASSWORD"), redis),
    ensures
        username matches Ok(s) && s@.len() > 0 && secret::text_in(c.harbor_username) == s@,
        password matches Ok(s) && s@.len() > 0 && secret::text_in(c.harbor_password) == s@,
        redis matches Ok(s) && (if s@.len() == 0 {
            c.redis_password is None
        } else {
            c.redis_password is Some && secret::text_in(c.redis_password->0) == s@
        }),
{
}

/// A configuration is refused for the first of these: the user name could not be read,
/// the password could not be read, the URL is empty, a credential is empty, the password
/// for Redis could not be read, the Redis database is beyond 15. It is accepted where
/// none of them holds.
pub proof fn law_configuration_is_refused_for_a_reason(
    env: Environment,
    files: Vec<ReadFile>,
    r: Result<Config, ConfigError>,
    username: Result<String, ConfigError>,
    password: Result<String, ConfigError>,
    redis: Result<String, ConfigError>,
    url: String,
    db: u32,
)
    requires
        is_loaded(env, files, r),
        call_ensures(
            Environment::env_str_or_file,
            (&env, &files, "HARBOR_USERNAME"),
            username,
        ),
        call_ensures(
            Environment::env_str_or_file,
            (&env, &files, "HARBOR_PASSWORD"),
            password,
        ),
        call_ensures(Environment::env_str_or_file, (&env, &files, "REDIS_PASSWORD"), redis),
        call_ensures(Environment::env_str, (&env, "HARBOR_URL", "http://harbor-core:80"), url),
        call_ensures(Environment::env_u32, (&env, "REDIS_DB", 0u32), db),
    ensures
        match (username, password, redis) {
            (Err(e), _, _) => r is Err && same_error(r->Err_0, e),
            (Ok(_), Err(e), _) => r is Err && same_error(r->Err_0, e),
            (Ok(name), Ok(word), read) => if url@.len() == 0 {
                r is Err && r->Err_0 is NoHarborUrl
            } else if name@.len() == 0 || word@.len() == 0 {
                r is Err && r->Err_0 is NoCredentials
            } else if read is Err {
                r is Err && same_error(r->Err_0, read->Err_0)
            } else if db > 15 {
                r is Err && r->Err_0 == (ConfigError::RedisDb { got: db })
            } else {
                r is Ok
            },
        },
{
}

/// Two errors say the same.
pub open spec fn same_error(a: ConfigError, b: ConfigError) -> bool {
    match (a, b) {
        (
            ConfigError::Unread { key, path, cause },
            ConfigError::Unread { key: k, path: p, cause: w },
        ) => key@ == k@ && path@ == p@ && cause@ == w@,
        (ConfigError::NoHarborUrl, ConfigError::NoHarborUrl) => true,
        (ConfigError::NoCredentials, ConfigError::NoCredentials) => true,
        (ConfigError::RedisDb { got }, ConfigError::RedisDb { got: g }) => got == g,
        _ => false,
    }
}

/// What a refused configuration is reported with.
pub proof fn law_refusals_have_their_messages(
    e: ConfigError,
    r: String,
    start: String,
    number: String,
)
    requires
        call_ensures(ConfigError::message, (&e,), r),
        start@ == "REDIS_DB must be 0-15, got "@,
        e matches ConfigError::RedisDb { got } ==> exists|s: &mut String|
            *s == start && *final(s) == number && #[trigger] call_ensures(
                push_decimal,
                (s, got as u64),
                (),
            ),
    ensures
        match e {
            ConfigError::Unread { key, path, cause } => r@ == "failed to read "@ + key@
                + " from "@ + path@ + ": "@ + cause@,
            ConfigError::NoHarborUrl => r@ == "HARBOR_URL must be set"@,
            ConfigError::NoCredentials => r@
                == "HARBOR_USERNAME and HARBOR_PASSWORD must be set (via env var or *_FILE pointing to Vault-injected secret)"@,
            ConfigError::RedisDb { .. } => r@ == number@,
        },
{
}

/// The names of the variables that spell durations.
pub open spec fn duration_variables() -> Seq<Seq<char>> {
    seq![
        "DISCOVERY_INTERVAL"@,
        "RESOLVER_TIMEOUT"@,
        "CACHE_TTL"@,
        "NEGATIVE_CACHE_TTL"@,
        "STALE_WHILE_REVALIDATE"@,
        "CIRCUIT_BREAKER_TIMEOUT"@,
        "RETRY_BASE_DELAY"@,
        "IDLE_CONN_TIMEOUT"@,
        "BLOB_READ_TIMEOUT"@,
    ]
}

/// The durations fit where each variable that spells one fits or is not set; where one
/// does not, they do not.
pub proof fn law_durations_fit_one_by_one(
    env: Environment,
    r: bool,
    values: Seq<&str>,
    fit: Seq<bool>,
)
    requires
        call_ensures(Config::durations_fit, (&env,), r),
        values.len() == 9,
        fit.len() == 9,
        forall|k: int|
            0 <= k < 9 ==> unset(env.vars@, #[trigger] duration_variables()[k]) || says(
                env.vars@,
                duration_variables()[k],
                values[k]@,
            ),
        forall|k: int|
            0 <= k < 9 ==> call_ensures(duration_fits, (#[trigger] values[k],), fit[k]),
    ensures
        r <==> forall|k: int|
            0 <= k < 9 ==> unset(env.vars@, #[trigger] duration_variables()[k]) || fit[k],
{
    lemma_values(env.vars@);
    let names = duration_variables();
    assert forall|k: int| 0 <= k < 9 implies #[trigger] config::fits_at(env.vars@, names[k]) == (
    unset(env.vars@, names[k]) || fit[k]) by {
        assert(call_ensures(duration_fits, (values[k],), fit[k]));
        assert(unset(env.vars@, names[k]) || says(env.vars@, names[k], values[k]@));
    }
    assert(config::fits_at(env.vars@, names[0]) == config::fits_at(env.vars@, "DISCOVERY_INTERVAL"@));
    assert(config::fits_at(env.vars@, names[1]) == config::fits_at(env.vars@, "RESOLVER_TIMEOUT"@));
    assert(config::fits_at(env.vars@, names[2]) == config::fits_at(env.vars@, "CACHE_TTL"@));
    assert(config::fits_at(env.vars@, names[3]) == config::fits_at(env.vars@, "NEGATIVE_CACHE_TTL"@));
    assert(config::fits_at(env.vars@, names[4]) == config::fits_at(env.vars@, "STALE_WHILE_REVALIDATE"@));
    assert(config::fits_at(env.vars@, names[5]) == config::fits_at(env.vars@, "CIRCUIT_BREAKER_TIMEOUT"@));
    assert(config::fits_at(env.vars@, names[6]) == config::fits_at(env.vars@, "RETRY_BASE_DELAY"@));
    assert(config::fits_at(env.vars@, names[7]) == config::fits_at(env.vars@, "IDLE_CONN_TIMEOUT"@));
    assert(config::fits_at(env.vars@, names[8]) == config::fits_at(env.vars@, "BLOB_READ_TIMEOUT"@));
    if r {
        assert forall|k: int| 0 <= k < 9 implies unset(env.vars@, #[trigger] names[k])
            || fit[k] by {
            assert(config::fits_at(env.vars@, names[k]));
        }
    } else if forall|k: int| 0 <= k < 9 ==> unset(env.vars@, #[trigger] names[k]) || fit[k] {
        assert(unset(env.vars@, names[0]) || fit[0]);
        assert(unset(env.vars@, names[1]) || fit[1]);
        assert(unset(env.vars@, names[2]) || fit[2]);
        assert(unset(env.vars@, names[3]) || fit[3]);
        assert(unset(env.vars@, names[4]) || fit[4]);
        assert(unset(env.vars@, names[5]) || fit[5]);
        assert(unset(env.vars@, names[6]) || fit[6]);
        assert(unset(env.vars@, names[7]) || fit[7]);
        assert(unset(env.vars@, names[8]) || fit[8]);
    }
}

/// A configuration can be loaded exactly where the durations fit and the files of all
/// secrets were read.
pub proof fn law_configuration_is_loaded_where_it_can_be(
    env: Environment,
    files: Vec<ReadFile>,
    r: Option<Result<Config, ConfigError>>,
    fit: bool,
    username: bool,
    password: bool,
    redis: bool,
)
    requires
        call_ensures(Config::checked_load, (&env, &files), r),
        call_ensures(Config::durations_fit, (&env,), fit),
        call_ensures(Environment::has_read, (&env, &files, "HARBOR_USERNAME"), username),
        call_ensures(Environment::has_read, (&env, &files, "HARBOR_PASSWORD"), password),
        call_ensures(Environment::has_read, (&env, &files, "REDIS_PASSWORD"), redis),
    ensures
        r is Some <==> fit && username && password && redis,
        r is Some ==> call_requires(Config::load, (&env, &files)),
{
}

/// The files that secrets come from are those that the variables of the three secrets
/// name, and no others.
pub proof fn law_files_of_secrets_are_named(
    env: Environment,
    paths: Vec<String>,
    path: Seq<char>,
    i: int,
)
    requires
        call_ensures(Config::secret_files, (&env,), paths),
        path.len() > 0,
        0 <= i < paths@.len(),
    ensures
        says(env.vars@, "HARBOR_USERNAME"@ + "_FILE"@, path) || says(
            env.vars@,
            "HARBOR_PASSWORD"@ + "_FILE"@,
            path,
        ) || says(env.vars@, "REDIS_PASSWORD"@ + "_FILE"@, path) ==> text::views(paths@).contains(
            path,
        ),
        paths@[i]@.len() > 0,
        says(env.vars@, "HARBOR_USERNAME"@ + "_FILE"@, paths@[i]@) || says(
            env.vars@,
            "HARBOR_PASSWORD"@ + "_FILE"@,
            paths@[i]@,
        ) || says(env.vars@, "REDIS_PASSWORD"@ + "_FILE"@, paths@[i]@),
{
    lemma_values(env.vars@);
    if says(env.vars@, "HARBOR_USERNAME"@ + "_FILE"@, path) {
        assert(config::file_of(env.vars@, "HARBOR_USERNAME"@) == Some(path));
    }
    if says(env.vars@, "HARBOR_PASSWORD"@ + "_FILE"@, path) {
        assert(config::file_of(env.vars@, "HARBOR_PASSWORD"@) == Some(path));
    }
    if says(env.vars@, "REDIS_PASSWORD"@ + "_FILE"@, path) {
        assert(config::file_of(env.vars@, "REDIS_PASSWORD"@) == Some(path));
    }
    assert(paths@[i]@ == paths@[i]@);
}

/// What is shown of a configuration, and a copy of it, have the same settings, each of
/// them. A copy has the same secrets, and what is shown has none of them.
pub proof fn law_copies_keep_every_setting(c: Config, shown: Config, copy: Config)
    requires
        call_ensures(Config::redacted, (&c,), shown),
        call_ensures(Config::clone, (&c,), copy),
    ensures
        shown.discovery_interval == c.discovery_interval && copy.discovery_interval == c.discovery_interval,
        shown.resolver_timeout == c.resolver_timeout && copy.resolver_timeout == c.resolver_timeout,
        shown.cache_ttl == c.cache_ttl && copy.cache_ttl == c.cache_ttl,
        shown.negative_cache_ttl == c.negative_cache_ttl && copy.negative_cache_ttl == c.negative_cache_ttl,
        shown.stale_while_revalidate == c.stale_while_revalidate && copy.stale_while_revalidate == c.stale_while_revalidate,
        shown.circuit_breaker_timeout == c.circuit_breaker_timeout && copy.circuit_breaker_timeout == c.circuit_breaker_timeout,
        shown.retry_base_delay == c.retry_base_delay && copy.retry_base_delay == c.retry_base_delay,
        shown.idle_conn_timeout == c.idle_conn_timeout && copy.idle_conn_timeout == c.idle_conn_timeout,
        shown.blob_read_timeout == c.blob_read_timeout && copy.blob_read_timeout == c.blob_read_timeout,
        shown.circuit_breaker_threshold == c.circuit_breaker_threshold && copy.circuit_breaker_threshold == c.circuit_breaker_threshold,
        shown.retry_max_attempts == c.retry_max_attempts && copy.retry_max_attempts == c.retry_max_attempts,
        shown.listen_backlog == c.listen_backlog && copy.listen_backlog == c.listen_backlog,
        shown.rate_limit_per_ip == c.rate_limit_per_ip && copy.rate_limit_per_ip == c.rate_limit_per_ip,
        shown.redis_db == c.redis_db && copy.redis_db == c.redis_db,
        shown.max_idle_conns_per_host == c.max_idle_conns_per_host && copy.max_idle_conns_per_host == c.max_idle_conns_per_host,
        shown.max_conns_per_host == c.max_conns_per_host && copy.max_conns_per_host == c.max_conns_per_host,
        shown.cache_warmup_top_n == c.cache_warmup_top_n && copy.cache_warmup_top_n == c.cache_warmup_top_n,
        shown.max_fanout_projects == c.max_fanout_projects && copy.max_fanout_projects == c.max_fanout_projects,
        shown.http2_prior_knowledge == c.http2_prior_knowledge && copy.http2_prior_knowledge == c.http2_prior_knowledge,
        shown.redis_tls == c.redis_tls && copy.redis_tls == c.redis_tls,
        shown.enable_pprof == c.enable_pprof && copy.enable_pprof == c.enable_pprof,
        shown.harbor_url@ == c.harbor_url@ && copy.harbor_url@ == c.harbor_url@,
        shown.listen_addr@ == c.listen_addr@ && copy.listen_addr@ == c.listen_addr@,
        shown.metrics_addr@ == c.metrics_addr@ && copy.metrics_addr@ == c.metrics_addr@,
        shown.proxy_project@ == c.proxy_project@ && copy.proxy_project@ == c.proxy_project@,
        shown.redis_sentinels@ == c.redis_sentinels@ && copy.redis_sentinels@ == c.redis_sentinels@,
        shown.redis_master_name@ == c.redis_master_name@ && copy.redis_master_name@ == c.redis_master_name@,
        shown.redis_key_prefix@ == c.redis_key_prefix@ && copy.redis_key_prefix@ == c.redis_key_prefix@,
        shown.log_level@ == c.log_level@ && copy.log_level@ == c.log_level@,
        shown.log_format@ == c.log_format@ && copy.log_format@ == c.log_format@,
        secret::text_in(shown.harbor_username) == "[REDACTED]"@,
        secret::text_in(shown.harbor_password) == "[REDACTED]"@,
        shown.redis_password is Some && secret::text_in(shown.redis_password->0) == "[REDACTED]"@,
        secret::text_in(copy.harbor_username) == secret::text_in(c.harbor_username),
        secret::text_in(copy.harbor_password) == secret::text_in(c.harbor_password),
        copy.redis_password is Some <==> c.redis_password is Some,
        c.redis_password is Some ==> secret::text_in(copy.redis_password->0) == secret::text_in(
            c.redis_password->0,
        ),
{
}

proof fn lemma_before_concat(a: Seq<char>, t: Seq<char>, c: char)
    requires
        !a.contains(c),
    ensures
        text::before(a + t, c) == a + text::before(t, c),
{
    text::lemma_first_index(t, c);
    let k = text::first_index(t, c);
    let all = a + t;
    assert forall|j: int| 0 <= j < a.len() + k implies all[j] != c by {
        if j < a.len() {
            assert(all[j] == a[j]);
            assert(a.contains(a[j]));
        } else {
            assert(all[j] == t[j - a.len()]);
        }
    }
    if k < t.len() {
        assert(all[a.len() + k] == t[k]);
    }
    text::lemma_first_index_unique(all, c, a.len() + k);
    assert(text::before(all, c) =~= a + text::before(t, c));
}

proof fn lemma_before_front(t: Seq<char>, c: char)
    ensures
        text::before(t, c).len() <= t.len(),
        t.len() > 0 && t[0] == c ==> text::before(t, c).len() == 0,
        t.len() > 0 && t[0] != c ==> text::before(t, c).len() > 0 && text::before(t, c)[0] == t[0],
{
    text::lemma_first_index(t, c);
}

/// A URL is warned of where it is plain HTTP, unless its host is `localhost`,
/// `127.0.0.1` or `harbor-core`. The host is what stands behind the user information and
/// before the port, in what stands before the path, the query and the fragment.
pub proof fn law_plain_http_is_warned_of(
    url: &str,
    user: Seq<char>,
    host: Seq<char>,
    port: Seq<char>,
    tail: Seq<char>,
    r: bool,
)
    requires
        call_ensures(should_warn_plaintext_url, (url,), r),
        user.len() > 0 ==> user.last() == '@',
        !host.contains('@') && !host.contains(':'),
        !port.contains('@'),
        port.len() > 0 ==> port[0] == ':',
        forall|c: char| c == '/' || c == '?' || c == '#' ==> !(user + host + port).contains(c),
        tail.len() > 0 ==> tail[0] == '/' || tail[0] == '?' || tail[0] == '#',
    ensures
        url@ == "http://"@ + (user + host + port) + tail ==> r == (host != "localhost"@ && host
            != "127.0.0.1"@ && host != "harbor-core"@),
        url@.len() < "http://"@.len() || url@.take("http://"@.len() as int) != "http://"@ ==> !r,
{
    reveal_strlit("http://");
    let n = "http://"@.len() as int;
    assert(url@.len() >= n ==> url@.subrange(0, n) =~= url@.take(n));
    let authority = user + host + port;
    if url@ == "http://"@ + authority + tail {
        assert(url@.take(n) =~= "http://"@);
        assert(url@.skip(n) =~= authority + tail);
        lemma_before_concat(authority, tail, '/');
        let first = text::before(tail, '/');
        lemma_before_front(tail, '/');
        lemma_before_concat(authority, first, '?');
        let second = text::before(first, '?');
        lemma_before_front(first, '?');
        lemma_before_concat(authority, second, '#');
        let third = text::before(second, '#');
        lemma_before_front(second, '#');
        assert(third.len() == 0);
        assert(authority + third =~= authority);
        assert(config::authority_of(url@.skip(n)) == authority);
        let place = host + port;
        assert(!place.contains('@')) by {
            assert forall|i: int| 0 <= i < place.len() implies place[i] != '@' by {
                if i < host.len() {
                    assert(host.contains(host[i]));
                } else {
                    assert(port.contains(port[i - host.len()]));
                }
            }
        }
        lemma_before_concat(host, port, ':');
        lemma_before_front(port, ':');
        if port.len() == 0 {
            text::lemma_first_index(port, ':');
        }
        assert(host + text::before(port, ':') =~= host);
        if user.len() > 0 {
            config::law_user_information_is_no_host(user.drop_last(), place);
            assert(user.drop_last() + seq!['@'] + place =~= authority);
        } else {
            assert(authority =~= place);
            text::lemma_last_match(authority, seq!['@']);
            if let Some(i) = text::last_match(authority, seq!['@']) {
                assert(authority.subrange(i, i + 1)[0] == '@');
                assert(authority[i] == '@');
                assert(place.contains(place[i]));
            }
        }
        assert(config::host_of(authority) == host);
    }
}

} // verus!
