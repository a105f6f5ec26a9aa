//! The configuration, taken from environment variables and secret files.
//!
//! Durations are in milliseconds.

use vstd::prelude::*;
use vstd::string::*;

use crate::duration;
use crate::secret;
use crate::secret::Secret;
use crate::text;

verus! {

/// The environment: names and values of the variables.
pub struct Environment {
    pub vars: Vec<(String, String)>,
}

/// The value of a variable.
pub open spec fn value_of(vars: Seq<(String, String)>, key: Seq<char>) -> Option<Seq<char>>
    decreases vars.len(),
{
    if vars.len() == 0 {
        None
    } else if vars[0].0@ == key {
        Some(vars[0].1@)
    } else {
        value_of(vars.drop_first(), key)
    }
}

/// The value of a variable, or the default where it is not set.
pub open spec fn text_at(vars: Seq<(String, String)>, key: Seq<char>, default: Seq<char>) -> Seq<
    char,
> {
    match value_of(vars, key) {
        Some(value) => value,
        None => default,
    }
}

/// The milliseconds that a variable spells, or the default where it is not set,
/// empty or no duration.
pub open spec fn ms_at(vars: Seq<(String, String)>, key: Seq<char>, default: int) -> int {
    match value_of(vars, key) {
        Some(value) => match duration::duration_ms(value) {
            Some(ms) => ms,
            None => default,
        },
        None => default,
    }
}

/// The unsigned integer of at most `max` that a variable spells, or the default
/// where it is not set or no such integer.
pub open spec fn number_at(
    vars: Seq<(String, String)>,
    key: Seq<char>,
    max: nat,
    default: nat,
) -> nat {
    match value_of(vars, key) {
        Some(value) => match text::unsigned_value(value, max) {
            Some(n) => n,
            None => default,
        },
        None => default,
    }
}

/// The flag that a variable spells, or the default where it is not set or spells
/// none.
pub open spec fn flag_at(vars: Seq<(String, String)>, key: Seq<char>, default: bool) -> bool {
    match value_of(vars, key) {
        Some(value) => if value == "true"@ || value == "1"@ || value == "yes"@ {
            true
        } else if value == "false"@ || value == "0"@ || value == "no"@ {
            false
        } else {
            default
        },
        None => default,
    }
}

/// Where a secret comes from: the file that the variable `{key}_FILE` names, or
/// else the variable `key`.
pub open spec fn file_of(vars: Seq<(String, String)>, key: Seq<char>) -> Option<Seq<char>> {
    match value_of(vars, key + "_FILE"@) {
        Some(path) => if path.len() > 0 {
            Some(path)
        } else {
            None
        },
        None => None,
    }
}

/// A file that was read: its path, and its contents or why it could not be read.
pub type ReadFile = (String, Result<String, String>);

/// What a file holds.
pub open spec fn contents_of(files: Seq<ReadFile>, path: Seq<char>) -> Option<
    Result<Seq<char>, Seq<char>>,
>
    decreases files.len(),
{
    if files.len() == 0 {
        None
    } else if files[0].0@ == path {
        Some(
            match files[0].1 {
                Ok(contents) => Ok(contents@),
                Err(cause) => Err(cause@),
            },
        )
    } else {
        contents_of(files.drop_first(), path)
    }
}

/// The file that a secret comes from, if it comes from one, was read.
pub open spec fn was_read(
    vars: Seq<(String, String)>,
    files: Seq<ReadFile>,
    key: Seq<char>,
) -> bool {
    file_of(vars, key) matches Some(path) ==> contents_of(files, path) is Some
}

/// Why a configuration is refused.
pub enum Refusal {
    Unread { key: Seq<char>, path: Seq<char>, cause: Seq<char> },
    NoHarborUrl,
    NoCredentials,
    RedisDb { got: nat },
}

/// A secret: what its file holds, without the white space around it, or else the
/// value of its variable, or else nothing.
pub open spec fn secret_at(
    vars: Seq<(String, String)>,
    files: Seq<ReadFile>,
    key: Seq<char>,
) -> Result<Seq<char>, Refusal> {
    match file_of(vars, key) {
        Some(path) => match contents_of(files, path) {
            Some(Err(cause)) => Err(Refusal::Unread { key, path, cause }),
            Some(Ok(contents)) => Ok(text::trimmed(contents)),
            None => Ok(seq![]),
        },
        None => Ok(text_at(vars, key, seq![])),
    }
}

/// Why a configuration could not be loaded.
#[derive(Debug)]
pub enum ConfigError {
    /// The file of a secret could not be read.
    Unread { key: String, path: String, cause: String },
    /// The URL of Harbor is empty.
    NoHarborUrl,
    /// The user name or the password for Harbor is missing.
    NoCredentials,
    /// The number of the Redis database is too large.
    RedisDb { got: u32 },
}

impl ConfigError {
    /// What the error says.
    pub open spec fn refusal(self) -> Refusal {
        match self {
            ConfigError::Unread { key, path, cause } => Refusal::Unread {
                key: key@,
                path: path@,
                cause: cause@,
            },
            ConfigError::NoHarborUrl => Refusal::NoHarborUrl,
            ConfigError::NoCredentials => Refusal::NoCredentials,
            ConfigError::RedisDb { got } => Refusal::RedisDb { got: got as nat },
        }
    }
}

/// The message of a refusal.
pub open spec fn refusal_message(e: Refusal) -> Seq<char> {
    match e {
        Refusal::Unread { key, path, cause } => "failed to read "@ + key + " from "@ + path + ": "@
            + cause,
        Refusal::NoHarborUrl => "HARBOR_URL must be set"@,
        Refusal::NoCredentials =>
        "HARBOR_USERNAME and HARBOR_PASSWORD must be set (via env var or *_FILE pointing to Vault-injected secret)"@,
        Refusal::RedisDb { got } => "REDIS_DB must be 0-15, got "@ + text::decimal(got),
    }
}

impl ConfigError {
    /// The message for the user.
    pub fn message(&self) -> (r: String)
        ensures
            r@ == refusal_message(self.refusal()),
    {
        match self {
            ConfigError::Unread { key, path, cause } => {
                let mut r = "failed to read ".to_owned();
                r.append(key.as_str());
                r.append(" from ");
                r.append(path.as_str());
                r.append(": ");
                r.append(cause.as_str());
                r
            },
            ConfigError::NoHarborUrl => "HARBOR_URL must be set".to_owned(),
            ConfigError::NoCredentials =>
            "HARBOR_USERNAME and HARBOR_PASSWORD must be set (via env var or *_FILE pointing to Vault-injected secret)".to_owned(),
            ConfigError::RedisDb { got } => {
                let mut r = "REDIS_DB must be 0-15, got ".to_owned();
                text::push_decimal(&mut r, *got as u64);
                r
            },
        }
    }
}

impl Environment {
    /// The value of a variable.
    pub fn var(&self, key: &str) -> (r: Option<&String>)
        ensures
            match r {
                Some(value) => value_of(self.vars@, key@) == Some(value@),
                None => value_of(self.vars@, key@) is None,
            },
    {
        let mut i: usize = 0;
        assert(self.vars@.skip(0) =~= self.vars@);
        while i < self.vars.len()
            invariant
                i <= self.vars@.len(),
                value_of(self.vars@, key@) == value_of(self.vars@.skip(i as int), key@),
            decreases self.vars@.len() - i,
        {
            let ghost rest = self.vars@.skip(i as int);
            assert(rest[0] == self.vars@[i as int]);
            assert(rest.drop_first() =~= self.vars@.skip(i + 1));
            if text::same_text(self.vars[i].0.as_str(), key) {
                return Some(&self.vars[i].1);
            }
            i = i + 1;
        }
        None
    }

    /// The value of a variable, or the default where it is not set.
    pub fn env_str(&self, key: &str, default: &str) -> (r: String)
        ensures
            r@ == text_at(self.vars@, key@, default@),
    {
        match self.var(key) {
            Some(value) => value.clone(),
            None => default.to_owned(),
        }
    }

    /// The milliseconds that a variable spells, or the default where it is not
    /// set, empty or no duration.
    pub fn env_duration(&self, key: &str, default: u64) -> (r: u64)
        requires
            value_of(self.vars@, key@) matches Some(value) ==> duration::fits(value),
        ensures
            r == ms_at(self.vars@, key@, default as int),
    {
        match self.var(key) {
            Some(value) => match duration::parse_go_duration(value.as_str()) {
                Some(ms) => ms,
                None => default,
            },
            None => default,
        }
    }

    /// The integer that a variable spells, or the default where it is not set or
    /// no such integer.
    pub fn env_usize(&self, key: &str, default: usize) -> (r: usize)
        ensures
            r == number_at(self.vars@, key@, usize::MAX as nat, default as nat),
    {
        match self.var(key) {
            Some(value) => match text::parse_unsigned(value.as_str(), usize::MAX as u64) {
                Some(n) => n as usize,
                None => default,
            },
            None => default,
        }
    }

    /// The integer that a variable spells, or the default where it is not set or
    /// no such integer.
    pub fn env_u32(&self, key: &str, default: u32) -> (r: u32)
        ensures
            r == number_at(self.vars@, key@, u32::MAX as nat, default as nat),
    {
        match self.var(key) {
            Some(value) => match text::parse_unsigned(value.as_str(), u32::MAX as u64) {
                Some(n) => n as u32,
                None => default,
            },
            None => default,
        }
    }

    /// The flag that a variable spells, or the default where it is not set or
    /// spells none.
    pub fn env_bool(&self, key: &str, default: bool) -> (r: bool)
        ensures
            r == flag_at(self.vars@, key@, default),
    {
        match self.var(key) {
            Some(value) => {
                let v = value.as_str();
                if text::same_text(v, "true") || text::same_text(v, "1") || text::same_text(
                    v,
                    "yes",
                ) {
                    true
                } else if text::same_text(v, "false") || text::same_text(v, "0")
                    || text::same_text(v, "no") {
                    false
                } else {
                    default
                }
            },
            None => default,
        }
    }

    /// The file that a secret comes from, if it comes from one.
    pub fn secret_file(&self, key: &str) -> (r: Option<String>)
        ensures
            text::opt_view(r) == file_of(self.vars@, key@),
    {
        let mut file_key = key.to_owned();
        file_key.append("_FILE");
        match self.var(file_key.as_str()) {
            Some(path) => if path.as_str().is_empty() {
                None
            } else {
                Some(path.clone())
            },
            None => None,
        }
    }

    /// Whether the file that a secret comes from, if it comes from one, was read.
    pub fn has_read(&self, files: &Vec<ReadFile>, key: &str) -> (r: bool)
        ensures
            r == was_read(self.vars@, files@, key@),
    {
        let path = match self.secret_file(key) {
            None => {
                return true;
            },
            Some(path) => path,
        };
        let mut i: usize = 0;
        assert(files@.skip(0) =~= files@);
        while i < files.len()
            invariant
                i <= files@.len(),
                file_of(self.vars@, key@) == Some(path@),
                contents_of(files@, path@) == contents_of(files@.skip(i as int), path@),
            decreases files@.len() - i,
        {
            let ghost rest = files@.skip(i as int);
            assert(rest[0] == files@[i as int]);
            assert(rest.drop_first() =~= files@.skip(i + 1));
            if text::same_text(files[i].0.as_str(), path.as_str()) {
                return true;
            }
            i = i + 1;
        }
        false
    }

    /// A secret: what its file holds, without the white space around it, or else
    /// the value of its variable, or else nothing. `files` holds the file, if the
    /// secret comes from one.
    pub fn env_str_or_file(&self, files: &Vec<ReadFile>, key: &str) -> (r: Result<
        String,
        ConfigError,
    >)
        requires
            was_read(self.vars@, files@, key@),
        ensures
            match r {
                Ok(value) => secret_at(self.vars@, files@, key@) == Ok::<Seq<char>, Refusal>(
                    value@,
                ),
                Err(e) => secret_at(self.vars@, files@, key@) == Err::<Seq<char>, Refusal>(
                    e.refusal(),
                ),
            },
    {
        let path = match self.secret_file(key) {
            None => {
                let value = self.env_str(key, "");
                proof {
                    reveal_strlit("");
                    assert(""@ =~= Seq::<char>::empty());
                }
                return Ok(value);
            },
            Some(path) => path,
        };
        let mut i: usize = 0;
        assert(files@.skip(0) =~= files@);
        while i < files.len()
            invariant
                i <= files@.len(),
                file_of(self.vars@, key@) == Some(path@),
                contents_of(files@, path@) is Some,
                contents_of(files@, path@) == contents_of(files@.skip(i as int), path@),
            decreases files@.len() - i,
        {
            let ghost rest = files@.skip(i as int);
            assert(rest[0] == files@[i as int]);
            assert(rest.drop_first() =~= files@.skip(i + 1));
            if text::same_text(files[i].0.as_str(), path.as_str()) {
                return match &files[i].1 {
                    Ok(contents) => Ok(text::trim(contents.as_str())),
                    Err(cause) => Err(
                        ConfigError::Unread { key: key.to_owned(), path, cause: cause.clone() },
                    ),
                };
            }
            i = i + 1;
        }
        assert(files@.skip(files@.len() as int) =~= Seq::<ReadFile>::empty());
        Ok(String::new())
    }
}

/// Where `{key}_FILE` names a file, the value of the variable `key` does not
/// matter.
pub proof fn law_file_takes_precedence(
    vars: Seq<(String, String)>,
    other: Seq<(String, String)>,
    files: Seq<ReadFile>,
    key: Seq<char>,
)
    requires
        file_of(vars, key) is Some,
        value_of(other, key + "_FILE"@) == value_of(vars, key + "_FILE"@),
    ensures
        secret_at(other, files, key) == secret_at(vars, files, key),
{
}

/// The authority at the front of `s`: all before the path, the query or the
/// fragment.
pub open spec fn authority_of(s: Seq<char>) -> Seq<char> {
    text::before(text::before(text::before(s, '/'), '?'), '#')
}

/// The host that an authority names: what stands behind the user information, and
/// before the port.
pub open spec fn host_of(authority: Seq<char>) -> Seq<char> {
    let place = match text::last_match(authority, seq!['@']) {
        Some(i) => authority.skip(i + 1),
        None => authority,
    };
    text::before(place, ':')
}

/// `url` is plain HTTP, and not to a host that is known to be local.
pub open spec fn is_plaintext(url: Seq<char>) -> bool {
    let host = host_of(authority_of(url.skip("http://"@.len() as int)));
    text::begins_with(url, "http://"@) && host != "localhost"@ && host != "127.0.0.1"@ && host
        != "harbor-core"@
}

/// The part of `chars` before the first `c`; all of it where `c` does not occur.
fn front(chars: &Vec<char>, c: char) -> (r: Vec<char>)
    ensures
        r@ == text::before(chars@, c),
{
    let end: usize = text::find_char(chars, 0, c);
    assert(chars@.skip(0) =~= chars@);
    let r = text::chars_of(text::string_of(chars, 0, end).as_str());
    assert(r@ =~= text::before(chars@, c));
    r
}

/// Whether the URL is plain HTTP, and not to a host that is known to be local.
pub fn should_warn_plaintext_url(url: &str) -> (r: bool)
    ensures
        r == is_plaintext(url@),
{
    let chars = text::chars_of(url);
    let scheme = text::chars_of("http://");
    if !text::starts_with(&chars, &scheme) {
        return false;
    }
    let from: usize = scheme.len();
    let rest = text::chars_of(text::string_of(&chars, from, chars.len()).as_str());
    assert(rest@ =~= url@.skip(from as int));
    let authority = front(&front(&front(&rest, '/'), '?'), '#');
    let mut at: Vec<char> = Vec::new();
    at.push('@');
    assert(at@ =~= seq!['@']);
    proof {
        text::lemma_last_match(authority@, at@);
    }
    let size: usize = authority.len();
    let place: usize = match text::find_last(&authority, &at) {
        Some(i) => i + 1,
        None => 0,
    };
    let named = text::chars_of(
        text::string_of(&authority, place, size).as_str(),
    );
    assert(named@ =~= authority@.skip(place as int));
    assert(authority@.skip(0) =~= authority@);
    let host = front(&named, ':');
    let host = text::string_of(&host, 0, host.len());
    assert(host@ =~= host_of(authority@));
    !text::same_text(host.as_str(), "localhost") && !text::same_text(host.as_str(), "127.0.0.1")
        && !text::same_text(host.as_str(), "harbor-core")
}

/// The user information in a URL does not decide whether it is warned of: what
/// stands before the `@` can name a local host without the URL being local.
pub proof fn law_user_information_is_no_host(user: Seq<char>, place: Seq<char>)
    requires
        !place.contains('@'),
    ensures
        host_of(user + seq!['@'] + place) == text::before(place, ':'),
{
    let all = user + seq!['@'] + place;
    let at = user.len() as int;
    assert(all.subrange(at, at + 1) =~= seq!['@']);
    assert forall|j: int| at < j implies !text::matches_at(all, seq!['@'], j) by {
        if text::matches_at(all, seq!['@'], j) {
            assert(all.subrange(j, j + 1)[0] == '@');
            assert(place[j - at - 1] == '@');
        }
    }
    text::lemma_last_match_unique(all, seq!['@'], at);
    assert(all.skip(at + 1) =~= place);
}

/// All settings of the router. Durations are in milliseconds.
pub struct Config {
    /// Base URL of the Harbor instance.
    pub harbor_url: String,
    pub harbor_username: Secret,
    pub harbor_password: Secret,
    /// How often projects are discovered.
    pub discovery_interval: u64,
    /// How long a project may take to answer in a fan-out.
    pub resolver_timeout: u64,
    /// How long a project is remembered for an image.
    pub cache_ttl: u64,
    pub negative_cache_ttl: u64,
    pub stale_while_revalidate: u64,
    pub circuit_breaker_threshold: u32,
    pub circuit_breaker_timeout: u64,
    /// How often a request is tried; 1 for no retry.
    pub retry_max_attempts: u32,
    /// Delay before the first retry; it doubles with each further one.
    pub retry_base_delay: u64,
    pub max_idle_conns_per_host: usize,
    pub max_conns_per_host: usize,
    pub idle_conn_timeout: u64,
    pub blob_read_timeout: u64,
    /// How many images other routers can start with.
    pub cache_warmup_top_n: usize,
    pub listen_backlog: u32,
    pub listen_addr: String,
    pub metrics_addr: String,
    /// The project under which the router serves.
    pub proxy_project: String,
    /// How many projects are asked at most in a fan-out.
    pub max_fanout_projects: usize,
    pub http2_prior_knowledge: bool,
    /// Requests per address and second; 0 for no limit.
    pub rate_limit_per_ip: u32,
    /// Comma-separated Sentinel endpoints; empty for an in-memory cache.
    pub redis_sentinels: String,
    pub redis_master_name: String,
    pub redis_password: Option<Secret>,
    pub redis_db: u8,
    pub redis_key_prefix: String,
    pub redis_tls: bool,
    pub log_level: String,
    pub log_format: String,
    pub enable_pprof: bool,
}

/// The variables that spell durations do not exceed what 64 bits hold.
pub open spec fn durations_fit(vars: Seq<(String, String)>) -> bool {
    &&& fits_at(vars, "DISCOVERY_INTERVAL"@)
    &&& fits_at(vars, "RESOLVER_TIMEOUT"@)
    &&& fits_at(vars, "CACHE_TTL"@)
    &&& fits_at(vars, "NEGATIVE_CACHE_TTL"@)
    &&& fits_at(vars, "STALE_WHILE_REVALIDATE"@)
    &&& fits_at(vars, "CIRCUIT_BREAKER_TIMEOUT"@)
    &&& fits_at(vars, "RETRY_BASE_DELAY"@)
    &&& fits_at(vars, "IDLE_CONN_TIMEOUT"@)
    &&& fits_at(vars, "BLOB_READ_TIMEOUT"@)
}

/// A variable that spells a duration does not exceed what 64 bits hold.
pub open spec fn fits_at(vars: Seq<(String, String)>, key: Seq<char>) -> bool {
    value_of(vars, key) matches Some(value) ==> duration::fits(value)
}

/// The files of all secrets, as far as secrets come from files, were read.
pub open spec fn secrets_read(vars: Seq<(String, String)>, files: Seq<ReadFile>) -> bool {
    &&& was_read(vars, files, "HARBOR_USERNAME"@)
    &&& was_read(vars, files, "HARBOR_PASSWORD"@)
    &&& was_read(vars, files, "REDIS_PASSWORD"@)
}

/// Why the configuration is refused, if it is: the first that applies.
pub open spec fn refused(vars: Seq<(String, String)>, files: Seq<ReadFile>) -> Option<Refusal> {
    match secret_at(vars, files, "HARBOR_USERNAME"@) {
        Err(e) => Some(e),
        Ok(username) => match secret_at(vars, files, "HARBOR_PASSWORD"@) {
            Err(e) => Some(e),
            Ok(password) => {
                if text_at(vars, "HARBOR_URL"@, "http://harbor-core:80"@).len() == 0 {
                    Some(Refusal::NoHarborUrl)
                } else if username.len() == 0 || password.len() == 0 {
                    Some(Refusal::NoCredentials)
                } else {
                    match secret_at(vars, files, "REDIS_PASSWORD"@) {
                        Err(e) => Some(e),
                        Ok(_) => {
                            let db = number_at(vars, "REDIS_DB"@, u32::MAX as nat, 0);
                            if db > 15 {
                                Some(Refusal::RedisDb { got: db })
                            } else {
                                None
                            }
                        },
                    }
                }
            },
        },
    }
}

/// `c` holds the settings of the environment.
pub open spec fn is_config(
    c: Config,
    vars: Seq<(String, String)>,
    files: Seq<ReadFile>,
) -> bool {
    &&& c.harbor_url@ == text_at(vars, "HARBOR_URL"@, "http://harbor-core:80"@)
    &&& Ok::<Seq<char>, Refusal>(secret::text_in(c.harbor_username)) == secret_at(
        vars,
        files,
        "HARBOR_USERNAME"@,
    )
    &&& Ok::<Seq<char>, Refusal>(secret::text_in(c.harbor_password)) == secret_at(
        vars,
        files,
        "HARBOR_PASSWORD"@,
    )
    &&& c.discovery_interval == ms_at(vars, "DISCOVERY_INTERVAL"@, 60_000)
    &&& c.resolver_timeout == ms_at(vars, "RESOLVER_TIMEOUT"@, 10_000)
    &&& c.cache_ttl == ms_at(vars, "CACHE_TTL"@, 300_000)
    &&& c.negative_cache_ttl == ms_at(vars, "NEGATIVE_CACHE_TTL"@, 30_000)
    &&& c.stale_while_revalidate == ms_at(vars, "STALE_WHILE_REVALIDATE"@, 60_000)
    &&& c.circuit_breaker_threshold == number_at(
        vars,
        "CIRCUIT_BREAKER_THRESHOLD"@,
        u32::MAX as nat,
        5,
    )
    &&& c.circuit_breaker_timeout == ms_at(vars, "CIRCUIT_BREAKER_TIMEOUT"@, 30_000)
    &&& c.retry_max_attempts == number_at(vars, "RETRY_MAX_ATTEMPTS"@, u32::MAX as nat, 2)
    &&& c.retry_base_delay == ms_at(vars, "RETRY_BASE_DELAY"@, 150)
    &&& c.max_idle_conns_per_host == number_at(
        vars,
        "MAX_IDLE_CONNS_PER_HOST"@,
        usize::MAX as nat,
        512,
    )
    &&& c.max_conns_per_host == number_at(vars, "MAX_CONNS_PER_HOST"@, usize::MAX as nat, 0)
    &&& c.idle_conn_timeout == ms_at(vars, "IDLE_CONN_TIMEOUT"@, 90_000)
    &&& c.blob_read_timeout == ms_at(vars, "BLOB_READ_TIMEOUT"@, 60_000)
    &&& c.cache_warmup_top_n == number_at(vars, "CACHE_WARMUP_TOP_N"@, usize::MAX as nat, 100)
    &&& c.listen_backlog == number_at(vars, "LISTEN_BACKLOG"@, u32::MAX as nat, 8192)
    &&& c.listen_addr@ == text_at(vars, "LISTEN_ADDR"@, ":8080"@)
    &&& c.metrics_addr@ == text_at(vars, "METRICS_ADDR"@, ":9090"@)
    &&& c.proxy_project@ == text_at(vars, "PROXY_PROJECT"@, "proxy"@)
    &&& c.max_fanout_projects == number_at(vars, "MAX_FANOUT_PROJECTS"@, usize::MAX as nat, 50)
    &&& c.http2_prior_knowledge == flag_at(vars, "HTTP2_PRIOR_KNOWLEDGE"@, false)
    &&& c.rate_limit_per_ip == number_at(vars, "RATE_LIMIT_PER_IP"@, u32::MAX as nat, 0)
    &&& c.redis_sentinels@ == text_at(vars, "REDIS_SENTINELS"@, ""@)
    &&& c.redis_master_name@ == text_at(vars, "REDIS_MASTER_NAME"@, "mymaster"@)
    &&& match secret_at(vars, files, "REDIS_PASSWORD"@) {
        Ok(password) => secret::opt_text_in(c.redis_password) == (if password.len() == 0 {
            None
        } else {
            Some(password)
        }),
        Err(_) => false,
    }
    &&& c.redis_db == number_at(vars, "REDIS_DB"@, u32::MAX as nat, 0)
    &&& c.redis_key_prefix@ == text_at(vars, "REDIS_KEY_PREFIX"@, "hr"@)
    &&& c.redis_tls == flag_at(vars, "REDIS_TLS"@, false)
    &&& c.log_level@ == text_at(vars, "LOG_LEVEL"@, "info"@)
    &&& c.log_format@ == text_at(vars, "LOG_FORMAT"@, "pretty"@)
    &&& c.enable_pprof == flag_at(vars, "ENABLE_PPROF"@, false)
}

/// Two configurations differ at most in their secrets.
pub open spec fn same_settings(a: Config, b: Config) -> bool {
    &&& a.harbor_url@ == b.harbor_url@
    &&& a.discovery_interval == b.discovery_interval
    &&& a.resolver_timeout == b.resolver_timeout
    &&& a.cache_ttl == b.cache_ttl
    &&& a.negative_cache_ttl == b.negative_cache_ttl
    &&& a.stale_while_revalidate == b.stale_while_revalidate
    &&& a.circuit_breaker_threshold == b.circuit_breaker_threshold
    &&& a.circuit_breaker_timeout == b.circuit_breaker_timeout
    &&& a.retry_max_attempts == b.retry_max_attempts
    &&& a.retry_base_delay == b.retry_base_delay
    &&& a.max_idle_conns_per_host == b.max_idle_conns_per_host
    &&& a.max_conns_per_host == b.max_conns_per_host
    &&& a.idle_conn_timeout == b.idle_conn_timeout
    &&& a.blob_read_timeout == b.blob_read_timeout
    &&& a.cache_warmup_top_n == b.cache_warmup_top_n
    &&& a.listen_backlog == b.listen_backlog
    &&& a.listen_addr@ == b.listen_addr@
    &&& a.metrics_addr@ == b.metrics_addr@
    &&& a.proxy_project@ == b.proxy_project@
    &&& a.max_fanout_projects == b.max_fanout_projects
    &&& a.http2_prior_knowledge == b.http2_prior_knowledge
    &&& a.rate_limit_per_ip == b.rate_limit_per_ip
    &&& a.redis_sentinels@ == b.redis_sentinels@
    &&& a.redis_master_name@ == b.redis_master_name@
    &&& a.redis_db == b.redis_db
    &&& a.redis_key_prefix@ == b.redis_key_prefix@
    &&& a.redis_tls == b.redis_tls
    &&& a.log_level@ == b.log_level@
    &&& a.log_format@ == b.log_format@
    &&& a.enable_pprof == b.enable_pprof
}

/// Two configurations have the same secrets.
pub open spec fn same_secrets(a: Config, b: Config) -> bool {
    &&& secret::text_in(a.harbor_username) == secret::text_in(b.harbor_username)
    &&& secret::text_in(a.harbor_password) == secret::text_in(b.harbor_password)
    &&& secret::opt_text_in(a.redis_password) == secret::opt_text_in(b.redis_password)
}

/// What is shown in place of a secret.
pub open spec fn mask() -> Seq<char> {
    "[REDACTED]"@
}

/// `shown` is `c` with a mask in place of each secret.
pub open spec fn is_redaction(shown: Config, c: Config) -> bool {
    &&& same_settings(shown, c)
    &&& secret::text_in(shown.harbor_username) == mask()
    &&& secret::text_in(shown.harbor_password) == mask()
    &&& secret::opt_text_in(shown.redis_password) == Some(mask())
}

impl Config {
    /// The files that secrets come from.
    pub fn secret_files(env: &Environment) -> (paths: Vec<String>)
        ensures
            forall|key: Seq<char>, path: Seq<char>|
                (key == "HARBOR_USERNAME"@ || key == "HARBOR_PASSWORD"@ || key
                    == "REDIS_PASSWORD"@) && #[trigger] file_of(env.vars@, key) == Some(path)
                    ==> #[trigger] text::views(paths@).contains(path),
            forall|i: int|
                0 <= i < paths@.len() ==> file_of(env.vars@, "HARBOR_USERNAME"@) == Some(
                    #[trigger] paths@[i]@,
                ) || file_of(env.vars@, "HARBOR_PASSWORD"@) == Some(paths@[i]@) || file_of(
                    env.vars@,
                    "REDIS_PASSWORD"@,
                ) == Some(paths@[i]@),
    {
        let mut paths: Vec<String> = Vec::new();
        if let Some(path) = env.secret_file("HARBOR_USERNAME") {
            paths.push(path);
            assert(text::views(paths@)[0] == path@);
        }
        let ghost first = paths@;
        if let Some(path) = env.secret_file("HARBOR_PASSWORD") {
            paths.push(path);
            assert(text::views(paths@)[first.len() as int] == path@);
        }
        let ghost second = paths@;
        if let Some(path) = env.secret_file("REDIS_PASSWORD") {
            paths.push(path);
            assert(text::views(paths@)[second.len() as int] == path@);
        }
        proof {
            let all = text::views(paths@);
            if first.len() > 0 {
                assert(all[0] == first[0]@);
            }
            if second.len() > first.len() {
                assert(all[first.len() as int] == second[first.len() as int]@);
            }
        }
        paths
    }

    /// Whether the variables that spell durations do not exceed what 64 bits
    /// hold.
    pub fn durations_fit(env: &Environment) -> (r: bool)
        ensures
            r == durations_fit(env.vars@),
    {
        Self::fits_at(env, "DISCOVERY_INTERVAL") && Self::fits_at(env, "RESOLVER_TIMEOUT")
            && Self::fits_at(env, "CACHE_TTL") && Self::fits_at(env, "NEGATIVE_CACHE_TTL")
            && Self::fits_at(env, "STALE_WHILE_REVALIDATE") && Self::fits_at(
            env,
            "CIRCUIT_BREAKER_TIMEOUT",
        ) && Self::fits_at(env, "RETRY_BASE_DELAY") && Self::fits_at(env, "IDLE_CONN_TIMEOUT")
            && Self::fits_at(env, "BLOB_READ_TIMEOUT")
    }

    fn fits_at(env: &Environment, key: &str) -> (r: bool)
        ensures
            r == fits_at(env.vars@, key@),
    {
        match env.var(key) {
            Some(value) => duration::duration_fits(value.as_str()),
            None => true,
        }
    }

    /// The settings of the environment. `files` holds the files that secrets come
    /// from.
    pub fn load(env: &Environment, files: &Vec<ReadFile>) -> (r: Result<Config, ConfigError>)
        requires
            durations_fit(env.vars@),
            secrets_read(env.vars@, files@),
        ensures
            match r {
                Ok(c) => refused(env.vars@, files@) is None && is_config(c, env.vars@, files@),
                Err(e) => refused(env.vars@, files@) == Some(e.refusal()),
            },
    {
        let harbor_url = env.env_str("HARBOR_URL", "http://harbor-core:80");
        let username = match env.env_str_or_file(files, "HARBOR_USERNAME") {
            Ok(value) => value,
            Err(e) => {
                return Err(e);
            },
        };
        let password = match env.env_str_or_file(files, "HARBOR_PASSWORD") {
            Ok(value) => value,
            Err(e) => {
                return Err(e);
            },
        };
        if harbor_url.as_str().is_empty() {
            return Err(ConfigError::NoHarborUrl);
        }
        if username.as_str().is_empty() || password.as_str().is_empty() {
            return Err(ConfigError::NoCredentials);
        }
        let redis_password = match env.env_str_or_file(files, "REDIS_PASSWORD") {
            Ok(value) => if value.as_str().is_empty() {
                None
            } else {
                Some(Secret::new(value))
            },
            Err(e) => {
                return Err(e);
            },
        };
        let db: u32 = env.env_u32("REDIS_DB", 0);
        if db > 15 {
            return Err(ConfigError::RedisDb { got: db });
        }
        Ok(
            Config {
                harbor_url,
                harbor_username: Secret::new(username),
                harbor_password: Secret::new(password),
                discovery_interval: env.env_duration("DISCOVERY_INTERVAL", 60_000),
                resolver_timeout: env.env_duration("RESOLVER_TIMEOUT", 10_000),
                cache_ttl: env.env_duration("CACHE_TTL", 300_000),
                negative_cache_ttl: env.env_duration("NEGATIVE_CACHE_TTL", 30_000),
                stale_while_revalidate: env.env_duration("STALE_WHILE_REVALIDATE", 60_000),
                circuit_breaker_threshold: env.env_u32("CIRCUIT_BREAKER_THRESHOLD", 5),
                circuit_breaker_timeout: env.env_duration("CIRCUIT_BREAKER_TIMEOUT", 30_000),
                retry_max_attempts: env.env_u32("RETRY_MAX_ATTEMPTS", 2),
                retry_base_delay: env.env_duration("RETRY_BASE_DELAY", 150),
                max_idle_conns_per_host: env.env_usize("MAX_IDLE_CONNS_PER_HOST", 512),
                max_conns_per_host: env.env_usize("MAX_CONNS_PER_HOST", 0),
                idle_conn_timeout: env.env_duration("IDLE_CONN_TIMEOUT", 90_000),
                blob_read_timeout: env.env_duration("BLOB_READ_TIMEOUT", 60_000),
                cache_warmup_top_n: env.env_usize("CACHE_WARMUP_TOP_N", 100),
                listen_backlog: env.env_u32("LISTEN_BACKLOG", 8192),
                listen_addr: env.env_str("LISTEN_ADDR", ":8080"),
                metrics_addr: env.env_str("METRICS_ADDR", ":9090"),
                proxy_project: env.env_str("PROXY_PROJECT", "proxy"),
                max_fanout_projects: env.env_usize("MAX_FANOUT_PROJECTS", 50),
                http2_prior_knowledge: env.env_bool("HTTP2_PRIOR_KNOWLEDGE", false),
                rate_limit_per_ip: env.env_u32("RATE_LIMIT_PER_IP", 0),
                redis_sentinels: env.env_str("REDIS_SENTINELS", ""),
                redis_master_name: env.env_str("REDIS_MASTER_NAME", "mymaster"),
                redis_password,
                redis_db: db as u8,
                redis_key_prefix: env.env_str("REDIS_KEY_PREFIX", "hr"),
                redis_tls: env.env_bool("REDIS_TLS", false),
                log_level: env.env_str("LOG_LEVEL", "info"),
                log_format: env.env_str("LOG_FORMAT", "pretty"),
                enable_pprof: env.env_bool("ENABLE_PPROF", false),
            },
        )
    }

    /// The settings of the environment, unless a duration exceeds what 64 bits hold
    /// or the file of a secret was not read.
    pub fn checked_load(env: &Environment, files: &Vec<ReadFile>) -> (r: Option<
        Result<Config, ConfigError>,
    >)
        ensures
            r is None <==> !(durations_fit(env.vars@) && secrets_read(env.vars@, files@)),
            r matches Some(loaded) ==> (match loaded {
                Ok(c) => refused(env.vars@, files@) is None && is_config(c, env.vars@, files@),
                Err(e) => refused(env.vars@, files@) == Some(e.refusal()),
            }),
    {
        if !Self::durations_fit(env) || !env.has_read(files, "HARBOR_USERNAME") || !env.has_read(
            files,
            "HARBOR_PASSWORD",
        ) || !env.has_read(files, "REDIS_PASSWORD") {
            return None;
        }
        Some(Self::load(env, files))
    }

    /// The configuration with other secrets.
    fn with_secrets(
        &self,
        harbor_username: Secret,
        harbor_password: Secret,
        redis_password: Option<Secret>,
    ) -> (r: Config)
        ensures
            same_settings(r, *self),
            r.harbor_username == harbor_username,
            r.harbor_password == harbor_password,
            r.redis_password == redis_password,
    {
        Config {
            harbor_url: self.harbor_url.clone(),
            harbor_username,
            harbor_password,
            discovery_interval: self.discovery_interval,
            resolver_timeout: self.resolver_timeout,
            cache_ttl: self.cache_ttl,
            negative_cache_ttl: self.negative_cache_ttl,
            stale_while_revalidate: self.stale_while_revalidate,
            circuit_breaker_threshold: self.circuit_breaker_threshold,
            circuit_breaker_timeout: self.circuit_breaker_timeout,
            retry_max_attempts: self.retry_max_attempts,
            retry_base_delay: self.retry_base_delay,
            max_idle_conns_per_host: self.max_idle_conns_per_host,
            max_conns_per_host: self.max_conns_per_host,
            idle_conn_timeout: self.idle_conn_timeout,
            blob_read_timeout: self.blob_read_timeout,
            cache_warmup_top_n: self.cache_warmup_top_n,
            listen_backlog: self.listen_backlog,
            listen_addr: self.listen_addr.clone(),
            metrics_addr: self.metrics_addr.clone(),
            proxy_project: self.proxy_project.clone(),
            max_fanout_projects: self.max_fanout_projects,
            http2_prior_knowledge: self.http2_prior_knowledge,
            rate_limit_per_ip: self.rate_limit_per_ip,
            redis_sentinels: self.redis_sentinels.clone(),
            redis_master_name: self.redis_master_name.clone(),
            redis_password,
            redis_db: self.redis_db,
            redis_key_prefix: self.redis_key_prefix.clone(),
            redis_tls: self.redis_tls,
            log_level: self.log_level.clone(),
            log_format: self.log_format.clone(),
            enable_pprof: self.enable_pprof,
        }
    }

    /// The configuration as it may be shown: with a mask in place of each secret.
    pub fn redacted(&self) -> (shown: Config)
        ensures
            is_redaction(shown, *self),
    {
        self.with_secrets(
            Secret::new("[REDACTED]".to_owned()),
            Secret::new("[REDACTED]".to_owned()),
            Some(Secret::new("[REDACTED]".to_owned())),
        )
    }
}

impl Clone for Config {
    fn clone(&self) -> (r: Config)
        ensures
            same_settings(r, *self),
            same_secrets(r, *self),
    {
        let redis_password = match &self.redis_password {
            Some(password) => Some(password.clone()),
            None => None,
        };
        self.with_secrets(
            self.harbor_username.clone(),
            self.harbor_password.clone(),
            redis_password,
        )
    }
}

/// What is shown of a configuration does not depend on its secrets.
pub proof fn law_secrets_are_not_shown(a: Config, b: Config, shown_a: Config, shown_b: Config)
    requires
        same_settings(a, b),
        is_redaction(shown_a, a),
        is_redaction(shown_b, b),
    ensures
        same_settings(shown_a, shown_b),
        same_secrets(shown_a, shown_b),
{
}

} // verus!
