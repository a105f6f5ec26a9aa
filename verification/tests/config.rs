use harbor_router::config::{
    should_warn_plaintext_url, Config, ConfigError, Environment, ReadFile,
};
use harbor_router::duration::{
    checked_parse_go_duration, duration_fits, parse_go_duration, Spelled,
};
use std::time::Duration;

fn parsed(s: &str) -> Option<Duration> {
    parse_go_duration(s).map(Duration::from_millis)
}

fn env(vars: &[(&str, &str)]) -> Environment {
    Environment {
        vars: vars
            .iter()
            .map(|(k, v)| (k.to_string(), v.to_string()))
            .collect(),
    }
}

fn env_duration(e: &Environment, key: &str, default: Duration) -> Duration {
    Duration::from_millis(e.env_duration(key, default.as_millis() as u64))
}

#[test]
fn test_parse_go_duration_seconds() {
    assert_eq!(parsed("10s"), Some(Duration::from_secs(10)));
    assert_eq!(parsed("1s"), Some(Duration::from_secs(1)));
    assert_eq!(parsed("0s"), Some(Duration::from_secs(0)));
}

#[test]
fn test_parse_go_duration_minutes() {
    assert_eq!(parsed("5m"), Some(Duration::from_secs(300)));
    assert_eq!(parsed("1m"), Some(Duration::from_secs(60)));
}

#[test]
fn test_parse_go_duration_hours() {
    assert_eq!(parsed("1h"), Some(Duration::from_secs(3600)));
    assert_eq!(parsed("2h"), Some(Duration::from_secs(7200)));
}

#[test]
fn test_parse_go_duration_combined() {
    assert_eq!(parsed("1h30m"), Some(Duration::from_secs(5400)));
    assert_eq!(parsed("2h30m15s"), Some(Duration::from_secs(9015)));
    assert_eq!(parsed("1m30s"), Some(Duration::from_secs(90)));
}

#[test]
fn test_parse_go_duration_fractional() {
    assert_eq!(parsed("1.5s"), Some(Duration::from_millis(1500)));
    assert_eq!(parsed("0.5m"), Some(Duration::from_secs(30)));
}

#[test]
fn test_parse_go_duration_invalid() {
    assert_eq!(parsed("10"), None);
    assert_eq!(parsed("10x"), None);
    assert_eq!(parsed(""), None);
}

#[test]
fn test_parse_go_duration_milliseconds() {
    assert_eq!(parsed("300ms"), Some(Duration::from_millis(300)));
    assert_eq!(parsed("1ms"), Some(Duration::from_millis(1)));
    assert_eq!(parsed("0ms"), Some(Duration::from_millis(0)));
    assert_eq!(parsed("1s500ms"), Some(Duration::from_millis(1500)));
}

#[test]
fn numbers_need_a_digit_and_at_most_one_point() {
    assert_eq!(parse_go_duration(".5s"), Some(500));
    assert_eq!(parse_go_duration("5.s"), Some(5_000));
    assert_eq!(parse_go_duration(".s"), None);
    assert_eq!(parse_go_duration("1.2.3s"), None);
    assert_eq!(parse_go_duration("s"), None);
    assert_eq!(parse_go_duration("5"), None);
    assert_eq!(parse_go_duration("1s5"), None);
    assert_eq!(parse_go_duration("-1s"), None);
    assert_eq!(parse_go_duration("1 s"), None);
}

#[test]
fn what_is_left_of_a_millisecond_is_dropped() {
    assert_eq!(parse_go_duration("0.9ms"), Some(0));
    assert_eq!(parse_go_duration("1.9999s"), Some(1_999));
    assert_eq!(parse_go_duration("1.001s"), Some(1_001));
    assert_eq!(
        parse_go_duration("0.33333333333333333333333333333333333333333333h"),
        Some(1_199_999)
    );
}

#[test]
fn durations_add_up() {
    let both = parse_go_duration("2h30m1.5s").unwrap();
    assert_eq!(
        both,
        parse_go_duration("2h").unwrap() + parse_go_duration("30m1.5s").unwrap()
    );
    assert_eq!(both, 9_001_500);
}

#[test]
fn one_number_stops_at_the_limit_and_a_sum_beyond_it_does_not_fit() {
    assert_eq!(
        parse_go_duration("99999999999999999999999h"),
        Some(u64::MAX)
    );
    assert_eq!(
        parse_go_duration("18446744073709551615ms"),
        Some(18_446_744_073_709_551_615)
    );
    assert!(duration_fits("18446744073709551615ms"));
    assert!(!duration_fits("18446744073709551615ms1ms"));
    assert!(duration_fits("18446744073709551615ms1x"));
    assert!(duration_fits(""));
}

#[test]
fn test_env_str_or_file_from_env() {
    let e = env(&[("TEST_SECRET_1", "from_env")]);
    let files: Vec<ReadFile> = vec![];
    assert_eq!(
        e.env_str_or_file(&files, "TEST_SECRET_1").unwrap(),
        "from_env"
    );
}

#[test]
fn test_env_str_or_file_from_file() {
    let e = env(&[("TEST_SECRET_2_FILE", "/tmp/test_secret_file")]);
    assert_eq!(
        e.secret_file("TEST_SECRET_2"),
        Some("/tmp/test_secret_file".to_string())
    );
    let files = vec![(
        "/tmp/test_secret_file".to_string(),
        Ok("from_file_with_whitespace  \n".to_string()),
    )];
    assert_eq!(
        e.env_str_or_file(&files, "TEST_SECRET_2").unwrap(),
        "from_file_with_whitespace"
    );
}

#[test]
fn test_env_str_or_file_file_takes_precedence() {
    let e = env(&[
        ("TEST_SECRET_3", "from_env"),
        ("TEST_SECRET_3_FILE", "/tmp/test_secret_file_precedence"),
    ]);
    let files = vec![(
        "/tmp/test_secret_file_precedence".to_string(),
        Ok("from_file".to_string()),
    )];
    assert_eq!(
        e.env_str_or_file(&files, "TEST_SECRET_3").unwrap(),
        "from_file"
    );
}

#[test]
fn test_env_str_or_file_missing_file_error() {
    let e = env(&[("TEST_SECRET_4_FILE", "/nonexistent/path/to/secret")]);
    let files = vec![(
        "/nonexistent/path/to/secret".to_string(),
        Err("No such file or directory (os error 2)".to_string()),
    )];
    let result = e.env_str_or_file(&files, "TEST_SECRET_4");
    assert!(result.is_err());
    assert_eq!(
        result.unwrap_err().message(),
        "failed to read TEST_SECRET_4 from /nonexistent/path/to/secret: \
         No such file or directory (os error 2)"
    );
}

#[test]
fn test_env_str_or_file_empty_returns_empty() {
    let e = env(&[]);
    let files: Vec<ReadFile> = vec![];
    assert_eq!(e.env_str_or_file(&files, "TEST_SECRET_5").unwrap(), "");
}

#[test]
fn an_empty_file_variable_names_no_file() {
    let e = env(&[("S_FILE", ""), ("S", "direct")]);
    assert_eq!(e.secret_file("S"), None);
    assert_eq!(e.env_str_or_file(&vec![], "S").unwrap(), "direct");
}

#[test]
fn test_should_warn_plaintext_url_http_remote() {
    assert!(should_warn_plaintext_url("http://harbor.example.com"));
}

#[test]
fn test_should_warn_plaintext_url_https() {
    assert!(!should_warn_plaintext_url("https://harbor.example.com"));
}

#[test]
fn test_should_warn_plaintext_url_localhost() {
    assert!(!should_warn_plaintext_url("http://localhost:8080"));
}

#[test]
fn test_should_warn_plaintext_url_127_0_0_1() {
    assert!(!should_warn_plaintext_url("http://127.0.0.1:8080"));
}

#[test]
fn test_should_warn_plaintext_url_harbor_core() {
    assert!(!should_warn_plaintext_url("http://harbor-core:80"));
}

#[test]
fn only_the_host_counts_for_the_warning() {
    assert!(!should_warn_plaintext_url("http://localhost/path"));
    assert!(!should_warn_plaintext_url("http://harbor-core"));
    assert!(should_warn_plaintext_url("http://localhost.example.com"));
    assert!(should_warn_plaintext_url("http://"));
    assert!(!should_warn_plaintext_url("HTTP://example.com"));
    assert!(!should_warn_plaintext_url(""));
}

#[test]
fn user_information_is_no_host() {
    assert!(should_warn_plaintext_url(
        "http://localhost:pw@harbor.example.com"
    ));
    assert!(should_warn_plaintext_url("http://localhost@harbor.example.com/x"));
    assert!(!should_warn_plaintext_url("http://user:pw@localhost:8080"));
    assert!(!should_warn_plaintext_url("http://a@b@127.0.0.1/x"));
    assert!(!should_warn_plaintext_url("http://localhost?next=@example.com"));
    assert!(!should_warn_plaintext_url("http://localhost/a@example.com"));
    assert!(!should_warn_plaintext_url("http://harbor-core#@example.com"));
}

#[test]
fn test_negative_cache_ttl_default() {
    let e = env(&[]);
    let ttl = env_duration(&e, "NEGATIVE_CACHE_TTL", Duration::from_secs(30));
    assert_eq!(ttl, Duration::from_secs(30));
}

#[test]
fn test_negative_cache_ttl_custom() {
    let e = env(&[("NEGATIVE_CACHE_TTL", "15s")]);
    let ttl = env_duration(&e, "NEGATIVE_CACHE_TTL", Duration::from_secs(30));
    assert_eq!(ttl, Duration::from_secs(15));
}

#[test]
fn test_negative_cache_ttl_invalid() {
    let e = env(&[("NEGATIVE_CACHE_TTL", "invalid")]);
    let ttl = env_duration(&e, "NEGATIVE_CACHE_TTL", Duration::from_secs(30));
    assert_eq!(ttl, Duration::from_secs(30));
}

#[test]
fn test_stale_while_revalidate_default() {
    let e = env(&[]);
    let ttl = env_duration(&e, "STALE_WHILE_REVALIDATE", Duration::from_secs(60));
    assert_eq!(ttl, Duration::from_secs(60));
}

#[test]
fn test_stale_while_revalidate_custom() {
    let e = env(&[("STALE_WHILE_REVALIDATE", "2m")]);
    let ttl = env_duration(&e, "STALE_WHILE_REVALIDATE", Duration::from_secs(60));
    assert_eq!(ttl, Duration::from_secs(120));
}

#[test]
fn test_stale_while_revalidate_invalid() {
    let e = env(&[("STALE_WHILE_REVALIDATE", "bad")]);
    let ttl = env_duration(&e, "STALE_WHILE_REVALIDATE", Duration::from_secs(60));
    assert_eq!(ttl, Duration::from_secs(60));
}

#[test]
fn test_circuit_breaker_threshold_default() {
    let e = env(&[]);
    assert_eq!(e.env_u32("CIRCUIT_BREAKER_THRESHOLD", 5), 5);
}

#[test]
fn test_circuit_breaker_threshold_custom() {
    let e = env(&[("CIRCUIT_BREAKER_THRESHOLD", "10")]);
    assert_eq!(e.env_u32("CIRCUIT_BREAKER_THRESHOLD", 5), 10);
}

#[test]
fn test_circuit_breaker_threshold_invalid() {
    let e = env(&[("CIRCUIT_BREAKER_THRESHOLD", "not_a_number")]);
    assert_eq!(e.env_u32("CIRCUIT_BREAKER_THRESHOLD", 5), 5);
}

#[test]
fn test_circuit_breaker_timeout_default() {
    let e = env(&[]);
    let timeout = env_duration(&e, "CIRCUIT_BREAKER_TIMEOUT", Duration::from_secs(30));
    assert_eq!(timeout, Duration::from_secs(30));
}

#[test]
fn test_circuit_breaker_timeout_custom() {
    let e = env(&[("CIRCUIT_BREAKER_TIMEOUT", "45s")]);
    let timeout = env_duration(&e, "CIRCUIT_BREAKER_TIMEOUT", Duration::from_secs(30));
    assert_eq!(timeout, Duration::from_secs(45));
}

#[test]
fn test_circuit_breaker_timeout_invalid() {
    let e = env(&[("CIRCUIT_BREAKER_TIMEOUT", "xyz")]);
    let timeout = env_duration(&e, "CIRCUIT_BREAKER_TIMEOUT", Duration::from_secs(30));
    assert_eq!(timeout, Duration::from_secs(30));
}

#[test]
fn integers_are_read_as_rust_reads_them() {
    let e = env(&[
        ("A", "+7"),
        ("B", ""),
        ("C", "4294967296"),
        ("D", "4294967295"),
        ("E", " 1"),
        ("F", "007"),
        ("G", "+"),
    ]);
    assert_eq!(e.env_u32("A", 1), 7);
    assert_eq!(e.env_u32("B", 1), 1);
    assert_eq!(e.env_u32("C", 1), 1);
    assert_eq!(e.env_u32("D", 1), 4_294_967_295);
    assert_eq!(e.env_u32("E", 5), 5);
    assert_eq!(e.env_u32("F", 5), 7);
    assert_eq!(e.env_u32("G", 5), 5);
    assert_eq!(e.env_usize("C", 1), 4_294_967_296);
}

#[test]
fn flags_have_three_spellings_each() {
    let e = env(&[
        ("A", "true"),
        ("B", "1"),
        ("C", "yes"),
        ("D", "false"),
        ("E", "0"),
        ("F", "no"),
        ("G", "TRUE"),
        ("H", ""),
    ]);
    assert!(e.env_bool("A", false) && e.env_bool("B", false) && e.env_bool("C", false));
    assert!(!e.env_bool("D", true) && !e.env_bool("E", true) && !e.env_bool("F", true));
    assert!(e.env_bool("G", true) && !e.env_bool("G", false));
    assert!(e.env_bool("H", true) && e.env_bool("missing", true));
}

#[test]
fn a_set_but_empty_text_stays_empty() {
    let e = env(&[("A", "")]);
    assert_eq!(e.env_str("A", "default"), "");
    assert_eq!(e.env_str("B", "default"), "default");
}

const CREDENTIALS: [(&str, &str); 2] = [("HARBOR_USERNAME", "robot"), ("HARBOR_PASSWORD", "pw")];

fn load(vars: &[(&str, &str)], files: &Vec<ReadFile>) -> Result<Config, ConfigError> {
    let e = env(vars);
    assert!(Config::durations_fit(&e));
    Config::load(&e, files)
}

fn refusal(vars: &[(&str, &str)]) -> String {
    load(vars, &vec![]).err().unwrap().message()
}

#[test]
fn defaults_apply_where_nothing_is_set() {
    let c = load(&CREDENTIALS, &vec![]).ok().unwrap();
    assert_eq!(c.harbor_url, "http://harbor-core:80");
    assert_eq!(c.harbor_username.expose(), "robot");
    assert_eq!(c.harbor_password.expose(), "pw");
    assert_eq!(c.discovery_interval, 60_000);
    assert_eq!(c.resolver_timeout, 10_000);
    assert_eq!(c.cache_ttl, 300_000);
    assert_eq!(c.negative_cache_ttl, 30_000);
    assert_eq!(c.stale_while_revalidate, 60_000);
    assert_eq!(c.circuit_breaker_threshold, 5);
    assert_eq!(c.circuit_breaker_timeout, 30_000);
    assert_eq!(c.retry_max_attempts, 2);
    assert_eq!(c.retry_base_delay, 150);
    assert_eq!(c.max_idle_conns_per_host, 512);
    assert_eq!(c.max_conns_per_host, 0);
    assert_eq!(c.idle_conn_timeout, 90_000);
    assert_eq!(c.blob_read_timeout, 60_000);
    assert_eq!(c.cache_warmup_top_n, 100);
    assert_eq!(c.listen_backlog, 8192);
    assert_eq!(c.listen_addr, ":8080");
    assert_eq!(c.metrics_addr, ":9090");
    assert_eq!(c.proxy_project, "proxy");
    assert_eq!(c.max_fanout_projects, 50);
    assert!(!c.http2_prior_knowledge);
    assert_eq!(c.rate_limit_per_ip, 0);
    assert_eq!(c.redis_sentinels, "");
    assert_eq!(c.redis_master_name, "mymaster");
    assert!(c.redis_password.is_none());
    assert_eq!(c.redis_db, 0);
    assert_eq!(c.redis_key_prefix, "hr");
    assert!(!c.redis_tls);
    assert_eq!(c.log_level, "info");
    assert_eq!(c.log_format, "pretty");
    assert!(!c.enable_pprof);
}

#[test]
fn each_refusal_has_its_message() {
    assert_eq!(
        refusal(&[]),
        "HARBOR_USERNAME and HARBOR_PASSWORD must be set \
         (via env var or *_FILE pointing to Vault-injected secret)"
    );
    assert_eq!(refusal(&[("HARBOR_URL", "")]), "HARBOR_URL must be set");
    assert_eq!(
        refusal(&[CREDENTIALS[0], CREDENTIALS[1], ("REDIS_DB", "16")]),
        "REDIS_DB must be 0-15, got 16"
    );
    let c = load(
        &[CREDENTIALS[0], CREDENTIALS[1], ("REDIS_DB", "15")],
        &vec![],
    );
    assert_eq!(c.ok().unwrap().redis_db, 15);
}

#[test]
fn secrets_come_from_files_where_files_are_named() {
    let vars = [
        ("HARBOR_USERNAME_FILE", "/vault/u"),
        ("HARBOR_PASSWORD_FILE", "/vault/p"),
        ("REDIS_PASSWORD_FILE", "/vault/r"),
    ];
    assert_eq!(
        Config::secret_files(&env(&vars)),
        vec!["/vault/u", "/vault/p", "/vault/r"]
    );
    let files = vec![
        ("/vault/u".to_string(), Ok(" robot\n".to_string())),
        ("/vault/p".to_string(), Ok("pw\n".to_string())),
        ("/vault/r".to_string(), Ok("rpw".to_string())),
    ];
    let c = load(&vars, &files).ok().unwrap();
    assert_eq!(c.harbor_username.expose(), "robot");
    assert_eq!(c.harbor_password.expose(), "pw");
    assert_eq!(c.redis_password.unwrap().expose(), "rpw");

    let broken = vec![
        ("/vault/u".to_string(), Ok("robot".to_string())),
        ("/vault/p".to_string(), Ok("pw".to_string())),
        ("/vault/r".to_string(), Err("denied".to_string())),
    ];
    assert_eq!(
        load(&vars, &broken).err().unwrap().message(),
        "failed to read REDIS_PASSWORD from /vault/r: denied"
    );
}

#[test]
fn a_duration_that_does_not_fit_is_noticed() {
    let e = env(&[("CACHE_TTL", "18446744073709551615ms1ms")]);
    assert!(!Config::durations_fit(&e));
}

#[test]
fn loading_says_what_it_could_not_take() {
    assert!(matches!(
        Config::checked_load(&env(&CREDENTIALS), &vec![]),
        Some(Ok(c)) if c.cache_ttl == 300_000
    ));
    assert!(matches!(
        Config::checked_load(&env(&[]), &vec![]),
        Some(Err(ConfigError::NoCredentials))
    ));
    let long = env(&[("CACHE_TTL", "18446744073709551615ms1ms")]);
    assert!(Config::checked_load(&long, &vec![]).is_none());
    let unread = env(&[("HARBOR_PASSWORD_FILE", "/vault/p")]);
    assert!(Config::checked_load(&unread, &vec![]).is_none());
    assert!(!unread.has_read(&vec![], "HARBOR_PASSWORD"));
    assert!(unread.has_read(&vec![], "HARBOR_USERNAME"));
}

#[test]
fn every_spelling_of_a_duration_is_told_apart() {
    assert!(matches!(
        checked_parse_go_duration("1.5s"),
        Spelled::Milliseconds(1_500)
    ));
    assert!(matches!(
        checked_parse_go_duration("18446744073709551615ms1ms"),
        Spelled::TooLong
    ));
    assert!(matches!(checked_parse_go_duration("10x"), Spelled::Nothing));
    assert!(matches!(
        checked_parse_go_duration("18446744073709551615ms1x"),
        Spelled::Nothing
    ));
}

#[test]
fn a_copy_keeps_everything_and_a_redaction_hides_the_secrets() {
    let vars = [
        CREDENTIALS[0],
        CREDENTIALS[1],
        ("REDIS_PASSWORD", "rpw"),
        ("PROXY_PROJECT", "cache"),
    ];
    let c = load(&vars, &vec![]).ok().unwrap();
    let copy = c.clone();
    assert_eq!(copy.harbor_username.expose(), "robot");
    assert_eq!(copy.harbor_password.expose(), "pw");
    assert_eq!(copy.redis_password.unwrap().expose(), "rpw");
    assert_eq!(copy.proxy_project, "cache");
    let shown = c.redacted();
    assert_eq!(shown.harbor_username.expose(), "[REDACTED]");
    assert_eq!(shown.harbor_password.expose(), "[REDACTED]");
    assert_eq!(shown.redis_password.unwrap().expose(), "[REDACTED]");
    assert_eq!(shown.proxy_project, "cache");
    assert_eq!(shown.cache_ttl, c.cache_ttl);
}
