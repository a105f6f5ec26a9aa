use bytes::Bytes;
use harbor_router::headers::{
    copied, copy_headers, few_enough, header_text, header_texts, status_or, try_copied,
    try_copy_headers,
};
use harbor_router::proxy::{
    build_response, can_split, checked_handle_manifest, checked_path_remainder,
    checked_relay_blob, error_response, handle_manifest, health_status, logging_middleware,
    parse_path, parse_tags_path, path_remainder, probe_failure, probe_label, rate_limited, relay_blob,
    sanitize_log_field, v2_check, AppState, BlobReply, BlobStep, LogLevel, PathKind, Reply,
    ReplyBody, RequestType, Route,
};
use harbor_router::resolver::{Item, ResolveError, ResolveResult, Resolver};
use http::{HeaderMap, HeaderName, HeaderValue};
use std::sync::Arc;

#[test]
fn test_parse_path_manifest_simple() {
    let (image, kind, reference) = parse_path("nginx/manifests/latest").unwrap();
    assert_eq!(image, "nginx");
    assert_eq!(kind, PathKind::Manifests);
    assert_eq!(reference, "latest");
}

#[test]
fn test_parse_path_manifest_nested_image() {
    let (image, kind, reference) = parse_path("grafana/grafana/manifests/v10.0.0").unwrap();
    assert_eq!(image, "grafana/grafana");
    assert_eq!(kind, PathKind::Manifests);
    assert_eq!(reference, "v10.0.0");
}

#[test]
fn test_parse_path_manifest_deeply_nested() {
    let (image, kind, reference) =
        parse_path("library/redis/alpine/manifests/sha256:abc123").unwrap();
    assert_eq!(image, "library/redis/alpine");
    assert_eq!(kind, PathKind::Manifests);
    assert_eq!(reference, "sha256:abc123");
}

#[test]
fn test_parse_path_blob_simple() {
    let (image, kind, reference) = parse_path(
        "nginx/blobs/sha256:e3b0c44298fc1c149afbf4c8996fb92427ae41e4649b934ca495991b7852b855",
    )
    .unwrap();
    assert_eq!(image, "nginx");
    assert_eq!(kind, PathKind::Blobs);
    assert_eq!(
        reference,
        "sha256:e3b0c44298fc1c149afbf4c8996fb92427ae41e4649b934ca495991b7852b855"
    );
}

#[test]
fn test_parse_path_blob_nested_image() {
    let (image, kind, reference) = parse_path("grafana/grafana/blobs/sha256:abc123").unwrap();
    assert_eq!(image, "grafana/grafana");
    assert_eq!(kind, PathKind::Blobs);
    assert_eq!(reference, "sha256:abc123");
}

#[test]
fn test_parse_path_missing_manifests_or_blobs() {
    let result = parse_path("nginx/tags/list");
    assert!(result.is_err());
    assert!(result
        .unwrap_err()
        .message()
        .contains("/manifests/ or /blobs/"));
}

#[test]
fn test_parse_path_empty_image() {
    let result = parse_path("/manifests/latest");
    assert!(result.is_err());
    assert!(result
        .unwrap_err()
        .message()
        .contains("missing image or reference"));
}

#[test]
fn test_parse_path_empty_reference() {
    let result = parse_path("nginx/manifests/");
    assert!(result.is_err());
    assert!(result
        .unwrap_err()
        .message()
        .contains("missing image or reference"));
}

#[test]
fn test_parse_path_empty_both() {
    let result = parse_path("/manifests/");
    assert!(result.is_err());
}

#[test]
fn test_parse_path_uses_last_match() {
    let (image, kind, reference) = parse_path("my-manifests-project/manifests/v1.0.0").unwrap();
    assert_eq!(image, "my-manifests-project");
    assert_eq!(kind, PathKind::Manifests);
    assert_eq!(reference, "v1.0.0");
}

#[test]
fn manifests_come_before_blobs() {
    let (image, kind, reference) = parse_path("a/manifests/b/blobs/c").unwrap();
    assert_eq!((image, kind, reference), ("a", PathKind::Manifests, "b/blobs/c"));
    let (image, _, reference) = parse_path("a/manifests/b/manifests/c").unwrap();
    assert_eq!((image, reference), ("a/manifests/b", "c"));
    let (image, _, reference) = parse_path("\u{e9}t\u{e9}/blobs/\u{20ac}").unwrap();
    assert_eq!((image, reference), ("\u{e9}t\u{e9}", "\u{20ac}"));
}

#[test]
fn the_remainder_follows_the_project() {
    let path = "/v2/proxy/nginx/manifests/latest";
    assert!(can_split(path, "proxy"));
    assert_eq!(path_remainder(path, "proxy"), "nginx/manifests/latest");
    assert_eq!(path_remainder("/v2/proxy/", "proxy"), "/v2/proxy/");
    assert_eq!(path_remainder("/v2/", "proxy"), "/v2/");
    assert_eq!(path_remainder("/v2/\u{e9}/x", "\u{e9}"), "x");
    assert!(!can_split("/v2/\u{e9}\u{e9}\u{e9}/x", "prox"));
}

#[test]
fn a_path_that_cannot_be_split_is_noticed() {
    assert_eq!(
        checked_path_remainder("/v2/proxy/nginx/blobs/x", "proxy"),
        Some("nginx/blobs/x")
    );
    let odd = "/v2/\u{e9}\u{e9}\u{e9}/x";
    assert_eq!(checked_path_remainder(odd, "prox"), None);
    let resolver = Resolver::new("h", 1, 1, 1, false, 1);
    let s = AppState::new(resolver, "h".to_string(), "prox".to_string(), false);
    assert!(s.checked_registry_handler("GET", odd, &HeaderMap::new()).is_none());
    assert!(s
        .checked_registry_handler("GET", "/v2/prox/nginx/blobs/x", &HeaderMap::new())
        .is_some());
}

fn state() -> AppState {
    let resolver = Resolver::new("http://harbor", 5_000, 512, 90_000, false, 50);
    AppState::new(
        resolver,
        "http://harbor".to_string(),
        "proxy".to_string(),
        true,
    )
}

fn header(reply: &Reply, name: &str) -> Option<String> {
    reply
        .headers
        .get(name)
        .map(|v| v.to_str().unwrap().to_string())
}

fn is_error(reply: &Reply, status: u16, body: &str) -> bool {
    reply.status == status
        && reply.headers.len() == 1
        && header(reply, "content-type").as_deref() == Some("application/json")
        && matches!(&reply.body, ReplyBody::Text(text) if text == body)
}

#[test]
fn errors_are_reported_in_json() {
    let reply = error_response(418, "TEAPOT", "short and stout");
    assert!(is_error(
        &reply,
        418,
        "{\"errors\":[{\"code\":\"TEAPOT\",\"message\":\"short and stout\"}]}"
    ));
}

#[test]
fn the_version_check_names_the_version() {
    let reply = v2_check();
    assert_eq!(reply.status, 200);
    assert_eq!(
        header(&reply, "Docker-Distribution-API-Version").as_deref(),
        Some("registry/2.0")
    );
    assert_eq!(reply.headers.len(), 1);
    assert!(matches!(reply.body, ReplyBody::Empty));
}

#[test]
fn health_needs_a_project() {
    assert_eq!(health_status(&vec![]), 503);
    assert_eq!(health_status(&vec!["dockerhub".to_string()]), 200);
}

fn request_headers() -> HeaderMap {
    let mut headers = HeaderMap::new();
    headers.append("authorization", HeaderValue::from_static("Bearer a"));
    headers.append("authorization", HeaderValue::from_static("Bearer b"));
    headers.append("accept", HeaderValue::from_static("one"));
    headers.append("accept", HeaderValue::from_bytes(b"\xff").unwrap());
    headers.append("accept", HeaderValue::from_static("two"));
    headers
}

#[test]
fn headers_are_read_as_text() {
    let headers = request_headers();
    assert_eq!(
        header_text(&headers, "Authorization"),
        Some("Bearer a".to_string())
    );
    assert_eq!(header_texts(&headers, "Accept"), vec!["one", "two"]);
    assert_eq!(header_text(&headers, "Missing"), None);
    assert!(header_texts(&headers, "Missing").is_empty());
}

#[test]
fn requests_are_routed_by_their_path() {
    let s = state();
    match s.registry_handler("GET", "/v2/proxy/nginx/manifests/latest", &request_headers()) {
        Route::Manifest {
            image,
            reference,
            auth,
            accept,
        } => {
            assert_eq!(image, "nginx");
            assert_eq!(reference, "latest");
            assert_eq!(auth, Some("Bearer a".to_string()));
            assert_eq!(accept, vec!["one", "two"]);
        }
        _ => panic!("not a manifest"),
    }
    match s.registry_handler("GET", "/v2/proxy/a/b/blobs/sha256:1", &HeaderMap::new()) {
        Route::Blob {
            image,
            digest,
            auth,
        } => {
            assert_eq!(image, "a/b");
            assert_eq!(digest, "sha256:1");
            assert_eq!(auth, None);
        }
        _ => panic!("not a blob"),
    }
    match s.registry_handler("GET", "/v2/proxy/nginx/referrers/x", &HeaderMap::new()) {
        Route::Refused(reply) => assert!(is_error(
            &reply,
            400,
            "{\"errors\":[{\"code\":\"UNSUPPORTED\",\
             \"message\":\"path must contain /manifests/ or /blobs/\"}]}"
        )),
        _ => panic!("not refused"),
    }
}

#[test]
fn a_list_of_tags_has_its_own_route() {
    assert_eq!(parse_tags_path("nginx/tags/list"), Some("nginx"));
    assert_eq!(parse_tags_path("a/b/tags/list"), Some("a/b"));
    assert_eq!(parse_tags_path("/tags/list"), None);
    assert_eq!(parse_tags_path("nginx/tags/list/x"), None);
    assert_eq!(parse_tags_path("nginx/tags"), None);
    match state().registry_handler("GET", "/v2/proxy/a/b/tags/list", &request_headers()) {
        Route::Tags {
            image,
            auth,
            accept,
        } => {
            assert_eq!(image, "a/b");
            assert_eq!(auth, Some("Bearer a".to_string()));
            assert_eq!(accept, vec!["one", "two"]);
        }
        _ => panic!("not a list of tags"),
    }
}

#[test]
fn a_list_of_tags_is_only_read() {
    let s = state();
    for method in ["HEAD", "POST", "PUT", "DELETE", "get"] {
        match s.registry_handler(method, "/v2/proxy/nginx/tags/list", &HeaderMap::new()) {
            Route::Refused(reply) => assert!(is_error(
                &reply,
                400,
                "{\"errors\":[{\"code\":\"UNSUPPORTED\",\
                 \"message\":\"path must contain /manifests/ or /blobs/\"}]}"
            )),
            _ => panic!("not refused"),
        }
        let odd = "/v2/proxy/x/manifests/y/tags/list";
        match s.registry_handler(method, odd, &HeaderMap::new()) {
            Route::Manifest {
                image, reference, ..
            } => {
                assert_eq!(image, "x");
                assert_eq!(reference, "y/tags/list");
            }
            _ => panic!("not a manifest"),
        }
    }
    match s.registry_handler("HEAD", "/v2/proxy/nginx/manifests/latest", &HeaderMap::new()) {
        Route::Manifest { image, .. } => assert_eq!(image, "nginx"),
        _ => panic!("not a manifest"),
    }
}

#[test]
fn only_statuses_are_passed_on() {
    assert_eq!(status_or(99, 500), 500);
    assert_eq!(status_or(100, 500), 100);
    assert_eq!(status_or(999, 500), 999);
    assert_eq!(status_or(1000, 502), 502);
}

#[test]
fn the_last_value_of_a_header_is_passed_on() {
    let mut upstream = HeaderMap::new();
    upstream.append("x-a", HeaderValue::from_static("1"));
    upstream.append("x-a", HeaderValue::from_static("2"));
    upstream.append("x-b", HeaderValue::from_bytes(b"\xfe").unwrap());
    let copy = copied(&upstream);
    assert_eq!(copy.len(), 2);
    assert_eq!(copy.get("x-a").unwrap(), "2");
    assert_eq!(copy.get("x-b").unwrap().as_bytes(), b"\xfe");

    let mut kept = HeaderMap::new();
    kept.insert("x-a", HeaderValue::from_static("old"));
    kept.insert("x-c", HeaderValue::from_static("stays"));
    copy_headers(&upstream, &mut kept);
    assert_eq!(kept.get("x-a").unwrap(), "2");
    assert_eq!(kept.get("x-c").unwrap(), "stays");
}

fn found(status: u16, headers: HeaderMap) -> Result<Arc<ResolveResult>, ResolveError> {
    Ok(Arc::new(ResolveResult {
        project: "dockerhub".to_string(),
        status,
        headers,
        body: Bytes::from("{}"),
    }))
}

#[test]
fn a_manifest_is_passed_on() {
    let mut headers = HeaderMap::new();
    headers.insert("docker-content-digest", HeaderValue::from_static("sha256:1"));
    let reply = handle_manifest(Item::Manifest, &found(200, headers));
    assert_eq!(reply.status, 200);
    assert_eq!(
        header(&reply, "docker-content-digest").as_deref(),
        Some("sha256:1")
    );
    assert!(matches!(&reply.body, ReplyBody::Copied(b) if b.as_ref() == b"{}"));
    let odd = build_response(7, &HeaderMap::new(), Bytes::from("x"));
    assert_eq!(odd.status, 500);
}

#[test]
fn a_missing_manifest_is_unknown_whatever_the_reason() {
    for e in [ResolveError::NoProjects, ResolveError::LeaderGone] {
        let reply = handle_manifest(Item::Manifest, &Err(e));
        assert!(is_error(
            &reply,
            404,
            "{\"errors\":[{\"code\":\"MANIFEST_UNKNOWN\",\
             \"message\":\"requested manifest not found\"}]}"
        ));
    }
}

#[test]
fn a_missing_list_of_tags_is_an_unknown_repository() {
    let reply = handle_manifest(Item::Tags, &Err(ResolveError::NoProjects));
    assert!(is_error(
        &reply,
        404,
        "{\"errors\":[{\"code\":\"NAME_UNKNOWN\",\
         \"message\":\"requested repository not found\"}]}"
    ));
    let reply = handle_manifest(Item::Tags, &found(200, HeaderMap::new()));
    assert_eq!(reply.status, 200);
}

#[test]
fn too_many_requests_are_answered_so() {
    assert!(is_error(
        &rate_limited(),
        429,
        "{\"errors\":[{\"code\":\"TOOMANYREQUESTS\",\"message\":\"rate limit exceeded\"}]}"
    ));
}

fn many_headers(prefix: &str, count: usize) -> HeaderMap {
    let mut headers = HeaderMap::new();
    for i in 0..count {
        let name = HeaderName::from_bytes(format!("{}-{}", prefix, i).as_bytes()).unwrap();
        headers.insert(name, HeaderValue::from_static("v"));
    }
    headers
}

#[test]
fn a_name_may_have_any_number_of_values() {
    let mut headers = HeaderMap::new();
    for i in 0..10_000 {
        headers.append("x-a", HeaderValue::from(i));
    }
    assert!(few_enough(&headers));
    let copy = copied(&headers);
    assert_eq!(copy.len(), 1);
    assert_eq!(copy.get("x-a").unwrap(), "9999");
}

#[test]
fn many_headers_are_passed_on() {
    let many = many_headers("x", 20_000);
    assert!(!few_enough(&many));
    assert!(few_enough(&many_headers("x", 6_553)));
    assert_eq!(try_copied(&many).unwrap().len(), 20_000);
    let reply = checked_handle_manifest(Item::Manifest, &found(200, many)).unwrap();
    assert_eq!(reply.headers.len(), 20_000);
    assert!(checked_handle_manifest(Item::Manifest, &Err(ResolveError::NoProjects)).is_some());
    let reply = BlobReply::Answered {
        status: 200,
        headers: many_headers("x", 20_000),
    };
    assert_eq!(checked_relay_blob(&reply).unwrap().headers.len(), 20_000);
    assert!(checked_relay_blob(&BlobReply::Unanswered).is_some());
}

#[test]
fn too_many_headers_are_noticed() {
    let mut held = many_headers("y", 20_000);
    assert!(!try_copy_headers(&many_headers("x", 20_000), &mut held));
    assert_eq!(held.get("y-7").unwrap(), "v");
    assert_eq!(held.get("y-19999").unwrap(), "v");
    let mut one = HeaderMap::new();
    one.insert("x-a", HeaderValue::from_static("old"));
    let mut new = HeaderMap::new();
    new.insert("x-a", HeaderValue::from_static("new"));
    assert!(try_copy_headers(&new, &mut one));
    assert_eq!(one.get("x-a").unwrap(), "new");
}

const NOT_FOUND: &str =
    "{\"errors\":[{\"code\":\"BLOB_UNKNOWN\",\"message\":\"requested blob not found\"}]}";

#[test]
fn a_cached_project_serves_the_blob() {
    let s = state();
    let step = s.handle_blob(Some("ghcr".to_string()), &vec![], "nginx", "sha256:1", Some("t"));
    match step {
        BlobStep::Proxy(request) => {
            assert_eq!(request.project, "ghcr");
            assert_eq!(request.url, "http://harbor/v2/ghcr/nginx/blobs/sha256:1");
            assert_eq!(
                request.headers,
                vec![("Authorization".to_string(), "t".to_string())]
            );
        }
        _ => panic!("not proxied"),
    }
}

#[test]
fn an_unsafe_project_is_refused() {
    match state().proxy_blob("../admin", "nginx", "sha256:1", None) {
        BlobStep::Answer(reply) => assert!(is_error(
            &reply,
            500,
            "{\"errors\":[{\"code\":\"BLOB_UNKNOWN\",\"message\":\"internal routing error\"}]}"
        )),
        _ => panic!("not refused"),
    }
}

#[test]
fn all_projects_are_probed_where_none_is_cached() {
    let s = state();
    let projects = vec!["a".to_string(), "b".to_string()];
    match s.handle_blob(None, &projects, "nginx", "sha256:1", None) {
        BlobStep::Probe(requests) => {
            assert_eq!(requests.len(), 2);
            assert_eq!(requests[0].url, "http://harbor/v2/a/nginx/blobs/sha256:1");
            assert_eq!(requests[1].project, "b");
            assert!(requests[1].headers.is_empty());
        }
        _ => panic!("not probed"),
    }
    match s.handle_blob(None, &vec![], "nginx", "sha256:1", None) {
        BlobStep::Answer(reply) => assert!(is_error(&reply, 404, NOT_FOUND)),
        _ => panic!("not answered"),
    }
}

#[test]
fn the_first_project_with_the_blob_serves_it() {
    let s = state();
    let answers = |list: &[(&str, Option<u16>)]| -> Vec<(String, Option<u16>)> {
        list.iter().map(|(p, a)| (p.to_string(), *a)).collect()
    };
    let all = answers(&[
        ("a", Some(404)),
        ("b", None),
        ("c", Some(307)),
        ("d", Some(200)),
    ]);
    let step = s.probe_blob_project(&all, "nginx", "sha256:1", None);
    assert_eq!(probe_label(&step), "fallback");
    match step {
        BlobStep::Proxy(request) => assert_eq!(request.project, "c"),
        _ => panic!("not proxied"),
    }
    let none = answers(&[("a", Some(301)), ("b", None)]);
    let step = s.probe_blob_project(&none, "nginx", "sha256:1", None);
    assert_eq!(probe_label(&step), "error");
    match step {
        BlobStep::Answer(reply) => assert!(is_error(&reply, 404, NOT_FOUND)),
        _ => panic!("not answered"),
    }
}

#[test]
fn a_blob_is_streamed_and_a_failure_is_a_bad_gateway() {
    let mut headers = HeaderMap::new();
    headers.insert("location", HeaderValue::from_static("https://s3/x"));
    let reply = relay_blob(&BlobReply::Answered {
        status: 307,
        headers,
    });
    assert_eq!(reply.status, 307);
    assert_eq!(header(&reply, "location").as_deref(), Some("https://s3/x"));
    assert!(matches!(reply.body, ReplyBody::Streamed));
    let odd = relay_blob(&BlobReply::Answered {
        status: 1,
        headers: HeaderMap::new(),
    });
    assert_eq!(odd.status, 502);
    assert!(is_error(
        &relay_blob(&BlobReply::Unanswered),
        502,
        "{\"errors\":[{\"code\":\"BLOB_UNKNOWN\",\"message\":\"upstream error\"}]}"
    ));
}

#[test]
fn the_blob_client_has_fixed_settings() {
    let c = state().blob_client;
    assert_eq!(c.max_idle_per_host, 256);
    assert_eq!(c.idle_timeout_ms, 90_000);
    assert_eq!(c.keepalive_ms, 30_000);
    assert_eq!(c.connect_timeout_ms, 5_000);
    assert!(c.nodelay && c.http2_prior_knowledge && !c.follow_redirects);
    assert_eq!(c.read_timeout_ms, None);
    let timed = state().with_blob_read_timeout(60_000);
    assert_eq!(timed.blob_client.read_timeout_ms, Some(60_000));
    assert_eq!(timed.blob_client.max_idle_per_host, 256);
    assert_eq!(timed.proxy_project, "proxy");
}

#[test]
fn logged_fields_stay_on_one_line() {
    assert_eq!(
        sanitize_log_field("a\nb\rc\td\u{7f}e\u{85}f g\u{e9}"),
        "a b c d e f g\u{e9}"
    );
    let long = "x".repeat(600);
    assert_eq!(sanitize_log_field(&long), "x".repeat(512));
    assert_eq!(sanitize_log_field(&"x".repeat(512)), "x".repeat(512));
    let split = "x".repeat(511) + "\u{e9}\u{e9}";
    assert_eq!(sanitize_log_field(&split), "x".repeat(511));
    let wide = "\u{20ac}".repeat(200);
    assert_eq!(sanitize_log_field(&wide), "\u{20ac}".repeat(170));
    assert_eq!(logging_middleware(&wide, 404).path, "\u{20ac}".repeat(170));
}

#[test]
fn the_access_log_classifies_requests() {
    let entry = |path: &str, status: u16| {
        let e = logging_middleware(path, status);
        (e.req_type.text(), e.status_class, e.level)
    };
    assert_eq!(
        entry("/v2/proxy/nginx/manifests/latest", 200),
        ("manifest", "2xx", LogLevel::Info)
    );
    assert_eq!(
        entry("/v2/proxy/nginx/blobs/x", 307),
        ("blob", "3xx", LogLevel::Debug)
    );
    assert_eq!(entry("/v2/", 200), ("v2check", "2xx", LogLevel::Debug));
    assert_eq!(entry("/v2", 200), ("v2check", "2xx", LogLevel::Debug));
    assert_eq!(entry("/healthz", 503), ("health", "5xx", LogLevel::Warn));
    assert_eq!(entry("/readyz", 200), ("health", "2xx", LogLevel::Debug));
    assert_eq!(entry("/other", 404), ("other", "4xx", LogLevel::Warn));
    assert_eq!(entry("/other", 101), ("other", "5xx", LogLevel::Info));
    let e = logging_middleware("/v2/proxy/a\nb/blobs/x", 400);
    assert_eq!(e.path, "/v2/proxy/a b/blobs/x");
    assert_eq!(e.req_type, RequestType::Blob);
    assert_eq!(e.level, LogLevel::Warn);
}

#[test]
fn the_log_says_why_a_blob_was_not_found() {
    assert_eq!(
        probe_failure(0, "nginx", "sha256:1"),
        "no proxy-cache projects discovered"
    );
    assert_eq!(
        probe_failure(3, "nginx", "sha256:1"),
        "blob nginx/sha256:1 not found in any project"
    );
}
