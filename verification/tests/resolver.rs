use bytes::Bytes;
use harbor_router::breaker::Breaker;
use harbor_router::cache::{CacheBackend, MokaCache};
use harbor_router::discovery::Discoverer;
use harbor_router::flights::{Flights, Role};
use harbor_router::resolver::{
    conclude, follow, look_up_project, outcome_of, select_manifest, share, FetchError, FetchStep,
    Item, Outcome, Phase, ProjectLookup, Resolution, ResolveAction, ResolveError, ResolveEvent,
    ResolveLabel, ResolveResult, Resolver, UpstreamReply, Wanted,
};
use harbor_router::secret::Secret;
use http::HeaderMap;
use std::sync::Arc;

fn resolver(max_fanout: usize) -> Resolver {
    Resolver::new("http://harbor", 5_000, 10, 30_000, false, max_fanout)
}

fn texts(names: &[&str]) -> Vec<String> {
    names.iter().map(|n| n.to_string()).collect()
}

fn answer(status: u16, body: &'static str) -> UpstreamReply {
    UpstreamReply::Answered {
        status,
        headers: HeaderMap::new(),
        body: Bytes::from(body),
    }
}

fn outcome(project: &str, status: u16) -> Outcome {
    outcome_of(project, answer(status, "{}"))
}

fn fetched(r: &Resolver, project: &str, reply: UpstreamReply) -> Outcome {
    match r.fetch_manifest(project, 0, reply) {
        FetchStep::Done(outcome) => outcome,
        FetchStep::Retry { .. } => panic!("nothing is tried again"),
    }
}

fn nginx() -> Wanted {
    Wanted::manifest("nginx", "latest")
}

fn response(project: &str, status: u16) -> Arc<ResolveResult> {
    Arc::new(outcome(project, status).ok().unwrap())
}

#[test]
fn test_cached_project_returns_none_when_empty() {
    let cache = MokaCache::build(60_000);
    assert_eq!(resolver(50).cached_project(&cache, "nginx", "latest"), None);
}

#[test]
fn test_cached_project_returns_cached_value() {
    let mut cache = MokaCache::build(60_000);
    cache.set("nginx:latest".to_string(), "dockerhub".to_string());
    assert_eq!(
        resolver(50).cached_project(&cache, "nginx", "latest"),
        Some("dockerhub".to_string())
    );
}

#[test]
fn test_cached_project_fallback_to_image_level() {
    let mut cache = MokaCache::build(60_000);
    cache.set("img:nginx".to_string(), "dockerhub".to_string());
    assert_eq!(
        resolver(50).cached_project(&cache, "nginx", "sha256:abc123"),
        Some("dockerhub".to_string())
    );
}

#[test]
fn test_fetch_manifest_success() {
    let r = resolver(50);
    let request = r.manifest_request("dockerhub", &nginx(), None, &vec![]);
    assert_eq!(
        request.url,
        "http://harbor/v2/dockerhub/nginx/manifests/latest"
    );
    assert!(request.headers.is_empty());

    let mut headers = HeaderMap::new();
    headers.insert(
        "content-type",
        "application/vnd.docker.distribution.manifest.v2+json"
            .parse()
            .unwrap(),
    );
    headers.insert("docker-content-digest", "sha256:abc123".parse().unwrap());
    let reply = UpstreamReply::Answered {
        status: 200,
        headers,
        body: Bytes::from("{\"schemaVersion\": 2}"),
    };
    let result = fetched(&r, "dockerhub", reply).ok().unwrap();

    assert_eq!(result.status, 200);
    assert_eq!(result.project, "dockerhub");
    assert!(!result.body.is_empty());
    assert_eq!(result.headers.len(), 2);
}

#[test]
fn test_fetch_manifest_not_found() {
    let r = resolver(50);
    let request = r.manifest_request(
        "dockerhub",
        &Wanted::manifest("nonexistent", "latest"),
        None,
        &vec![],
    );
    assert_eq!(
        request.url,
        "http://harbor/v2/dockerhub/nonexistent/manifests/latest"
    );
    let result = fetched(&r, "dockerhub", answer(404, "")).ok().unwrap();
    assert_eq!(result.status, 404);
}

#[test]
fn test_fetch_manifest_with_auth() {
    let r = resolver(50);
    let request = r.manifest_request(
        "dockerhub",
        &nginx(),
        Some("Bearer token123"),
        &vec![],
    );
    assert_eq!(
        request.headers,
        vec![("Authorization".to_string(), "Bearer token123".to_string())]
    );
    let result = fetched(&r, "dockerhub", answer(200, "{}")).ok().unwrap();
    assert_eq!(result.status, 200);
}

#[test]
fn test_fetch_manifest_with_accept_headers() {
    let r = resolver(50);
    let accept = texts(&["application/vnd.docker.distribution.manifest.v2+json"]);
    let request = r.manifest_request("dockerhub", &nginx(), None, &accept);
    assert_eq!(
        request.headers,
        vec![(
            "Accept".to_string(),
            "application/vnd.docker.distribution.manifest.v2+json".to_string()
        )]
    );
    let result = fetched(&r, "dockerhub", answer(200, "{}")).ok().unwrap();
    assert_eq!(result.status, 200);
}

#[test]
fn every_way_to_fail_has_its_message() {
    let r = resolver(50);
    let cause = || "reset".to_string();
    let e = fetched(&r, "quay", UpstreamReply::Unanswered { cause: cause() });
    assert_eq!(e.err().unwrap().message(), "request to quay: reset");
    let e = fetched(&r, "quay", UpstreamReply::Unread { cause: cause() });
    assert_eq!(e.err().unwrap().message(), "read body from quay: reset");
    let e = fetched(&r, "quay", UpstreamReply::TimedOut);
    assert_eq!(e.err().unwrap().message(), "timeout probing quay");
}

#[test]
fn settings_are_kept() {
    let r = Resolver::new("http://harbor", 7, 10, 30_000, true, 3);
    assert_eq!(r.harbor_url, "http://harbor");
    assert_eq!(r.timeout_ms, 7);
    assert_eq!(r.max_fanout, 3);
    assert_eq!(r.client.max_idle_per_host, 10);
    assert_eq!(r.client.idle_timeout_ms, 30_000);
    assert_eq!(r.client.keepalive_ms, 30_000);
    assert_eq!(r.client.connect_timeout_ms, 5_000);
    assert!(r.client.nodelay && r.client.http2_prior_knowledge && !r.client.follow_redirects);
    let wide = Resolver::new("h", 7, 600, 30_000, false, 3);
    assert_eq!(wide.client.max_idle_per_host, 600);
    assert_eq!(wide.client.read_timeout_ms, None);
    assert_eq!(wide.retry_max_attempts, 1);
    assert!(!wide.serve_stale);
    let set = wide.with_retries(3, 150).with_stale(60_000);
    assert_eq!(set.retry_max_attempts, 3);
    assert_eq!(set.retry_base_delay_ms, 150);
    assert!(set.serve_stale);
    assert_eq!(set.client.max_idle_per_host, 600);
    assert!(!set.with_stale(0).serve_stale);
}

#[test]
fn a_failed_request_is_sent_again_after_a_growing_delay() {
    let r = resolver(50).with_retries(4, 150);
    let unsent = || UpstreamReply::Unanswered {
        cause: "reset".to_string(),
    };
    let unread = || UpstreamReply::Unread {
        cause: "eof".to_string(),
    };
    assert!(matches!(
        r.fetch_manifest("quay", 0, unsent()),
        FetchStep::Retry { delay_ms: 150 }
    ));
    assert!(matches!(
        r.fetch_manifest("quay", 1, unread()),
        FetchStep::Retry { delay_ms: 300 }
    ));
    assert!(matches!(
        r.fetch_manifest("quay", 2, unsent()),
        FetchStep::Retry { delay_ms: 600 }
    ));
    match r.fetch_manifest("quay", 3, unsent()) {
        FetchStep::Done(Err(e)) => assert_eq!(e.message(), "request to quay: reset"),
        _ => panic!("the last attempt is the end"),
    }
    assert!(matches!(
        r.fetch_manifest("quay", 0, answer(404, "")),
        FetchStep::Done(Ok(_))
    ));
    assert!(matches!(
        r.fetch_manifest("quay", 0, UpstreamReply::TimedOut),
        FetchStep::Done(Err(FetchError::Timeout { .. }))
    ));
    let long = resolver(50).with_retries(u32::MAX, 1);
    assert!(matches!(
        long.fetch_manifest("quay", 63, unsent()),
        FetchStep::Retry { delay_ms: 9_223_372_036_854_775_808 }
    ));
    assert!(matches!(
        long.fetch_manifest("quay", 4_000_000, unsent()),
        FetchStep::Retry { delay_ms: u64::MAX }
    ));
    let none = resolver(50).with_retries(0, 1);
    assert!(matches!(
        none.fetch_manifest("quay", 0, unsent()),
        FetchStep::Done(Err(_))
    ));
}

#[test]
fn a_fan_out_asks_the_first_projects_only() {
    let projects = texts(&["dockerhub", "ghcr", "quay"]);
    let accept = texts(&["a", "b"]);
    let breaker = Breaker::new(5, 30_000);
    let all = resolver(50)
        .fan_out(&projects, &breaker, 0, &nginx(), Some("t"), &accept)
        .ok()
        .unwrap();
    assert!(all.complete);
    let names: Vec<&str> = all.requests.iter().map(|r| r.project.as_str()).collect();
    assert_eq!(names, vec!["dockerhub", "ghcr", "quay"]);
    assert_eq!(
        all.requests[1].url,
        "http://harbor/v2/ghcr/nginx/manifests/latest"
    );
    assert_eq!(
        all.requests[1].headers,
        vec![
            ("Authorization".to_string(), "t".to_string()),
            ("Accept".to_string(), "a".to_string()),
            ("Accept".to_string(), "b".to_string())
        ]
    );
    let two = resolver(2)
        .fan_out(&projects, &breaker, 0, &nginx(), None, &vec![])
        .ok()
        .unwrap();
    assert_eq!(two.requests.len(), 2);
    let none = resolver(50).fan_out(&vec![], &breaker, 0, &nginx(), None, &vec![]);
    assert_eq!(
        none.err().unwrap().message(),
        "no proxy-cache projects discovered"
    );
}

#[test]
fn a_fan_out_leaves_open_circuits_out() {
    let projects = texts(&["dockerhub", "ghcr", "quay"]);
    let mut breaker = Breaker::new(1, 1_000);
    breaker.record("dockerhub", false, 100);
    let ask = |breaker: &Breaker, now: u64| {
        let fan = resolver(2)
            .fan_out(&projects, breaker, now, &nginx(), None, &vec![])
            .ok()
            .unwrap();
        let names: Vec<String> = fan.requests.iter().map(|r| r.project.clone()).collect();
        (names, fan.complete)
    };
    assert_eq!(ask(&breaker, 100), (texts(&["ghcr", "quay"]), false));
    assert_eq!(ask(&breaker, 1_100), (texts(&["dockerhub", "ghcr"]), true));
    breaker.record("ghcr", false, 200);
    breaker.record("quay", false, 200);
    assert_eq!(ask(&breaker, 300), (vec![], false));
}

#[test]
fn a_list_of_tags_is_asked_for_by_its_url() {
    let tags = Wanted::tags("library/nginx");
    assert_eq!(tags.item, Item::Tags);
    assert_eq!(tags.key(), "library/nginx/tags/list");
    let request = resolver(50).manifest_request("quay", &tags, None, &vec![]);
    assert_eq!(
        request.url,
        "http://harbor/v2/quay/library/nginx/tags/list"
    );
    assert_eq!(nginx().key(), "nginx:latest");
}

#[test]
fn the_first_project_with_the_manifest_wins() {
    let outcomes = vec![
        outcome("dockerhub", 404),
        outcome_of("ghcr", UpstreamReply::TimedOut),
        outcome("quay", 200),
        outcome("gcr", 200),
    ];
    let r = select_manifest(outcomes, true, &nginx()).ok().unwrap();
    assert_eq!(r.project, "quay");
}

#[test]
fn without_the_manifest_the_last_error_counts() {
    let outcomes = vec![
        outcome_of("a", UpstreamReply::TimedOut),
        outcome_of("b", UpstreamReply::TimedOut),
        outcome("c", 404),
    ];
    let e = select_manifest(outcomes, true, &nginx()).err().unwrap();
    assert_eq!(
        e.message(),
        "all projects failed, last error: timeout probing b"
    );
    let e = select_manifest(vec![outcome("c", 404)], true, &nginx());
    assert_eq!(
        e.err().unwrap().message(),
        "image nginx:latest not found in any proxy-cache project"
    );
    let e = select_manifest(vec![outcome("c", 404)], true, &Wanted::tags("nginx"));
    assert_eq!(
        e.err().unwrap().message(),
        "tags of nginx not found in any proxy-cache project"
    );
    let e = select_manifest(vec![outcome("c", 404)], false, &nginx());
    assert_eq!(
        e.err().unwrap().message(),
        "image nginx:latest not found, and some proxy-cache projects were left out"
    );
}

#[test]
fn one_request_leads_and_the_others_follow() {
    let mut flights = Flights::new();
    assert!(matches!(flights.join("nginx:latest", 7), Role::Leader));
    assert!(matches!(
        flights.join("nginx:latest", 8),
        Role::Follower(7)
    ));
    assert!(matches!(flights.join("redis:7.0", 9), Role::Leader));
    assert_eq!(flights.land("nginx:latest"), vec![8]);
    assert!(matches!(flights.join("nginx:latest", 10), Role::Leader));
    assert!(matches!(flights.join("redis:7.0", 11), Role::Follower(9)));
}

#[test]
fn followers_get_what_the_leader_got() {
    let led: Result<Arc<ResolveResult>, ResolveError> = Ok(response("quay", 200));
    let followed = follow(Some(share(&led))).ok().unwrap();
    assert!(Arc::ptr_eq(&followed, led.as_ref().ok().unwrap()));

    let failed: Result<Arc<ResolveResult>, ResolveError> = Err(ResolveError::NoProjects);
    let e = follow(Some(share(&failed))).err().unwrap();
    assert_eq!(e.message(), "no proxy-cache projects discovered");

    let gone = follow(None).err().unwrap();
    assert_eq!(gone.message(), "singleflight: leader dropped channel");
}

fn looking_in(r: &Resolver) -> Resolution {
    let (resolution, action) = r.resolve_manifest(&nginx());
    match action {
        ResolveAction::Lookup { key } => assert_eq!(key, "nginx:latest"),
        _ => panic!("the cache comes first"),
    }
    resolution
}

fn looking() -> Resolution {
    looking_in(&resolver(50))
}

fn flying(from: Resolution) -> Resolution {
    let (doubting, action) = from.advance(ResolveEvent::Cached { project: None });
    assert!(matches!(action, ResolveAction::LookupMissing { key } if key == "nginx:latest"));
    let (flying, action) = doubting.advance(ResolveEvent::Doubted { missing: false });
    assert!(matches!(action, ResolveAction::Fly { key } if key == "nginx:latest"));
    flying
}

#[test]
fn a_cached_project_that_has_the_manifest_answers_alone() {
    let cached = ResolveEvent::Cached {
        project: Some("quay".to_string()),
    };
    let (fetching, action) = looking().advance(cached);
    assert!(matches!(action, ResolveAction::Fetch { project } if project == "quay"));
    let (done, action) = fetching.advance(ResolveEvent::Fetched {
        outcome: Ok(response("quay", 200)),
    });
    assert!(matches!(done.phase, Phase::Done));
    match action {
        ResolveAction::Reply {
            label,
            result,
            refresh,
        } => {
            assert_eq!(label.text(), "hit");
            assert_eq!(result.ok().unwrap().project, "quay");
            assert!(!refresh);
        }
        _ => panic!("a hit is the end"),
    }
}

#[test]
fn a_stale_entry_is_evicted_before_the_fan_out() {
    for outcome in [
        Ok(response("quay", 404)),
        Err(FetchError::Timeout {
            project: "quay".to_string(),
        }),
    ] {
        let cached = ResolveEvent::Cached {
            project: Some("quay".to_string()),
        };
        let (fetching, _) = looking().advance(cached);
        let (evicting, action) = fetching.advance(ResolveEvent::Fetched { outcome });
        assert!(matches!(action, ResolveAction::Evict { key } if key == "nginx:latest"));
        let (_, action) = evicting.advance(ResolveEvent::Evicted);
        assert!(matches!(action, ResolveAction::Fly { key } if key == "nginx:latest"));
    }
}

#[test]
fn a_fan_out_that_succeeds_is_remembered_twice() {
    let flying = flying(looking());
    assert!(!flying.accepts(&ResolveEvent::Stored));
    let flown = ResolveEvent::Flown {
        result: Ok(response("ghcr", 200)),
    };
    assert!(flying.accepts(&flown));
    let (storing, action) = flying.advance(flown);
    assert!(matches!(action, ResolveAction::Store { key, project }
        if key == "nginx:latest" && project == "ghcr"));
    let (storing, action) = storing.advance(ResolveEvent::Stored);
    assert!(matches!(action, ResolveAction::Store { key, project }
        if key == "img:nginx" && project == "ghcr"));
    let (done, action) = storing.advance(ResolveEvent::Stored);
    match action {
        ResolveAction::Reply {
            label,
            result,
            refresh,
        } => {
            assert_eq!(label, ResolveLabel::Miss);
            assert_eq!(label.text(), "miss");
            assert_eq!(result.ok().unwrap().project, "ghcr");
            assert!(!refresh);
        }
        _ => panic!("a remembered resolution is the end"),
    }
    assert!(!done.accepts(&ResolveEvent::Stored));
}

#[test]
fn a_list_of_tags_is_remembered_under_its_own_key() {
    let (looking, action) = resolver(50).resolve_manifest(&Wanted::tags("nginx"));
    assert!(matches!(action, ResolveAction::Lookup { key } if key == "nginx/tags/list"));
    let (doubting, _) = looking.advance(ResolveEvent::Cached { project: None });
    let (flying, _) = doubting.advance(ResolveEvent::Doubted { missing: false });
    let (storing, action) = flying.advance(ResolveEvent::Flown {
        result: Ok(response("ghcr", 200)),
    });
    assert!(matches!(action, ResolveAction::Store { key, project }
        if key == "nginx/tags/list" && project == "ghcr"));
    let (done, action) = storing.advance(ResolveEvent::Stored);
    assert!(matches!(done.phase, Phase::Done));
    assert!(matches!(
        action,
        ResolveAction::Reply {
            label: ResolveLabel::Miss,
            result: Ok(_),
            refresh: false
        }
    ));
}

#[test]
fn a_fan_out_that_fails_is_not_remembered() {
    let (_, action) = flying(looking()).advance(ResolveEvent::Flown {
        result: Err(ResolveError::NoProjects),
    });
    match action {
        ResolveAction::Reply { label, result, .. } => {
            assert_eq!(label.text(), "error");
            assert!(matches!(result, Err(ResolveError::NoProjects)));
        }
        _ => panic!("a failure is the end"),
    }
}

#[test]
fn a_lookup_that_finds_nothing_is_remembered_for_a_while() {
    let (storing, action) = flying(looking()).advance(ResolveEvent::Flown {
        result: Err(ResolveError::NotFound { wanted: nginx() }),
    });
    assert!(matches!(action, ResolveAction::StoreMissing { key } if key == "nginx:latest"));
    let (_, action) = storing.advance(ResolveEvent::Stored);
    assert!(matches!(
        action,
        ResolveAction::Reply {
            label: ResolveLabel::Error,
            result: Err(ResolveError::NotFound { .. }),
            refresh: false
        }
    ));

    let (doubting, _) = looking().advance(ResolveEvent::Cached { project: None });
    let (done, action) = doubting.advance(ResolveEvent::Doubted { missing: true });
    assert!(matches!(done.phase, Phase::Done));
    match action {
        ResolveAction::Reply {
            label: ResolveLabel::Error,
            result: Err(e),
            ..
        } => assert_eq!(
            e.message(),
            "image nginx:latest not found in any proxy-cache project"
        ),
        _ => panic!("a remembered failure is the end"),
    }
}

#[test]
fn an_entry_that_has_left_the_cache_is_served_and_refreshed() {
    let r = resolver(50).with_stale(60_000);
    let (reviving, action) = looking_in(&r).advance(ResolveEvent::Cached { project: None });
    assert!(matches!(action, ResolveAction::LookupStale { key } if key == "nginx:latest"));
    let (revalidating, action) = reviving.advance(ResolveEvent::Revived {
        project: Some("quay".to_string()),
    });
    assert!(matches!(action, ResolveAction::Fetch { project } if project == "quay"));
    let (storing, action) = revalidating.advance(ResolveEvent::Fetched {
        outcome: Ok(response("quay", 200)),
    });
    assert!(matches!(action, ResolveAction::Store { key, project }
        if key == "nginx:latest" && project == "quay"));
    let (storing, action) = storing.advance(ResolveEvent::Stored);
    assert!(matches!(action, ResolveAction::Store { key, .. } if key == "img:nginx"));
    let (_, action) = storing.advance(ResolveEvent::Stored);
    assert!(matches!(
        action,
        ResolveAction::Reply {
            label: ResolveLabel::Hit,
            result: Ok(_),
            refresh: true
        }
    ));
    let (_, action) = r.refresh(&nginx());
    assert!(matches!(action, ResolveAction::Fly { key } if key == "nginx:latest"));
}

#[test]
fn an_entry_that_led_nowhere_is_evicted_though_it_had_left_the_cache() {
    let r = resolver(50).with_stale(1);
    let (reviving, _) = looking_in(&r).advance(ResolveEvent::Cached { project: None });
    let (revalidating, _) = reviving.advance(ResolveEvent::Revived {
        project: Some("quay".to_string()),
    });
    let (_, action) = revalidating.advance(ResolveEvent::Fetched {
        outcome: Ok(response("quay", 404)),
    });
    assert!(matches!(action, ResolveAction::Evict { key } if key == "nginx:latest"));
    let (reviving, _) = looking_in(&r).advance(ResolveEvent::Cached { project: None });
    let (_, action) = reviving.advance(ResolveEvent::Revived { project: None });
    assert!(matches!(action, ResolveAction::LookupMissing { key } if key == "nginx:latest"));
}

#[test]
fn the_known_projects_are_those_of_the_discoverer() {
    let mut d = Discoverer::new(
        "h",
        Secret::new("u".to_string()),
        Secret::new("p".to_string()),
    );
    let _ = d.refresh(Ok(texts(&["a", "b"])));
    assert_eq!(*resolver(50).get_discovered_projects(&d), texts(&["a", "b"]));
}

#[test]
fn a_concluded_flight_makes_way_for_the_next() {
    let mut flights = Flights::new();
    assert!(matches!(flights.join("k", 1), Role::Leader));
    assert!(matches!(flights.join("k", 2), Role::Follower(1)));
    let found = outcome("quay", 200).map_err(|_| ResolveError::NoProjects);
    let (answer, handed, woken) = conclude(&mut flights, "k", found);
    assert_eq!(woken, vec![2]);
    let answer = answer.ok().unwrap();
    assert_eq!(answer.project, "quay");
    assert!(Arc::ptr_eq(&answer, &handed.unwrap_or_else(|_| response("x", 200))));
    assert!(matches!(flights.join("k", 3), Role::Leader));
    let (answer, handed, woken) = conclude(&mut flights, "k", Err(ResolveError::NoProjects));
    assert!(woken.is_empty());
    assert!(matches!(answer, Err(ResolveError::NoProjects)));
    assert_eq!(
        handed.err().unwrap(),
        "no proxy-cache projects discovered"
    );
}

#[test]
fn every_follower_is_woken_once() {
    let mut flights = Flights::new();
    assert!(matches!(flights.join("a", 0), Role::Leader));
    for ticket in 1..1_000 {
        assert!(matches!(flights.join("a", ticket), Role::Follower(0)));
    }
    assert!(matches!(flights.join("b", 1_000), Role::Leader));
    assert!(matches!(flights.join("b", 1_001), Role::Follower(1_000)));
    assert_eq!(flights.land("a"), (1..1_000).collect::<Vec<u64>>());
    assert!(flights.land("a").is_empty());
    assert!(matches!(flights.join("a", 1_002), Role::Leader));
    assert!(flights.land("a").is_empty());
    assert_eq!(flights.land("b"), vec![1_001]);
    assert!(matches!(follow(None), Err(ResolveError::LeaderGone)));
}

#[test]
fn the_exact_reference_is_looked_up_before_the_image() {
    let step = |answers: &[Option<&str>]| {
        let answers = answers.iter().map(|a| a.map(String::from)).collect();
        match look_up_project("nginx", "sha256:1", &answers) {
            ProjectLookup::Ask { key } => Err(key),
            ProjectLookup::Known { project } => Ok(project),
        }
    };
    assert_eq!(step(&[]), Err("nginx:sha256:1".to_string()));
    assert_eq!(step(&[Some("quay")]), Ok(Some("quay".to_string())));
    assert_eq!(step(&[None]), Err("img:nginx".to_string()));
    assert_eq!(step(&[None, Some("ghcr")]), Ok(Some("ghcr".to_string())));
    assert_eq!(step(&[None, None]), Ok(None));
}
