use harbor_router::discovery::{
    is_safe_project_name, Discoverer, DiscoveryError, HarborProject, PageReply, Poll, PollStep,
    WatchAction, WatchEvent, WatchPhase,
};
use harbor_router::secret::Secret;

fn discoverer() -> Discoverer {
    Discoverer::new(
        "https://harbor.example.com",
        Secret::new("robot".to_string()),
        Secret::new("pw".to_string()),
    )
}

fn project(name: &str, has_registry: bool) -> HarborProject {
    HarborProject {
        name: name.to_string(),
        registry_id: if has_registry {
            Some("1".to_string())
        } else {
            None
        },
    }
}

fn page(projects: Vec<HarborProject>) -> PageReply {
    PageReply::Answered {
        status: 200,
        body: String::new(),
        decoded: Ok(projects),
    }
}

fn answered(status: u16, body: &str) -> PageReply {
    PageReply::Answered {
        status,
        body: body.to_string(),
        decoded: Err("expected value".to_string()),
    }
}

fn failure(reply: PageReply) -> DiscoveryError {
    match Poll::begin().advance(reply) {
        PollStep::Done(Err(e)) => e,
        _ => panic!("no failure"),
    }
}

#[test]
fn pages_are_asked_for_until_one_is_not_full() {
    let d = discoverer();
    let poll = Poll::begin();
    assert_eq!(
        d.page_url(&poll),
        "https://harbor.example.com/api/v2.0/projects?page=1&page_size=100&with_detail=true"
    );
    let full: Vec<HarborProject> = (0..100)
        .map(|i| project(&format!("p{}", i), i % 50 == 0))
        .collect();
    let poll = match poll.advance(page(full)) {
        PollStep::More(next) => next,
        PollStep::Done(_) => panic!("a full page is not the last one"),
    };
    assert_eq!(poll.page, 2);
    assert_eq!(
        poll.url("h"),
        "h/api/v2.0/projects?page=2&page_size=100&with_detail=true"
    );
    let last = vec![project("library", false), project("ghcr", true)];
    match poll.advance(page(last)) {
        PollStep::Done(Ok(names)) => assert_eq!(names, vec!["p0", "p50", "ghcr"]),
        _ => panic!("the last page ends the poll"),
    }
}

#[test]
fn an_empty_list_is_the_last_page() {
    match Poll::begin().advance(page(vec![])) {
        PollStep::Done(Ok(names)) => assert!(names.is_empty()),
        _ => panic!("the last page ends the poll"),
    }
}

#[test]
fn each_failure_has_its_message() {
    let unsent = failure(PageReply::Unanswered {
        cause: "connection refused".to_string(),
    });
    assert_eq!(unsent.message(), "execute discovery request");
    assert_eq!(
        failure(answered(401, "")).message(),
        "harbor API auth failed (status 401 Unauthorized): \
         check HARBOR_USERNAME/HARBOR_PASSWORD"
    );
    assert_eq!(
        failure(answered(403, "")).message(),
        "harbor API auth failed (status 403 Forbidden): \
         check HARBOR_USERNAME/HARBOR_PASSWORD"
    );
    assert_eq!(
        failure(answered(500, "oops")).message(),
        "unexpected status 500 Internal Server Error: oops"
    );
    assert_eq!(
        failure(answered(200, "<html>")).message(),
        "unmarshal projects response"
    );
}

#[test]
fn found_projects_replace_the_known_ones_and_errors_keep_them() {
    let mut d = discoverer();
    assert!(d.get_projects().is_empty());
    assert_eq!(
        d.refresh(Ok(vec!["dockerhub".to_string(), "ghcr".to_string()])),
        Ok(2)
    );
    assert_eq!(*d.get_projects(), vec!["dockerhub", "ghcr"]);
    let e = failure(answered(503, "busy"));
    assert_eq!(
        d.refresh(Err(e)),
        Err("unexpected status 503 Service Unavailable: busy".to_string())
    );
    assert_eq!(*d.get_projects(), vec!["dockerhub", "ghcr"]);
    assert_eq!(d.refresh(Ok(vec![])), Ok(0));
    assert!(d.get_projects().is_empty());
}

#[test]
fn a_list_that_was_taken_stays_as_it_was() {
    let mut d = discoverer();
    let _ = d.refresh(Ok(vec!["dockerhub".to_string()]));
    let taken = d.get_projects();
    let _ = d.refresh(Ok(vec!["ghcr".to_string()]));
    assert_eq!(*taken, vec!["dockerhub"]);
    assert_eq!(*d.get_projects(), vec!["ghcr"]);
}

#[test]
fn projects_pass_from_one_router_to_another() {
    let mut first = discoverer();
    let names = vec!["docker\"hub".to_string(), "gh\\cr\n".to_string()];
    let _ = first.refresh(Ok(names.clone()));
    let (key, json) = first.persist();
    assert_eq!(key, "discovery:projects");
    assert_eq!(json, "[\"docker\\\"hub\",\"gh\\\\cr\\n\"]");
    let mut second = discoverer();
    assert!(second.seed(Some(json.as_str())));
    assert_eq!(*second.get_projects(), names);
}

#[test]
fn what_is_no_list_seeds_nothing() {
    let mut d = discoverer();
    let _ = d.refresh(Ok(vec!["dockerhub".to_string()]));
    assert!(!d.seed(None));
    assert!(!d.seed(Some("not json")));
    assert!(!d.seed(Some("[1,2]")));
    assert_eq!(*d.get_projects(), vec!["dockerhub"]);
    assert!(d.seed(Some("[]")));
    assert!(d.get_projects().is_empty());
}

#[test]
fn credentials_go_with_each_request() {
    assert_eq!(discoverer().credentials(), ("robot", "pw"));
}

#[test]
fn safe_names_stay_one_segment() {
    assert!(is_safe_project_name("dockerhub"));
    assert!(is_safe_project_name("my-Project_1.0"));
    assert!(is_safe_project_name("..."));
    assert!(!is_safe_project_name(""));
    assert!(!is_safe_project_name("."));
    assert!(!is_safe_project_name(".."));
    assert!(!is_safe_project_name("a/b"));
    assert!(!is_safe_project_name("a%2fb"));
    assert!(!is_safe_project_name("a?b"));
    assert!(!is_safe_project_name("proj\u{e9}t"));
}

fn asks(action: &WatchAction, page: u32) -> bool {
    let expected = format!(
        "https://harbor.example.com/api/v2.0/projects?page={}&page_size=100&with_detail=true",
        page
    );
    matches!(action, WatchAction::Ask { url } if *url == expected)
}

#[test]
fn discovery_begins_with_the_cache_and_ends_a_poll_there() {
    let mut d = discoverer();
    let (phase, action, _) = d.start(WatchPhase::Idle, WatchEvent::Started);
    assert!(matches!(action, WatchAction::Lookup { key } if key == "discovery:projects"));

    let cached = WatchEvent::Cached {
        json: Some("[\"quay\"]".to_string()),
    };
    assert!(Discoverer::accepts(&phase, &cached));
    assert!(!Discoverer::accepts(&phase, &WatchEvent::Elapsed));
    let (phase, action, report) = d.start(phase, cached);
    assert!(asks(&action, 1));
    assert!(report.is_none());
    assert_eq!(*d.get_projects(), vec!["quay"]);

    let full = (0..100).map(|i| project(&format!("p{}", i), false)).collect();
    let (phase, action, report) = d.start(phase, WatchEvent::Page { reply: page(full) });
    assert!(asks(&action, 2));
    assert!(report.is_none());
    assert_eq!(*d.get_projects(), vec!["quay"]);

    let last = vec![project("dockerhub", true), project("library", false)];
    let (phase, action, report) = d.start(phase, WatchEvent::Page { reply: page(last) });
    assert_eq!(report, Some(Ok(1)));
    assert_eq!(*d.get_projects(), vec!["dockerhub"]);
    assert!(matches!(action, WatchAction::Store { key, value }
        if key == "discovery:projects" && value == "[\"dockerhub\"]"));

    let (phase, action, _) = d.start(phase, WatchEvent::Persisted);
    assert!(matches!(action, WatchAction::Wait));
    let (_, action, _) = d.start(phase, WatchEvent::Elapsed);
    assert!(asks(&action, 1));
}

#[test]
fn a_failed_poll_keeps_the_projects_and_waits() {
    let mut d = discoverer();
    let _ = d.refresh(Ok(vec!["dockerhub".to_string()]));
    let (phase, _, _) = d.start(WatchPhase::Seeding, WatchEvent::Cached { json: None });
    let reply = answered(401, "");
    let (phase, action, report) = d.start(phase, WatchEvent::Page { reply });
    assert!(matches!(phase, WatchPhase::Waiting));
    assert!(matches!(action, WatchAction::Wait));
    assert_eq!(
        report,
        Some(Err("harbor API auth failed (status 401 Unauthorized): \
                  check HARBOR_USERNAME/HARBOR_PASSWORD"
            .to_string()))
    );
    assert_eq!(*d.get_projects(), vec!["dockerhub"]);
}

#[test]
fn a_reply_without_a_status_is_not_accepted() {
    let phase = WatchPhase::Polling(Poll::begin());
    let reply = answered(99, "");
    assert!(!Discoverer::accepts(&phase, &WatchEvent::Page { reply }));
    let reply = answered(100, "");
    assert!(Discoverer::accepts(&phase, &WatchEvent::Page { reply }));
}
