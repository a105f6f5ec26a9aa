//! Discovering the proxy-cache projects.

use vstd::prelude::*;

use crate::discovery;
use crate::discovery::{
    is_safe_project_name, Discoverer, DiscoveryError, HarborProject, PageReply, Poll, PollStep,
    Report, WatchAction, WatchEvent, WatchPhase,
};
use crate::headers;
use crate::secret;
use crate::secret::Secret;
use crate::text;

verus! {

/// `name` is one segment of a path: made of letters, digits, `-`, `_` and `.`, and
/// neither empty nor `.` nor `..`.
pub open spec fn one_segment(name: Seq<char>) -> bool {
    &&& name.len() > 0
    &&& forall|i: int|
        0 <= i < name.len() ==> {
            let c = #[trigger] name[i];
            ||| 'a' <= c <= 'z'
            ||| 'A' <= c <= 'Z'
            ||| '0' <= c <= '9'
            ||| c == '-' || c == '_' || c == '.'
        }
    &&& name != "."@
    &&& name != ".."@
}

pub proof fn lemma_one_segment(name: Seq<char>)
    ensures
        discovery::safe_name(name) == one_segment(name),
{
    reveal_strlit(".");
    reveal_strlit("..");
    assert("."@ =~= seq!['.']);
    assert(".."@ =~= seq!['.', '.']);
    if one_segment(name) {
        assert forall|i: int| 0 <= i < name.len() implies discovery::name_char(
            #[trigger] name[i],
        ) by {}
    }
    if discovery::safe_name(name) {
        assert forall|i: int| 0 <= i < name.len() implies ({
            let c = #[trigger] name[i];
            ||| 'a' <= c <= 'z'
            ||| 'A' <= c <= 'Z'
            ||| '0' <= c <= '9'
            ||| c == '-' || c == '_' || c == '.'
        }) by {
            assert(discovery::name_char(name[i]));
        }
    }
}

/// The project names that can go into a URL are those that are one segment of a path.
pub proof fn law_safe_names_are_one_segment(name: &str, r: bool)
    requires
        call_ensures(is_safe_project_name, (name,), r),
    ensures
        r == one_segment(name@),
{
    lemma_one_segment(name@);
}

/// A poll begins with the first page and without names. Each page is asked for by its
/// number, a hundred projects at a time.
pub proof fn law_pages_are_asked_for_by_number(
    first: Poll,
    poll: Poll,
    harbor_url: &str,
    url: String,
    discoverer: Discoverer,
    own: String,
    start: String,
    numbered: String,
)
    requires
        call_ensures(Poll::begin, (), first),
        call_ensures(Poll::url, (&poll, harbor_url), url),
        call_ensures(Discoverer::page_url, (&discoverer, &poll), own),
        start@ == harbor_url@ + "/api/v2.0/projects?page="@,
        exists|s: &mut String|
            *s == start && *final(s) == numbered && #[trigger] call_ensures(
                text::push_decimal,
                (s, poll.page as u64),
                (),
            ),
    ensures
        first.page == 1,
        first.names@.len() == 0,
        url@ == numbered@ + "&page_size=100&with_detail=true"@,
        discoverer.base_url() == harbor_url@ ==> own@ == url@,
{
    reveal_with_fuel(text::decimal, 3);
    reveal_strlit("&page_size=");
    reveal_strlit("&with_detail=true");
    reveal_strlit("&page_size=100&with_detail=true");
    assert(text::decimal(100) =~= seq!['1', '0', '0']);
    assert("&page_size="@ + text::decimal(100) + "&with_detail=true"@
        =~= "&page_size=100&with_detail=true"@);
    assert(url@ =~= numbered@ + ("&page_size="@ + text::decimal(100) + "&with_detail=true"@));
}

/// `names` are those of the projects on the page that have an upstream registry, in
/// order, and none is missing.
pub open spec fn are_the_caches(names: Seq<Seq<char>>, page: Seq<HarborProject>) -> bool
    decreases page.len(),
{
    if page.len() == 0 {
        names.len() == 0
    } else if page.last().registry_id is Some {
        names.len() > 0 && names.last() == page.last().name@ && are_the_caches(
            names.drop_last(),
            page.drop_last(),
        )
    } else {
        are_the_caches(names, page.drop_last())
    }
}

proof fn lemma_are_the_caches(page: Seq<HarborProject>)
    ensures
        are_the_caches(discovery::cache_names(page), page),
    decreases page.len(),
{
    if page.len() > 0 {
        lemma_are_the_caches(page.drop_last());
        if page.last().registry_id is Some {
            assert(discovery::cache_names(page).drop_last() =~= discovery::cache_names(
                page.drop_last(),
            ));
        }
    }
}

/// A page that was answered with success adds the projects on it that have an upstream
/// registry. After a full page, of a hundred projects, the next one is asked for; a page
/// with fewer ends the poll.
pub proof fn law_pages_add_their_caches(
    poll: Poll,
    status: u16,
    body: String,
    projects: Vec<HarborProject>,
    step: PollStep,
) -> (added: Seq<Seq<char>>)
    requires
        200 <= status <= 299,
        call_ensures(
            Poll::advance,
            (poll, (PageReply::Answered { status, body, decoded: Ok(projects) })),
            step,
        ),
    ensures
        are_the_caches(added, projects@),
        projects@.len() < 100 ==> (step matches PollStep::Done(Ok(all)) && text::views(all@)
            == text::views(poll.names@) + added),
        projects@.len() >= 100 ==> (step matches PollStep::More(next) && next.page == poll.page + 1
            && text::views(next.names@) == text::views(poll.names@) + added),
{
    lemma_are_the_caches(projects@);
    discovery::cache_names(projects@)
}

/// A page that was not answered, or not with success, or with something else than a list
/// of projects, ends the poll with an error that says which it was. 401 and 403 say that
/// the credentials were refused.
pub proof fn law_failed_pages_end_the_poll(
    poll: Poll,
    cause: String,
    status: u16,
    body: String,
    decoded: Result<Vec<HarborProject>, String>,
    unanswered: PollStep,
    answered: PollStep,
)
    requires
        call_ensures(Poll::advance, (poll, (PageReply::Unanswered { cause })), unanswered),
        call_ensures(
            Poll::advance,
            (poll, (PageReply::Answered { status, body, decoded })),
            answered,
        ),
    ensures
        unanswered == PollStep::Done(Err(DiscoveryError::Request { cause })),
        status == 401 || status == 403 ==> answered == PollStep::Done(
            Err(DiscoveryError::Auth { status }),
        ),
        (status < 200 || status >= 300) && status != 401 && status != 403 ==> answered
            == PollStep::Done(Err(DiscoveryError::Unexpected { status, body })),
        200 <= status <= 299 && decoded is Err ==> answered == PollStep::Done(
            Err(DiscoveryError::Decode { cause: decoded->Err_0 }),
        ),
{
}

/// The messages of failed polls.
pub proof fn law_failed_polls_have_their_messages(e: DiscoveryError, r: String)
    requires
        call_ensures(DiscoveryError::message, (&e,), r),
    ensures
        match e {
            DiscoveryError::Request { .. } => r@ == "execute discovery request"@,
            DiscoveryError::Auth { status } => r@ == "harbor API auth failed (status "@
                + headers::status_line(status)
                + "): check HARBOR_USERNAME/HARBOR_PASSWORD"@,
            DiscoveryError::Unexpected { status, body } => r@ == "unexpected status "@
                + headers::status_line(status) + ": "@ + body@,
            DiscoveryError::Decode { .. } => r@ == "unmarshal projects response"@,
        },
{
}

/// A new discoverer has its URL and its credentials, and knows no projects.
pub proof fn law_discoverer_keeps_its_credentials(
    harbor_url: &str,
    username: Secret,
    password: Secret,
    discoverer: Discoverer,
    login: (&str, &str),
    projects: std::sync::Arc<Vec<String>>,
)
    requires
        call_ensures(Discoverer::new, (harbor_url, username, password), discoverer),
        call_ensures(Discoverer::credentials, (&discoverer,), login),
        call_ensures(Discoverer::get_projects, (&discoverer,), projects),
    ensures
        discoverer.base_url() == harbor_url@,
        login.0@ == secret::text_in(username),
        login.1@ == secret::text_in(password),
        (*projects)@.len() == 0,
{
    assert(text::views((*projects)@).len() == (*projects)@.len());
}

/// What a poll found replaces what was known, and a poll that failed changes nothing.
/// The URL and the credentials stay.
pub proof fn law_only_a_found_list_replaces_the_projects(
    before: Discoverer,
    found: Vec<String>,
    refreshed: Discoverer,
    count: Result<usize, String>,
    e: DiscoveryError,
    failed: Discoverer,
    said: Result<usize, String>,
    message: String,
)
    requires
        exists|d: &mut Discoverer|
            *d == before && *final(d) == refreshed && #[trigger] call_ensures(
                Discoverer::refresh,
                (d, Ok(found)),
                count,
            ),
        exists|d: &mut Discoverer|
            *d == before && *final(d) == failed && #[trigger] call_ensures(
                Discoverer::refresh,
                (d, Err(e)),
                said,
            ),
        call_ensures(DiscoveryError::message, (&e,), message),
    ensures
        refreshed.known() == text::views(found@),
        count matches Ok(n) && n == found@.len(),
        failed.known() == before.known(),
        said matches Err(m) && m@ == message@,
        refreshed.base_url() == before.base_url() && failed.base_url() == before.base_url(),
        refreshed.login() == before.login() && failed.login() == before.login(),
{
    assert(found.len() == found@.len());
}

/// What one router hands to the cache, under `discovery:projects`, is what another one
/// takes over from it. What is no list, or nothing, is not taken over.
pub proof fn law_projects_are_taken_over(
    writer: Discoverer,
    entry: (String, String),
    before: Discoverer,
    json: &str,
    seeded: Discoverer,
    taken: bool,
    text_in_cache: Option<&str>,
    after: Discoverer,
    took: bool,
)
    requires
        call_ensures(Discoverer::persist, (&writer,), entry),
        json@ == entry.1@,
        exists|d: &mut Discoverer|
            *d == before && *final(d) == seeded && #[trigger] call_ensures(
                Discoverer::seed,
                (d, Some(json)),
                taken,
            ),
        exists|d: &mut Discoverer|
            *d == before && *final(d) == after && #[trigger] call_ensures(
                Discoverer::seed,
                (d, text_in_cache),
                took,
            ),
    ensures
        entry.0@ == "discovery:projects"@,
        taken,
        seeded.known() == writer.known(),
        text_in_cache is None ==> !took,
        text_in_cache matches Some(t) ==> (took <==> discovery::names_in(t@) is Some),
        took ==> Some(after.known()) == discovery::names_in(text_in_cache->0@),
        !took ==> after.known() == before.known(),
        seeded.base_url() == before.base_url() && seeded.login() == before.login(),
        after.base_url() == before.base_url() && after.login() == before.login(),
{
}

/// The discovery begins by asking the cache, takes over what it holds, and then polls
/// from the first page on. When the cache has taken the projects, it waits, and polls
/// anew when the time has come.
pub proof fn law_discovery_goes_from_cache_to_polls(
    before: Discoverer,
    first: String,
    started: Discoverer,
    begun: (WatchPhase, WatchAction, Report),
    json: Option<String>,
    seeded: Discoverer,
    polling: (WatchPhase, WatchAction, Report),
    persisted: Discoverer,
    waiting: (WatchPhase, WatchAction, Report),
    elapsed: Discoverer,
    again: (WatchPhase, WatchAction, Report),
    poll: Poll,
)
    requires
        call_ensures(Poll::begin, (), poll),
        call_ensures(Discoverer::page_url, (&before, &poll), first),
        exists|d: &mut Discoverer|
            *d == before && *final(d) == started && #[trigger] call_ensures(
                Discoverer::start,
                (d, WatchPhase::Idle, WatchEvent::Started),
                begun,
            ),
        exists|d: &mut Discoverer|
            *d == before && *final(d) == seeded && #[trigger] call_ensures(
                Discoverer::start,
                (d, WatchPhase::Seeding, (WatchEvent::Cached { json })),
                polling,
            ),
        exists|d: &mut Discoverer|
            *d == before && *final(d) == persisted && #[trigger] call_ensures(
                Discoverer::start,
                (d, WatchPhase::Persisting, WatchEvent::Persisted),
                waiting,
            ),
        exists|d: &mut Discoverer|
            *d == before && *final(d) == elapsed && #[trigger] call_ensures(
                Discoverer::start,
                (d, WatchPhase::Waiting, WatchEvent::Elapsed),
                again,
            ),
    ensures
        begun.0 is Seeding,
        begun.1 matches WatchAction::Lookup { key } && key@ == "discovery:projects"@,
        polling.0 matches WatchPhase::Polling(p) && p.page == 1 && p.names@.len() == 0,
        polling.1 matches WatchAction::Ask { url } && url@ == first@,
        json is None ==> seeded.known() == before.known(),
        json matches Some(t) ==> seeded.known() == (match discovery::names_in(t@) {
            Some(names) => names,
            None => before.known(),
        }),
        waiting.0 is Waiting && waiting.1 is Wait,
        again.0 matches WatchPhase::Polling(p) && p.page == 1 && p.names@.len() == 0,
        again.1 matches WatchAction::Ask { url } && url@ == first@,
        begun.2 is None && polling.2 is None && waiting.2 is None && again.2 is None,
        started.known() == before.known() && persisted.known() == before.known() && elapsed.known()
            == before.known(),
        started.base_url() == before.base_url() && started.login() == before.login(),
        seeded.base_url() == before.base_url() && seeded.login() == before.login(),
        persisted.base_url() == before.base_url() && persisted.login() == before.login(),
        elapsed.base_url() == before.base_url() && elapsed.login() == before.login(),
{
}

/// While it polls, the discovery asks for page after page. When the last page has come
/// it knows what was found, hands that to the cache and reports how many there are.
pub proof fn law_discovery_takes_in_each_page(
    before: Discoverer,
    poll: Poll,
    status: u16,
    body: String,
    projects: Vec<HarborProject>,
    after: Discoverer,
    r: (WatchPhase, WatchAction, Report),
    more: Poll,
    more_url: String,
) -> (added: Seq<Seq<char>>)
    requires
        200 <= status <= 299,
        exists|d: &mut Discoverer|
            *d == before && *final(d) == after && #[trigger] call_ensures(
                Discoverer::start,
                (
                    d,
                    WatchPhase::Polling(poll),
                    (WatchEvent::Page {
                        reply: PageReply::Answered { status, body, decoded: Ok(projects) },
                    }),
                ),
                r,
            ),
        r.0 is Polling ==> more == r.0->Polling_0 && call_ensures(
            Discoverer::page_url,
            (&before, &more),
            more_url,
        ),
    ensures
        are_the_caches(added, projects@),
        projects@.len() >= 100 ==> {
            &&& r.0 == WatchPhase::Polling(more)
            &&& more.page == poll.page + 1
            &&& text::views(more.names@) == text::views(poll.names@) + added
            &&& r.1 matches WatchAction::Ask { url } && url@ == more_url@
            &&& r.2 is None
            &&& after.known() == before.known()
        },
        projects@.len() < 100 ==> {
            &&& r.0 is Persisting
            &&& after.known() == text::views(poll.names@) + added
            &&& r.1 matches WatchAction::Store { key, value } && key@ == "discovery:projects"@
                && discovery::names_in(value@) == Some(after.known())
            &&& r.2 matches Some(Ok(n)) && n == after.known().len()
        },
        after.base_url() == before.base_url() && after.login() == before.login(),
{
    lemma_are_the_caches(projects@);
    let p = text::views(poll.names@);
    let reply = PageReply::Answered { status, body, decoded: Ok(projects) };
    if projects@.len() < 100 {
        let step = choose|step: PollStep| #[trigger] discovery::polls(poll.page, p, reply, step)
            && step is Done && after.known() == text::views(step->Done_0->Ok_0@) && r.2 == Some(
            Ok::<usize, String>(step->Done_0->Ok_0@.len() as usize),
        );
        let found = step->Done_0->Ok_0;
        assert(text::views(found@).len() == found@.len());
        assert(found.len() == found@.len());
    }
    discovery::cache_names(projects@)
}

/// After a poll that fails, on whatever page, the discovery knows what it knew, reports
/// the message of the error and waits.
pub proof fn law_failed_discovery_is_reported(
    before: Discoverer,
    poll: Poll,
    reply: PageReply,
    after: Discoverer,
    r: (WatchPhase, WatchAction, Report),
    e: DiscoveryError,
    message: String,
)
    requires
        exists|d: &mut Discoverer|
            *d == before && *final(d) == after && #[trigger] call_ensures(
                Discoverer::start,
                (d, WatchPhase::Polling(poll), (WatchEvent::Page { reply })),
                r,
            ),
        call_ensures(Poll::advance, (poll, reply), PollStep::Done(Err(e))),
        call_ensures(DiscoveryError::message, (&e,), message),
    ensures
        r.0 is Waiting,
        r.1 is Wait,
        r.2 matches Some(Err(m)) && m@ == message@,
        after.known() == before.known(),
        after.base_url() == before.base_url() && after.login() == before.login(),
{
}

/// In each phase the discovery takes the event that it waits for and no other. A page
/// must have a status of three digits, and a number must be left for the page behind a
/// full one.
pub proof fn law_discovery_waits_for_its_event(phase: WatchPhase, event: WatchEvent, r: bool)
    requires
        call_ensures(Discoverer::accepts, (&phase, &event), r),
    ensures
        phase is Idle ==> (r <==> event is Started),
        phase is Seeding ==> (r <==> event is Cached),
        phase is Persisting ==> (r <==> event is Persisted),
        phase is Waiting ==> (r <==> event is Elapsed),
        phase is Polling && event !is Page ==> !r,
        phase is Polling && event is Page && event->reply is Unanswered ==> r,
        phase is Polling && event is Page && event->reply is Answered ==> (r <==> (100
            <= event->reply->status <= 999 && !(event->reply->decoded is Ok
            && event->reply->decoded->Ok_0@.len() >= 100 && phase->Polling_0.page == u32::MAX))),
        r && phase is Polling ==> call_requires(
            Poll::advance,
            (phase->Polling_0, event->reply),
        ),
        discovery::API_TIMEOUT_MS == 15_000,
{
}

} // verus!
