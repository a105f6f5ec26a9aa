//! Discovering the proxy-cache projects of a Harbor instance.
//!
//! Harbor lists its projects page by page. Those with an upstream registry are
//! the proxy-cache projects. The list that was found last is kept until another
//! one is found, and is shared with other routers through the cache.

use arc_swap::ArcSwap;
use std::sync::Arc;
use vstd::prelude::*;
use vstd::string::*;

use crate::headers;
use crate::secret;
use crate::secret::Secret;
use crate::text;

verus! {

/// The number of projects on a full page.
pub const PAGE_SIZE: u32 = 100;

/// How long a request to the Harbor API may take, in milliseconds.
pub const API_TIMEOUT_MS: u64 = 15_000;

/// A project as the Harbor API lists it.
pub struct HarborProject {
    pub name: String,
    /// The upstream registry, as the API names it, where the project has one.
    pub registry_id: Option<String>,
}

impl HarborProject {
    /// The project caches an upstream registry.
    pub open spec fn has_registry(self) -> bool {
        self.registry_id is Some
    }
}

/// The character may stand in a project name that goes into a URL.
pub open spec fn name_char(c: char) -> bool {
    ||| 'a' <= c <= 'z'
    ||| 'A' <= c <= 'Z'
    ||| '0' <= c <= '9'
    ||| c == '-'
    ||| c == '_'
    ||| c == '.'
}

/// `name` stays one segment of a URL's path: it is not empty, holds no separator
/// or escape, and does not refer to another directory.
pub open spec fn safe_name(name: Seq<char>) -> bool {
    &&& name.len() > 0
    &&& forall|i: int| 0 <= i < name.len() ==> name_char(#[trigger] name[i])
    &&& name != seq!['.']
    &&& name != seq!['.', '.']
}

/// Whether `name` can go into a URL as it is.
pub fn is_safe_project_name(name: &str) -> (r: bool)
    ensures
        r == safe_name(name@),
{
    let chars = text::chars_of(name);
    if chars.len() == 0 {
        return false;
    }
    let mut i: usize = 0;
    while i < chars.len()
        invariant
            i <= chars@.len(),
            chars@ == name@,
            forall|k: int| 0 <= k < i ==> name_char(#[trigger] chars@[k]),
        decreases chars@.len() - i,
    {
        let c = chars[i];
        if !(('a' <= c && c <= 'z') || ('A' <= c && c <= 'Z') || ('0' <= c && c <= '9') || c == '-'
            || c == '_' || c == '.') {
            return false;
        }
        i = i + 1;
    }
    let dot = chars.len() == 1 && chars[0] == '.';
    let dots = chars.len() == 2 && chars[0] == '.' && chars[1] == '.';
    assert(dot == (name@ =~= seq!['.']));
    assert(dots == (name@ =~= seq!['.', '.']));
    !dot && !dots
}

/// The names of the proxy-cache projects on a page, in order.
pub open spec fn cache_names(page: Seq<HarborProject>) -> Seq<Seq<char>>
    decreases page.len(),
{
    if page.len() == 0 {
        seq![]
    } else {
        let rest = cache_names(page.drop_last());
        if page.last().has_registry() {
            rest.push(page.last().name@)
        } else {
            rest
        }
    }
}

/// Why the projects could not be discovered.
pub enum DiscoveryError {
    /// The request failed.
    Request { cause: String },
    /// Harbor refused the credentials.
    Auth { status: u16 },
    /// Harbor answered with another status than success.
    Unexpected { status: u16, body: String },
    /// The answer was no list of projects.
    Decode { cause: String },
}

/// The message of a `DiscoveryError`.
pub open spec fn discovery_message(e: DiscoveryError) -> Seq<char> {
    match e {
        DiscoveryError::Request { .. } => "execute discovery request"@,
        DiscoveryError::Auth { status } => "harbor API auth failed (status "@
            + headers::status_line(status)
            + "): check HARBOR_USERNAME/HARBOR_PASSWORD"@,
        DiscoveryError::Unexpected { status, body } => "unexpected status "@
            + headers::status_line(status) + ": "@ + body@,
        DiscoveryError::Decode { .. } => "unmarshal projects response"@,
    }
}

impl DiscoveryError {
    /// The status that the error speaks of is an HTTP status.
    pub open spec fn proper(self) -> bool {
        match self {
            DiscoveryError::Auth { status } => headers::is_status(status),
            DiscoveryError::Unexpected { status, .. } => headers::is_status(status),
            _ => true,
        }
    }

    /// The message for the log.
    pub fn message(&self) -> (r: String)
        requires
            self.proper(),
        ensures
            r@ == discovery_message(*self),
    {
        match self {
            DiscoveryError::Request { .. } => "execute discovery request".to_owned(),
            DiscoveryError::Auth { status } => {
                let mut r = "harbor API auth failed (status ".to_owned();
                r.append(headers::status_text(*status).as_str());
                r.append("): check HARBOR_USERNAME/HARBOR_PASSWORD");
                r
            },
            DiscoveryError::Unexpected { status, body } => {
                let mut r = "unexpected status ".to_owned();
                r.append(headers::status_text(*status).as_str());
                r.append(": ");
                r.append(body.as_str());
                r
            },
            DiscoveryError::Decode { .. } => "unmarshal projects response".to_owned(),
        }
    }
}

/// What became of the request for a page.
pub enum PageReply {
    /// The request failed.
    Unanswered { cause: String },
    /// Harbor answered, with this body, which decodes to these projects.
    Answered { status: u16, body: String, decoded: Result<Vec<HarborProject>, String> },
}

/// A poll of the Harbor API under way: the page to ask for next, and the
/// proxy-cache projects on the pages before it.
pub struct Poll {
    pub page: u32,
    pub names: Vec<String>,
}

/// How a poll goes on.
pub enum PollStep {
    /// Another page is to be asked for.
    More(Poll),
    /// The poll is over.
    Done(Result<Vec<String>, DiscoveryError>),
}

/// The URL of a page of the list of projects.
pub open spec fn page_url(harbor_url: Seq<char>, page: nat) -> Seq<char> {
    harbor_url + "/api/v2.0/projects?page="@ + text::decimal(page) + "&page_size="@
        + text::decimal(PAGE_SIZE as nat) + "&with_detail=true"@
}

/// The status says that the request succeeded.
pub open spec fn is_success(status: u16) -> bool {
    200 <= status <= 299
}

/// `reply` can be taken in by a poll that asked for `page`: it has an HTTP
/// status, and the pages do not run out of numbers.
pub open spec fn acceptable(page: u32, reply: PageReply) -> bool {
    reply matches PageReply::Answered { status, decoded, .. } ==> {
        &&& headers::is_status(status)
        &&& decoded matches Ok(projects) ==> projects@.len() >= PAGE_SIZE ==> page < u32::MAX
    }
}

/// A poll that found `names` on the pages before `page` goes on with `step` when
/// `reply` comes for `page`.
pub open spec fn polls(
    page: u32,
    names: Seq<Seq<char>>,
    reply: PageReply,
    step: PollStep,
) -> bool {
    match reply {
        PageReply::Unanswered { cause } => step == PollStep::Done(
            Err(DiscoveryError::Request { cause }),
        ),
        PageReply::Answered { status, body, decoded } => {
            if status == 401 || status == 403 {
                step == PollStep::Done(Err(DiscoveryError::Auth { status }))
            } else if !is_success(status) {
                step == PollStep::Done(Err(DiscoveryError::Unexpected { status, body }))
            } else {
                match decoded {
                    Err(cause) => step == PollStep::Done(Err(DiscoveryError::Decode { cause })),
                    Ok(projects) => {
                        let found = names + cache_names(projects@);
                        if projects@.len() < PAGE_SIZE {
                            step matches PollStep::Done(Ok(all)) && text::views(all@) == found
                        } else {
                            step matches PollStep::More(next) && next.page == page + 1
                                && text::views(next.names@) == found
                        }
                    },
                }
            }
        },
    }
}

impl Poll {
    /// A poll that begins with the first page.
    pub fn begin() -> (r: Poll)
        ensures
            r.page == 1,
            r.names@.len() == 0,
    {
        Poll { page: 1, names: Vec::new() }
    }

    /// The URL of the page to ask for next.
    pub fn url(&self, harbor_url: &str) -> (r: String)
        ensures
            r@ == page_url(harbor_url@, self.page as nat),
    {
        let mut r = harbor_url.to_owned();
        r.append("/api/v2.0/projects?page=");
        text::push_decimal(&mut r, self.page as u64);
        r.append("&page_size=");
        text::push_decimal(&mut r, PAGE_SIZE as u64);
        r.append("&with_detail=true");
        r
    }

    /// Takes in what became of the request for the page. A page that is not full
    /// is the last one.
    pub fn advance(self, reply: PageReply) -> (step: PollStep)
        requires
            acceptable(self.page, reply),
        ensures
            polls(self.page, text::views(self.names@), reply, step),
    {
        let Poll { page, names } = self;
        match reply {
            PageReply::Unanswered { cause } => PollStep::Done(
                Err(DiscoveryError::Request { cause }),
            ),
            PageReply::Answered { status, body, decoded } => {
                if status == 401 || status == 403 {
                    return PollStep::Done(Err(DiscoveryError::Auth { status }));
                }
                if status < 200 || status > 299 {
                    return PollStep::Done(Err(DiscoveryError::Unexpected { status, body }));
                }
                match decoded {
                    Err(cause) => PollStep::Done(Err(DiscoveryError::Decode { cause })),
                    Ok(projects) => {
                        let fetched: usize = projects.len();
                        let found = add_cache_names(names, &projects);
                        if fetched < PAGE_SIZE as usize {
                            PollStep::Done(Ok(found))
                        } else {
                            PollStep::More(Poll { page: page + 1, names: found })
                        }
                    },
                }
            },
        }
    }
}

/// `names` and behind them those of the proxy-cache projects on `page`.
fn add_cache_names(names: Vec<String>, page: &Vec<HarborProject>) -> (r: Vec<String>)
    ensures
        text::views(r@) == text::views(names@) + cache_names(page@),
{
    let ghost start = text::views(names@);
    let mut r = names;
    let mut i: usize = 0;
    assert(start + cache_names(page@.take(0)) =~= start);
    while i < page.len()
        invariant
            i <= page@.len(),
            text::views(r@) == start + cache_names(page@.take(i as int)),
        decreases page@.len() - i,
    {
        let ghost next = page@.take(i + 1);
        assert(next.drop_last() =~= page@.take(i as int));
        assert(next.last() == page@[i as int]);
        if page[i].registry_id.is_some() {
            let ghost before = r@;
            r.push(page[i].name.clone());
            assert(text::views(r@) =~= text::views(before).push(page@[i as int].name@));
        }
        assert(text::views(r@) =~= start + cache_names(next));
        i = i + 1;
    }
    assert(page@.take(page@.len() as int) =~= page@);
    r
}

/// The names on a sequence of pages, one page after the other.
pub open spec fn names_on(pages: Seq<Seq<HarborProject>>) -> Seq<Seq<char>>
    decreases pages.len(),
{
    if pages.len() == 0 {
        seq![]
    } else {
        names_on(pages.drop_last()) + cache_names(pages.last())
    }
}

/// `name` is listed exactly where a project with an upstream registry has it.
pub proof fn law_listed_are_proxy_caches(page: Seq<HarborProject>, name: Seq<char>)
    ensures
        cache_names(page).contains(name) <==> exists|i: int|
            0 <= i < page.len() && #[trigger] page[i].name@ == name && page[i].has_registry(),
    decreases page.len(),
{
    if page.len() > 0 {
        let front = page.drop_last();
        law_listed_are_proxy_caches(front, name);
        let rest = cache_names(front);
        let all = cache_names(page);
        if rest.contains(name) {
            let k = choose|k: int| 0 <= k < rest.len() && rest[k] == name;
            assert(all[k] == name);
            let i = choose|i: int|
                0 <= i < front.len() && #[trigger] front[i].name@ == name && front[i].has_registry();
            assert(page[i] == front[i]);
        }
        if page.last().has_registry() && page.last().name@ == name {
            assert(all[all.len() - 1] == name);
            assert(page[page.len() - 1].name@ == name);
        }
        if all.contains(name) && !rest.contains(name) {
            let k = choose|k: int| 0 <= k < all.len() && all[k] == name;
            if k < rest.len() {
                assert(rest[k] == name);
            }
            assert(page[page.len() - 1].name@ == name);
        }
        if exists|i: int|
            0 <= i < page.len() && #[trigger] page[i].name@ == name && page[i].has_registry() {
            let i = choose|i: int|
                0 <= i < page.len() && #[trigger] page[i].name@ == name && page[i].has_registry();
            if i < front.len() {
                assert(front[i].name@ == name && front[i].has_registry());
            }
        }
    }
}

/// A poll collects every page: having taken in full pages, it holds their
/// proxy-cache projects in order and asks for the page after them, and the first
/// page that is not full ends it with the projects of all pages.
pub proof fn law_poll_collects_every_page(
    pages: Seq<Seq<HarborProject>>,
    poll: Poll,
    status: u16,
    body: String,
    projects: Vec<HarborProject>,
    step: PollStep,
)
    requires
        is_success(status),
        poll.page == pages.len() + 1,
        text::views(poll.names@) == names_on(pages),
        polls(
            poll.page,
            text::views(poll.names@),
            (PageReply::Answered { status, body, decoded: Ok(projects) }),
            step,
        ),
    ensures
        projects@.len() < PAGE_SIZE ==> (step matches PollStep::Done(Ok(all)) && text::views(all@)
            == names_on(pages.push(projects@))),
        projects@.len() >= PAGE_SIZE ==> (step matches PollStep::More(next) && next.page
            == pages.push(projects@).len() + 1 && text::views(next.names@) == names_on(
            pages.push(projects@),
        )),
{
    assert(pages.push(projects@).drop_last() =~= pages);
}

/// The list of projects, replaced as a whole and read without a lock.
#[verifier::external_body]
pub struct ProjectCell {
    inner: ArcSwap<Vec<String>>,
}

/// The list that a cell holds.
pub uninterp spec fn listed_in(cell: ProjectCell) -> Seq<Seq<char>>;

/// `ArcSwap::from_pointee`: a cell that holds the given list.
#[verifier::external_body]
fn new_cell(projects: Vec<String>) -> (cell: ProjectCell)
    ensures
        listed_in(cell) == text::views(projects@),
{
    ProjectCell { inner: ArcSwap::from_pointee(projects) }
}

/// `ArcSwap::load_full`: the list that the cell holds.
#[verifier::external_body]
fn load_cell(cell: &ProjectCell) -> (projects: Arc<Vec<String>>)
    ensures
        text::views((*projects)@) == listed_in(*cell),
{
    cell.inner.load_full()
}

/// `ArcSwap::store`: the cell holds the given list from then on. `arc-swap`
/// stores through a shared reference; here it takes an exclusive one, so that a
/// cell stands for one state.
#[verifier::external_body]
fn store_cell(cell: &mut ProjectCell, projects: Arc<Vec<String>>)
    ensures
        listed_in(*final(cell)) == text::views((*projects)@),
{
    cell.inner.store(projects)
}

/// The JSON text of a list of names, as `serde_json` writes it.
pub uninterp spec fn json_of(names: Seq<Seq<char>>) -> Seq<char>;

/// The list of names that a JSON text spells, as `serde_json` reads it.
pub uninterp spec fn names_in(json: Seq<char>) -> Option<Seq<Seq<char>>>;

/// `serde_json::to_string` of a list of strings, which does not fail. Reading the
/// text gives the list back.
#[verifier::external_body]
pub(crate) fn write_names(names: &Vec<String>) -> (json: String)
    ensures
        json@ == json_of(text::views(names@)),
        names_in(json@) == Some(text::views(names@)),
{
    serde_json::to_string(names).unwrap()
}

/// `serde_json::from_str` to a list of strings.
#[verifier::external_body]
pub(crate) fn read_names(json: &str) -> (names: Option<Vec<String>>)
    ensures
        (match names {
            Some(list) => Some(text::views(list@)),
            None => None,
        }) == names_in(json@),
{
    serde_json::from_str(json).ok()
}

/// The cache key under which the list of projects is shared.
pub open spec fn projects_key() -> Seq<char> {
    "discovery:projects"@
}

/// Knows the proxy-cache projects of a Harbor instance.
pub struct Discoverer {
    harbor_url: String,
    username: Secret,
    password: Secret,
    projects: ProjectCell,
}

impl Discoverer {
    /// The base URL of the Harbor instance.
    pub closed spec fn base_url(&self) -> Seq<char> {
        self.harbor_url@
    }

    /// The credentials for the Harbor API.
    pub closed spec fn login(&self) -> (Seq<char>, Seq<char>) {
        (secret::text_in(self.username), secret::text_in(self.password))
    }

    /// The projects that are known.
    pub closed spec fn known(&self) -> Seq<Seq<char>> {
        listed_in(self.projects)
    }

    /// A discoverer that knows no projects yet.
    pub fn new(harbor_url: &str, username: Secret, password: Secret) -> (r: Discoverer)
        ensures
            r.base_url() == harbor_url@,
            r.login() == (secret::text_in(username), secret::text_in(password)),
            r.known().len() == 0,
    {
        Discoverer {
            harbor_url: harbor_url.to_owned(),
            username,
            password,
            projects: new_cell(Vec::new()),
        }
    }

    /// The projects that are known.
    pub fn get_projects(&self) -> (r: Arc<Vec<String>>)
        ensures
            text::views((*r)@) == self.known(),
    {
        load_cell(&self.projects)
    }

    /// The URL of the page that a poll asks for next.
    pub fn page_url(&self, poll: &Poll) -> (r: String)
        ensures
            r@ == page_url(self.base_url(), poll.page as nat),
    {
        poll.url(self.harbor_url.as_str())
    }

    /// The name and the password that go with each request.
    pub fn credentials(&self) -> (r: (&str, &str))
        ensures
            (r.0@, r.1@) == self.login(),
    {
        (self.username.expose(), self.password.expose())
    }

    /// Takes in how a poll ended: the projects that were found replace those
    /// that were known; after an error they stay. Gives the number of projects
    /// found, or the message for the log.
    pub fn refresh(&mut self, outcome: Result<Vec<String>, DiscoveryError>) -> (r: Result<
        usize,
        String,
    >)
        requires
            outcome matches Err(e) ==> e.proper(),
        ensures
            outcome matches Ok(projects) ==> {
                &&& final(self).known() == text::views(projects@)
                &&& r == Ok::<usize, String>(projects@.len() as usize)
            },
            outcome matches Err(e) ==> {
                &&& final(self).known() == old(self).known()
                &&& r matches Err(message) && message@ == discovery_message(e)
            },
            final(self).base_url() == old(self).base_url(),
            final(self).login() == old(self).login(),
    {
        match outcome {
            Ok(projects) => {
                let count: usize = projects.len();
                store_cell(&mut self.projects, Arc::new(projects));
                Ok(count)
            },
            Err(e) => Err(e.message()),
        }
    }

    /// Takes over the projects that the cache holds under `projects_key`, where
    /// it holds a list. Says whether it did.
    pub fn seed(&mut self, cached: Option<&str>) -> (seeded: bool)
        ensures
            seeded <==> (cached matches Some(json) && names_in(json@) is Some),
            seeded ==> Some(final(self).known()) == names_in(cached->0@),
            !seeded ==> final(self).known() == old(self).known(),
            final(self).base_url() == old(self).base_url(),
            final(self).login() == old(self).login(),
    {
        match cached {
            None => false,
            Some(json) => match read_names(json) {
                None => false,
                Some(projects) => {
                    store_cell(&mut self.projects, Arc::new(projects));
                    true
                },
            },
        }
    }

    /// What to write to the cache so that others can take the projects over: the
    /// key, and the projects as a JSON array.
    pub fn persist(&self) -> (r: (String, String))
        ensures
            r.0@ == projects_key(),
            r.1@ == json_of(self.known()),
            names_in(r.1@) == Some(self.known()),
    {
        let projects = load_cell(&self.projects);
        ("discovery:projects".to_owned(), write_names(&projects))
    }
}

/// What the discovery waits for.
pub enum WatchPhase {
    /// To begin.
    Idle,
    /// What the cache holds.
    Seeding,
    /// The next page of a poll.
    Polling(Poll),
    /// The cache to take the projects.
    Persisting,
    /// The time for the next poll.
    Waiting,
}

/// What happened.
pub enum WatchEvent {
    /// The router starts.
    Started,
    /// The cache was asked for the projects.
    Cached { json: Option<String> },
    /// A page was asked for.
    Page { reply: PageReply },
    /// The projects were written to the cache, or it could not be reached.
    Persisted,
    /// The time for the next poll has come.
    Elapsed,
}

/// What to do next.
pub enum WatchAction {
    /// Ask the cache for `key`.
    Lookup { key: String },
    /// Ask Harbor for the page at `url`.
    Ask { url: String },
    /// Write `value` under `key` to the cache.
    Store { key: String, value: String },
    /// Wait until the next poll is due.
    Wait,
}

/// How a poll ended, for the log and the metrics: the number of projects found, or
/// the message of the error.
pub type Report = Option<Result<usize, String>>;

/// `event` can follow in this phase.
pub open spec fn watch_awaits(phase: WatchPhase, event: WatchEvent) -> bool {
    match (phase, event) {
        (WatchPhase::Idle, WatchEvent::Started) => true,
        (WatchPhase::Seeding, WatchEvent::Cached { .. }) => true,
        (WatchPhase::Polling(poll), WatchEvent::Page { reply }) => acceptable(poll.page, reply),
        (WatchPhase::Persisting, WatchEvent::Persisted) => true,
        (WatchPhase::Waiting, WatchEvent::Elapsed) => true,
        _ => false,
    }
}

/// A poll begins: the first page is asked for.
pub open spec fn begins_poll(base_url: Seq<char>, next: WatchPhase, action: WatchAction) -> bool {
    &&& next matches WatchPhase::Polling(poll) && poll.page == 1 && poll.names@.len() == 0
    &&& action matches WatchAction::Ask { url } && url@ == page_url(base_url, 1)
}

/// The projects go to the cache.
pub open spec fn hands_over(known: Seq<Seq<char>>, action: WatchAction) -> bool {
    action matches WatchAction::Store { key, value } && key@ == projects_key() && value@ == json_of(
        known,
    ) && names_in(value@) == Some(known)
}

/// The discovery of the projects at `base_url` goes from `phase` with `event` to
/// `next`, when `known` were known before and `after` are known then.
pub open spec fn watches(
    base_url: Seq<char>,
    phase: WatchPhase,
    event: WatchEvent,
    known: Seq<Seq<char>>,
    next: WatchPhase,
    action: WatchAction,
    report: Report,
    after: Seq<Seq<char>>,
) -> bool {
    match (phase, event) {
        (WatchPhase::Idle, WatchEvent::Started) => {
            &&& next is Seeding
            &&& action matches WatchAction::Lookup { key } && key@ == projects_key()
            &&& report is None
            &&& after == known
        },
        (WatchPhase::Seeding, WatchEvent::Cached { json }) => {
            &&& begins_poll(base_url, next, action)
            &&& report is None
            &&& after == (match json {
                Some(text) => match names_in(text@) {
                    Some(names) => names,
                    None => known,
                },
                None => known,
            })
        },
        (WatchPhase::Polling(poll), WatchEvent::Page { reply }) => exists|step: PollStep|
            {
                &&& #[trigger] polls(poll.page, text::views(poll.names@), reply, step)
                &&& match step {
                    PollStep::More(more) => {
                        &&& next == WatchPhase::Polling(more)
                        &&& action matches WatchAction::Ask { url } && url@ == page_url(
                            base_url,
                            more.page as nat,
                        )
                        &&& report is None
                        &&& after == known
                    },
                    PollStep::Done(Ok(found)) => {
                        &&& next is Persisting
                        &&& hands_over(after, action)
                        &&& report == Some(Ok::<usize, String>(found@.len() as usize))
                        &&& after == text::views(found@)
                    },
                    PollStep::Done(Err(e)) => {
                        &&& next is Waiting
                        &&& action is Wait
                        &&& report matches Some(Err(message)) && message@ == discovery_message(e)
                        &&& after == known
                    },
                }
            },
        (WatchPhase::Persisting, WatchEvent::Persisted) => {
            &&& next is Waiting
            &&& action is Wait
            &&& report is None
            &&& after == known
        },
        (WatchPhase::Waiting, WatchEvent::Elapsed) => {
            &&& begins_poll(base_url, next, action)
            &&& report is None
            &&& after == known
        },
        _ => false,
    }
}

impl Discoverer {
    /// Whether `event` can follow in this phase.
    pub fn accepts(phase: &WatchPhase, event: &WatchEvent) -> (r: bool)
        ensures
            r == watch_awaits(*phase, *event),
    {
        match (phase, event) {
            (WatchPhase::Idle, WatchEvent::Started) => true,
            (WatchPhase::Seeding, WatchEvent::Cached { .. }) => true,
            (WatchPhase::Polling(poll), WatchEvent::Page { reply }) => match reply {
                PageReply::Unanswered { .. } => true,
                PageReply::Answered { status, decoded, .. } => {
                    let numbered = match decoded {
                        Ok(projects) => projects.len() < PAGE_SIZE as usize || poll.page
                            < u32::MAX,
                        Err(_) => true,
                    };
                    100 <= *status && *status <= 999 && numbered
                },
            },
            (WatchPhase::Persisting, WatchEvent::Persisted) => true,
            (WatchPhase::Waiting, WatchEvent::Elapsed) => true,
            _ => false,
        }
    }

    /// Discovers the projects: takes over what the cache holds, polls Harbor,
    /// hands what was found to the cache, and polls again whenever a poll is due.
    /// Takes what happened and says what to do next.
    pub fn start(&mut self, phase: WatchPhase, event: WatchEvent) -> (r: (
        WatchPhase,
        WatchAction,
        Report,
    ))
        requires
            watch_awaits(phase, event),
        ensures
            watches(
                old(self).base_url(),
                phase,
                event,
                old(self).known(),
                r.0,
                r.1,
                r.2,
                final(self).known(),
            ),
            final(self).base_url() == old(self).base_url(),
            final(self).login() == old(self).login(),
    {
        match (phase, event) {
            (WatchPhase::Idle, _) => (
                WatchPhase::Seeding,
                WatchAction::Lookup { key: "discovery:projects".to_owned() },
                None,
            ),
            (WatchPhase::Seeding, WatchEvent::Cached { json }) => {
                match &json {
                    Some(text) => {
                        let _ = self.seed(Some(text.as_str()));
                    },
                    None => {},
                }
                let poll = Poll::begin();
                let url = self.page_url(&poll);
                (WatchPhase::Polling(poll), WatchAction::Ask { url }, None)
            },
            (WatchPhase::Polling(poll), WatchEvent::Page { reply }) => {
                let step = poll.advance(reply);
                let ghost taken = step;
                assert(polls(poll.page, text::views(poll.names@), reply, taken));
                match step {
                    PollStep::More(more) => {
                        let url = self.page_url(&more);
                        (WatchPhase::Polling(more), WatchAction::Ask { url }, None)
                    },
                    PollStep::Done(Ok(found)) => {
                        let report = self.refresh(Ok(found));
                        let (key, value) = self.persist();
                        (WatchPhase::Persisting, WatchAction::Store { key, value }, Some(report))
                    },
                    PollStep::Done(Err(e)) => {
                        let report = self.refresh(Err(e));
                        (WatchPhase::Waiting, WatchAction::Wait, Some(report))
                    },
                }
            },
            (WatchPhase::Waiting, _) => {
                let poll = Poll::begin();
                let url = self.page_url(&poll);
                (WatchPhase::Polling(poll), WatchAction::Ask { url }, None)
            },
            _ => (WatchPhase::Waiting, WatchAction::Wait, None),
        }
    }
}

/// One router takes over what another one wrote to the cache: the projects that
/// the writer knew after a poll are those that the reader knows once it is seeded.
pub proof fn law_seed_restores_what_was_persisted(
    base_url: Seq<char>,
    poll: Poll,
    reply: PageReply,
    known: Seq<Seq<char>>,
    action: WatchAction,
    report: Report,
    found: Seq<Seq<char>>,
    json: String,
    other: Seq<Seq<char>>,
    polling: WatchPhase,
    ask: WatchAction,
    none: Report,
    seeded: Seq<Seq<char>>,
)
    requires
        watches(
            base_url,
            WatchPhase::Polling(poll),
            (WatchEvent::Page { reply }),
            known,
            WatchPhase::Persisting,
            action,
            report,
            found,
        ),
        action matches WatchAction::Store { value, .. } && value@ == json@,
        watches(
            base_url,
            WatchPhase::Seeding,
            (WatchEvent::Cached { json: Some(json) }),
            other,
            polling,
            ask,
            none,
            seeded,
        ),
    ensures
        seeded == found,
{
}

/// A poll that fails, on whatever page, leaves the known projects as they are.
pub proof fn law_failed_poll_keeps_the_projects(
    base_url: Seq<char>,
    poll: Poll,
    reply: PageReply,
    known: Seq<Seq<char>>,
    next: WatchPhase,
    action: WatchAction,
    message: String,
    after: Seq<Seq<char>>,
)
    requires
        watches(
            base_url,
            WatchPhase::Polling(poll),
            (WatchEvent::Page { reply }),
            known,
            next,
            action,
            Some(Err(message)),
            after,
        ),
    ensures
        after == known,
        next is Waiting,
{
}

} // verus!
