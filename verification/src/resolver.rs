//! Finding the project that holds an image.
//!
//! A manifest, or a list of tags, is looked up in the cache first. An entry that has
//! left the cache a short while ago may still serve, while it is looked for again; a
//! lookup that found nothing a short while ago fails at once. Else all projects whose
//! circuit is closed are asked at the same time, and requests for the same manifest
//! that arrive meanwhile share the answer. The functions here decide what to do next;
//! who calls them performs the lookups and the requests, and reports back.

use bytes::Bytes;
use http::HeaderMap;
use std::sync::Arc;
use vstd::arithmetic::power2::{lemma2_to64, lemma_pow2_pos, lemma_pow2_unfold, pow2};
use vstd::prelude::*;
use vstd::string::*;

use crate::breaker;
use crate::breaker::Breaker;
use crate::cache;
use crate::cache::CacheBackend;
use crate::client;
use crate::client::ClientOptions;
use crate::discovery::Discoverer;
use crate::flights;
use crate::flights::{Flights, Moment};
use crate::text;

verus! {

/// The response of a project to a request for a manifest.
pub struct ResolveResult {
    pub project: String,
    pub status: u16,
    pub headers: HeaderMap,
    pub body: Bytes,
}

/// What can be asked for of an image.
#[derive(Debug, Clone, Copy, PartialEq, Eq, Structural)]
pub enum Item {
    /// A manifest, by its reference.
    Manifest,
    /// The list of tags.
    Tags,
}

/// What is asked for: an item of an image. The reference of a list of tags is
/// `list`.
pub struct Wanted {
    pub item: Item,
    pub image: String,
    pub reference: String,
}

impl Wanted {
    /// A manifest of an image.
    pub fn manifest(image: &str, reference: &str) -> (r: Wanted)
        ensures
            r.item == Item::Manifest,
            r.image@ == image@,
            r.reference@ == reference@,
    {
        Wanted { item: Item::Manifest, image: image.to_owned(), reference: reference.to_owned() }
    }

    /// The list of tags of an image.
    pub fn tags(image: &str) -> (r: Wanted)
        ensures
            r.item == Item::Tags,
            r.image@ == image@,
            r.reference@ == "list"@,
    {
        Wanted { item: Item::Tags, image: image.to_owned(), reference: "list".to_owned() }
    }

    /// The cache key of what is asked for.
    pub fn key(&self) -> (r: String)
        ensures
            r@ == wanted_key(*self),
    {
        match self.item {
            Item::Manifest => manifest_key_text(self.image.as_str(), self.reference.as_str()),
            Item::Tags => {
                let mut r = self.image.clone();
                r.append("/tags/");
                r.append(self.reference.as_str());
                r
            },
        }
    }
}

impl Clone for Wanted {
    fn clone(&self) -> (r: Wanted)
        ensures
            r == *self,
    {
        Wanted {
            item: self.item,
            image: self.image.clone(),
            reference: self.reference.clone(),
        }
    }
}

/// Why a project gave no response.
pub enum FetchError {
    /// The request failed.
    Request { project: String, cause: String },
    /// The body of the response could not be read.
    Body { project: String, cause: String },
    /// The time for the request was up.
    Timeout { project: String },
}

/// Why a manifest was not found.
pub enum ResolveError {
    /// No proxy-cache project is known.
    NoProjects,
    /// No project had the manifest, and the last error is this one.
    AllFailed { last: String },
    /// Every project that was asked answered, and none had what was asked for; no
    /// project was left out for its open circuit.
    NotFound { wanted: Wanted },
    /// Every project that was asked answered, and none had what was asked for, but
    /// some were left out for their open circuits.
    Incomplete { wanted: Wanted },
    /// The request that this one waited for was given up.
    LeaderGone,
    /// The request that this one waited for failed with this message.
    Shared { message: String },
}

/// The message of a `FetchError`.
pub open spec fn fetch_message(e: FetchError) -> Seq<char> {
    match e {
        FetchError::Request { project, cause } => "request to "@ + project@ + ": "@ + cause@,
        FetchError::Body { project, cause } => "read body from "@ + project@ + ": "@ + cause@,
        FetchError::Timeout { project } => "timeout probing "@ + project@,
    }
}

impl FetchError {
    /// The message for the log.
    pub fn message(&self) -> (r: String)
        ensures
            r@ == fetch_message(*self),
    {
        match self {
            FetchError::Request { project, cause } => {
                let mut r = "request to ".to_owned();
                r.append(project.as_str());
                r.append(": ");
                r.append(cause.as_str());
                r
            },
            FetchError::Body { project, cause } => {
                let mut r = "read body from ".to_owned();
                r.append(project.as_str());
                r.append(": ");
                r.append(cause.as_str());
                r
            },
            FetchError::Timeout { project } => {
                let mut r = "timeout probing ".to_owned();
                r.append(project.as_str());
                r
            },
        }
    }
}

/// What is asked for, as messages name it.
pub open spec fn wanted_text(wanted: Wanted) -> Seq<char> {
    match wanted.item {
        Item::Manifest => "image "@ + wanted.image@ + ":"@ + wanted.reference@,
        Item::Tags => "tags of "@ + wanted.image@,
    }
}

/// What is asked for, as messages name it.
fn name_wanted(wanted: &Wanted) -> (r: String)
    ensures
        r@ == wanted_text(*wanted),
{
    match wanted.item {
        Item::Manifest => {
            let mut r = "image ".to_owned();
            r.append(wanted.image.as_str());
            r.append(":");
            r.append(wanted.reference.as_str());
            r
        },
        Item::Tags => {
            let mut r = "tags of ".to_owned();
            r.append(wanted.image.as_str());
            r
        },
    }
}

/// The message of a `ResolveError`.
pub open spec fn resolve_message(e: ResolveError) -> Seq<char> {
    match e {
        ResolveError::NoProjects => "no proxy-cache projects discovered"@,
        ResolveError::AllFailed { last } => "all projects failed, last error: "@ + last@,
        ResolveError::NotFound { wanted } => wanted_text(wanted)
            + " not found in any proxy-cache project"@,
        ResolveError::Incomplete { wanted } => wanted_text(wanted)
            + " not found, and some proxy-cache projects were left out"@,
        ResolveError::LeaderGone => "singleflight: leader dropped channel"@,
        ResolveError::Shared { message } => message@,
    }
}

impl ResolveError {
    /// The message for the log.
    pub fn message(&self) -> (r: String)
        ensures
            r@ == resolve_message(*self),
    {
        match self {
            ResolveError::NoProjects => "no proxy-cache projects discovered".to_owned(),
            ResolveError::AllFailed { last } => {
                let mut r = "all projects failed, last error: ".to_owned();
                r.append(last.as_str());
                r
            },
            ResolveError::NotFound { wanted } => {
                let mut r = name_wanted(wanted);
                r.append(" not found in any proxy-cache project");
                r
            },
            ResolveError::Incomplete { wanted } => {
                let mut r = name_wanted(wanted);
                r.append(" not found, and some proxy-cache projects were left out");
                r
            },
            ResolveError::LeaderGone => "singleflight: leader dropped channel".to_owned(),
            ResolveError::Shared { message } => message.clone(),
        }
    }
}

/// The cache key of one manifest.
pub open spec fn manifest_key(image: Seq<char>, reference: Seq<char>) -> Seq<char> {
    image + ":"@ + reference
}

/// The cache key of an image, whatever the reference.
pub open spec fn image_key(image: Seq<char>) -> Seq<char> {
    "img:"@ + image
}

/// The cache key of what is asked for.
pub open spec fn wanted_key(wanted: Wanted) -> Seq<char> {
    match wanted.item {
        Item::Manifest => manifest_key(wanted.image@, wanted.reference@),
        Item::Tags => wanted.image@ + "/tags/"@ + wanted.reference@,
    }
}

/// The cache key of one manifest.
pub fn manifest_key_text(image: &str, reference: &str) -> (r: String)
    ensures
        r@ == manifest_key(image@, reference@),
{
    let mut r = image.to_owned();
    r.append(":");
    r.append(reference);
    r
}

/// The cache key of an image, whatever the reference.
pub fn image_key_text(image: &str) -> (r: String)
    ensures
        r@ == image_key(image@),
{
    let mut r = "img:".to_owned();
    r.append(image);
    r
}

/// The outcomes of one fan-out, in the order of the projects.
pub type Outcome = Result<ResolveResult, FetchError>;

/// The outcome found the manifest.
pub open spec fn found(outcome: Outcome) -> bool {
    outcome matches Ok(r) && r.status == 200
}

/// The first outcome that found the manifest.
pub open spec fn first_found(outcomes: Seq<Outcome>) -> Option<ResolveResult>
    decreases outcomes.len(),
{
    if outcomes.len() == 0 {
        None
    } else if found(outcomes[0]) {
        Some(outcomes[0]->Ok_0)
    } else {
        first_found(outcomes.drop_first())
    }
}

/// The last error among the outcomes.
pub open spec fn last_error(outcomes: Seq<Outcome>) -> Option<FetchError>
    decreases outcomes.len(),
{
    if outcomes.len() == 0 {
        None
    } else if outcomes.last() is Err {
        Some(outcomes.last()->Err_0)
    } else {
        last_error(outcomes.drop_last())
    }
}

/// `r` is what a fan-out comes to: the first response that found what was asked
/// for; else the last error; else that no project has it, as far as the projects
/// were asked.
pub open spec fn is_selection(
    outcomes: Seq<Outcome>,
    complete: bool,
    wanted: Wanted,
    r: Result<ResolveResult, ResolveError>,
) -> bool {
    match first_found(outcomes) {
        Some(result) => r == Ok::<ResolveResult, ResolveError>(result),
        None => match last_error(outcomes) {
            Some(e) => r matches Err(ResolveError::AllFailed { last }) && last@ == fetch_message(e),
            None => if complete {
                r == Err::<ResolveResult, ResolveError>(ResolveError::NotFound { wanted })
            } else {
                r == Err::<ResolveResult, ResolveError>(ResolveError::Incomplete { wanted })
            },
        },
    }
}

/// Chooses among the outcomes of a fan-out, which stand in the order of the
/// projects. The fan-out is complete where no project was left out.
pub fn select_manifest(outcomes: Vec<Outcome>, complete: bool, wanted: &Wanted) -> (r: Result<
    ResolveResult,
    ResolveError,
>)
    ensures
        is_selection(outcomes@, complete, *wanted, r),
{
    let ghost all = outcomes@;
    let mut queue = outcomes;
    let mut last: Option<String> = None;
    let ghost mut seen: int = 0;
    assert(all.take(0) =~= Seq::<Outcome>::empty());
    assert(all.skip(0) =~= all);
    while queue.len() > 0
        invariant
            0 <= seen <= all.len(),
            all == outcomes@,
            queue@ == all.skip(seen),
            first_found(all) == first_found(queue@),
            text::opt_view(last) == (match last_error(all.take(seen)) {
                Some(e) => Some(fetch_message(e)),
                None => None,
            }),
        decreases queue@.len(),
    {
        let ghost rest = queue@;
        let outcome = queue.remove(0);
        proof {
            assert(queue@ =~= rest.drop_first());
            assert(rest.drop_first() =~= all.skip(seen + 1));
            assert(outcome == all[seen]);
            let next = all.take(seen + 1);
            assert(next.drop_last() =~= all.take(seen));
            assert(next.last() == outcome);
            seen = seen + 1;
        }
        match outcome {
            Ok(result) => {
                if result.status == 200 {
                    assert(found(rest[0]));
                    assert(first_found(rest) == Some(result));
                    return Ok(result);
                }
            },
            Err(e) => {
                last = Some(e.message());
            },
        }
    }
    assert(all.take(all.len() as int) =~= all);
    match last {
        Some(message) => Err(ResolveError::AllFailed { last: message }),
        None => {
            let wanted = wanted.clone();
            if complete {
                Err(ResolveError::NotFound { wanted })
            } else {
                Err(ResolveError::Incomplete { wanted })
            }
        },
    }
}

/// A request to a project.
pub struct UpstreamRequest {
    pub project: String,
    pub url: String,
    /// Names and values of the headers, in order.
    pub headers: Vec<(String, String)>,
}

/// The URL of what is asked for in a project.
pub open spec fn item_url(harbor_url: Seq<char>, project: Seq<char>, wanted: Wanted) -> Seq<char> {
    match wanted.item {
        Item::Manifest => harbor_url + "/v2/"@ + project + "/"@ + wanted.image@ + "/manifests/"@
            + wanted.reference@,
        Item::Tags => harbor_url + "/v2/"@ + project + "/"@ + wanted.image@ + "/tags/"@
            + wanted.reference@,
    }
}

/// The headers of a request: the client's authorization, if it sent one, and
/// then each of the media types that it accepts.
pub open spec fn request_headers(auth: Option<Seq<char>>, accept: Seq<Seq<char>>) -> Seq<
    (Seq<char>, Seq<char>),
> {
    let first: Seq<(Seq<char>, Seq<char>)> = match auth {
        Some(a) => seq![("Authorization"@, a)],
        None => seq![],
    };
    first + accept.map_values(|a: Seq<char>| ("Accept"@, a))
}

/// `request` asks `project` for what is wanted.
pub open spec fn is_item_request(
    request: UpstreamRequest,
    harbor_url: Seq<char>,
    project: Seq<char>,
    wanted: Wanted,
    auth: Option<Seq<char>>,
    accept: Seq<Seq<char>>,
) -> bool {
    &&& request.project@ == project
    &&& request.url@ == item_url(harbor_url, project, wanted)
    &&& text::pair_views(request.headers@) == request_headers(auth, accept)
}

/// The headers of a request.
pub fn build_request_headers(auth: Option<&str>, accept: &Vec<String>) -> (headers: Vec<
    (String, String),
>)
    ensures
        text::pair_views(headers@) == request_headers(text::opt_text(auth), text::views(accept@)),
{
    let mut headers: Vec<(String, String)> = Vec::new();
    if let Some(a) = auth {
        headers.push(("Authorization".to_owned(), a.to_owned()));
    }
    let ghost first = text::pair_views(headers@);
    let ghost types = text::views(accept@).map_values(|a: Seq<char>| ("Accept"@, a));
    let mut i: usize = 0;
    assert(first + types.take(0) =~= first);
    while i < accept.len()
        invariant
            i <= accept@.len(),
            types == text::views(accept@).map_values(|a: Seq<char>| ("Accept"@, a)),
            text::pair_views(headers@) == first + types.take(i as int),
        decreases accept@.len() - i,
    {
        let ghost before = headers@;
        headers.push(("Accept".to_owned(), accept[i].clone()));
        assert(types.take(i + 1) =~= types.take(i as int).push(types[i as int]));
        assert(text::pair_views(headers@) =~= text::pair_views(before).push(types[i as int]));
        assert(first + types.take(i + 1) =~= (first + types.take(i as int)).push(types[i as int]));
        i = i + 1;
    }
    assert(types.take(types.len() as int) =~= types);
    proof {
        let expected: Seq<(Seq<char>, Seq<char>)> = match text::opt_text(auth) {
            Some(a) => seq![("Authorization"@, a)],
            None => seq![],
        };
        assert(first =~= expected);
    }
    headers
}

/// `handed` is what a leader hands on of `result`.
pub open spec fn is_shared(
    result: Result<Arc<ResolveResult>, ResolveError>,
    handed: Result<Arc<ResolveResult>, String>,
) -> bool {
    match result {
        Ok(found) => handed == Ok::<Arc<ResolveResult>, String>(found),
        Err(e) => handed matches Err(message) && message@ == resolve_message(e),
    }
}

/// What a follower makes of what it received.
pub open spec fn followed(received: Option<Result<Arc<ResolveResult>, String>>) -> Result<
    Arc<ResolveResult>,
    ResolveError,
> {
    match received {
        Some(Ok(found)) => Ok(found),
        Some(Err(message)) => Err(ResolveError::Shared { message }),
        None => Err(ResolveError::LeaderGone),
    }
}

/// What a leader hands to those that wait: its response, or its message.
pub fn share(result: &Result<Arc<ResolveResult>, ResolveError>) -> (r: Result<
    Arc<ResolveResult>,
    String,
>)
    ensures
        is_shared(*result, r),
{
    match result {
        Ok(found) => Ok(Arc::clone(found)),
        Err(e) => Err(e.message()),
    }
}

/// What a follower makes of what it received; nothing where the leader was given
/// up.
pub fn follow(received: Option<Result<Arc<ResolveResult>, String>>) -> (r: Result<
    Arc<ResolveResult>,
    ResolveError,
>)
    ensures
        r == followed(received),
{
    match received {
        Some(Ok(found)) => Ok(found),
        Some(Err(message)) => Err(ResolveError::Shared { message }),
        None => Err(ResolveError::LeaderGone),
    }
}

/// Ends the flight for `key` that came to `found`: what the leader answers, what it
/// hands to those that wait, and who they are.
pub fn conclude(
    flights: &mut Flights,
    key: &str,
    found: Result<ResolveResult, ResolveError>,
) -> (r: (
    Result<Arc<ResolveResult>, ResolveError>,
    Result<Arc<ResolveResult>, String>,
    Vec<u64>,
))
    ensures
        match found {
            Ok(response) => r.0 matches Ok(answer) && *answer == response,
            Err(e) => r.0 == Err::<Arc<ResolveResult>, ResolveError>(e),
        },
        is_shared(r.0, r.1),
        (r.2@, final(flights).board()) == flights::landed(old(flights).board(), key@),
{
    let answer = match found {
        Ok(response) => Ok(Arc::new(response)),
        Err(e) => Err(e),
    };
    let handed = share(&answer);
    let woken = flights.land(key);
    (answer, handed, woken)
}

/// A follower gets what its leader got: the same response, or an error with the
/// same message.
pub proof fn law_follower_shares_the_outcome(
    result: Result<Arc<ResolveResult>, ResolveError>,
    handed: Result<Arc<ResolveResult>, String>,
    received: Result<Arc<ResolveResult>, ResolveError>,
)
    requires
        is_shared(result, handed),
        received == followed(Some(handed)),
    ensures
        result is Ok ==> received == result,
        result is Err ==> received is Err && resolve_message(received->Err_0) == resolve_message(
            result->Err_0,
        ),
{
}

/// Every follower returns, however its flight ends. A request that found a flight
/// under way for its key is among those that the next landing for the key names. If
/// the leader landed with a result, the follower returns the same response, or an
/// error with the same message; if the leader was given up, it returns that.
pub proof fn law_every_follower_returns(
    moments: Seq<Moment>,
    key: Seq<char>,
    ticket: u64,
    i: int,
    j: int,
    result: Option<Result<Arc<ResolveResult>, ResolveError>>,
    handed: Option<Result<Arc<ResolveResult>, String>>,
)
    requires
        flights::own_tickets(moments),
        0 <= i < j < moments.len(),
        moments[i] == (Moment::Join { key, ticket }),
        flights::board_after(moments.take(i)).under_way.contains_key(key),
        moments[j] == (Moment::Land { key }),
        forall|k: int| i < k < j ==> #[trigger] moments[k] != (Moment::Land { key }),
        result is Some == handed is Some,
        result is Some ==> is_shared(result->0, handed->0),
    ensures
        flights::landed(flights::board_after(moments.take(j)), key).0.contains(ticket),
        match result {
            Some(Ok(response)) => followed(handed) == Ok::<Arc<ResolveResult>, ResolveError>(
                response,
            ),
            Some(Err(e)) => followed(handed) is Err && resolve_message(followed(handed)->Err_0)
                == resolve_message(e),
            None => followed(handed) == Err::<Arc<ResolveResult>, ResolveError>(
                ResolveError::LeaderGone,
            ),
        },
{
    flights::law_every_follower_is_woken(moments, key, ticket, i, j);
    if result is Some {
        law_follower_shares_the_outcome(result->0, handed->0, followed(handed));
    }
}

/// What became of a request to a project.
pub enum UpstreamReply {
    /// The request failed.
    Unanswered { cause: String },
    /// The project answered, but the body could not be read.
    Unread { cause: String },
    /// The time for the request was up.
    TimedOut,
    /// The project answered.
    Answered { status: u16, headers: HeaderMap, body: Bytes },
}

/// `outcome` is what the request to `project` comes to.
pub open spec fn is_outcome(project: Seq<char>, reply: UpstreamReply, outcome: Outcome) -> bool {
    match reply {
        UpstreamReply::Unanswered { cause } => outcome matches Err(
            FetchError::Request { project: p, cause: c },
        ) && p@ == project && c == cause,
        UpstreamReply::Unread { cause } => outcome matches Err(
            FetchError::Body { project: p, cause: c },
        ) && p@ == project && c == cause,
        UpstreamReply::TimedOut => outcome matches Err(FetchError::Timeout { project: p }) && p@
            == project,
        UpstreamReply::Answered { status, headers, body } => outcome matches Ok(r) && r.project@
            == project && r.status == status && r.headers == headers && r.body == body,
    }
}

/// How a request to a project goes on.
pub enum FetchStep {
    /// It is sent again after so many milliseconds.
    Retry { delay_ms: u64 },
    /// It is over.
    Done(Outcome),
}

/// The delay after an attempt, the first of which is 0: the base delay times two to
/// the power of the attempt, as far as 64 bits hold it.
pub open spec fn delay_after(base: u64, attempt: nat) -> u64 {
    let delay = base * pow2(attempt);
    if delay > u64::MAX {
        u64::MAX
    } else {
        delay as u64
    }
}

proof fn lemma_delay_step(base: u64, attempt: nat)
    ensures
        base * pow2(attempt + 1) == 2 * (base * pow2(attempt)),
        base * pow2(attempt) >= 0,
{
    lemma_pow2_unfold(attempt + 1);
    lemma_pow2_pos(attempt);
    let n = base as int;
    let p = pow2(attempt) as int;
    assert(n * (2 * p) == 2 * (n * p)) by (nonlinear_arith);
    assert(n * p >= 0) by (nonlinear_arith)
        requires
            n >= 0,
            p >= 0,
    ;
}

proof fn lemma_delay_stays(base: u64, few: nat, many: nat)
    requires
        few <= many,
        delay_after(base, few) == 0 || delay_after(base, few) == u64::MAX,
    ensures
        delay_after(base, many) == delay_after(base, few),
    decreases many - few,
{
    if few < many {
        lemma_delay_stays(base, few, (many - 1) as nat);
        lemma_delay_step(base, (many - 1) as nat);
    }
}

/// The delay after an attempt.
fn backoff(base: u64, attempt: u32) -> (r: u64)
    ensures
        r == delay_after(base, attempt as nat),
{
    let mut r: u64 = base;
    let mut i: u32 = 0;
    proof {
        lemma2_to64();
    }
    while i < attempt
        invariant
            i <= attempt,
            r == delay_after(base, i as nat),
        decreases attempt - i,
    {
        if r == u64::MAX || r == 0 {
            proof {
                lemma_delay_stays(base, i as nat, attempt as nat);
            }
            return r;
        }
        proof {
            lemma_delay_step(base, i as nat);
        }
        r = if r > u64::MAX / 2 {
            u64::MAX
        } else {
            r * 2
        };
        i = i + 1;
    }
    r
}

/// The request failed on the way: sending it again may help.
pub open spec fn failed_on_the_way(reply: UpstreamReply) -> bool {
    reply is Unanswered || reply is Unread
}

/// `step` is how a request to `project` goes on that came to `reply` in an attempt,
/// the first of which is 0, when `max_attempts` are allowed.
pub open spec fn is_fetch_step(
    project: Seq<char>,
    max_attempts: u32,
    base_delay: u64,
    attempt: u32,
    reply: UpstreamReply,
    step: FetchStep,
) -> bool {
    if failed_on_the_way(reply) && attempt + 1 < max_attempts {
        step == FetchStep::Retry { delay_ms: delay_after(base_delay, attempt as nat) }
    } else {
        step matches FetchStep::Done(outcome) && is_outcome(project, reply, outcome)
    }
}

/// A request is sent again only where it failed on the way, and `max_attempts` times
/// in all at most. The delays between the attempts double, as far as 64 bits hold
/// them.
pub proof fn law_retries_are_bounded_and_delays_double(
    project: Seq<char>,
    max_attempts: u32,
    base: u64,
    attempt: u32,
    reply: UpstreamReply,
    step: FetchStep,
)
    requires
        is_fetch_step(project, max_attempts, base, attempt, reply, step),
    ensures
        step is Retry ==> failed_on_the_way(reply) && attempt + 1 < max_attempts,
        delay_after(base, 0) == base,
        2 * delay_after(base, attempt as nat) <= u64::MAX ==> delay_after(base, attempt as nat + 1)
            == 2 * delay_after(base, attempt as nat),
{
    lemma2_to64();
    lemma_delay_step(base, attempt as nat);
}

/// The requests of a fan-out, and whether no project was left out for its open
/// circuit.
pub struct FanOut {
    pub requests: Vec<UpstreamRequest>,
    pub complete: bool,
}

/// The router's view of its upstream: where Harbor is, how long a project may
/// take to answer, how many projects are asked at most, and how the client that
/// asks them is set up. A request is sent `retry_max_attempts` times at most, with
/// `retry_base_delay_ms` before the second time. With `serve_stale`, an entry that
/// has left the cache a short while ago still answers.
pub struct Resolver {
    pub harbor_url: String,
    pub timeout_ms: u64,
    pub max_fanout: usize,
    pub client: ClientOptions,
    pub retry_max_attempts: u32,
    pub retry_base_delay_ms: u64,
    pub serve_stale: bool,
}

/// How many of `count` projects are asked.
pub open spec fn fanout_size(count: nat, max_fanout: nat) -> nat {
    if count > max_fanout {
        max_fanout
    } else {
        count
    }
}

/// `exact` where it is there, else `by_image`.
pub open spec fn chosen<T>(exact: Option<T>, by_image: Option<T>) -> Option<T> {
    match exact {
        Some(project) => Some(project),
        None => by_image,
    }
}

/// `r` can come of looking a project up in a cache to which `recalled` was written:
/// the one of the exact reference, and only where that is not there the one of the
/// image.
pub open spec fn is_cached_project(
    recalled: Map<Seq<char>, Seq<char>>,
    image: Seq<char>,
    reference: Seq<char>,
    r: Option<Seq<char>>,
) -> bool {
    exists|exact: Option<Seq<char>>|
        {
            &&& #[trigger] cache::may_answer(recalled, manifest_key(image, reference), exact)
            &&& exact is Some ==> r == exact
            &&& exact is None ==> cache::may_answer(recalled, image_key(image), r)
        }
}

/// The project to take a blob from, given what the cache holds for the exact
/// reference and for the image.
pub fn choose_project(exact: Option<String>, by_image: Option<String>) -> (r: Option<String>)
    ensures
        r == chosen(exact, by_image),
{
    match exact {
        Some(project) => Some(project),
        None => by_image,
    }
}

/// How to find the project of an image in a cache that is asked step by step.
pub enum ProjectLookup {
    /// Ask the cache for `key`.
    Ask { key: String },
    /// It is known, or known to be missing.
    Known { project: Option<String> },
}

/// How to go on with finding the project of an image and reference, given what the
/// cache answered so far: it is asked for the exact reference first, and for the image
/// only where that is not there.
pub fn look_up_project(image: &str, reference: &str, answers: &Vec<Option<String>>) -> (step:
    ProjectLookup)
    ensures
        answers@.len() == 0 ==> (step matches ProjectLookup::Ask { key } && key@ == manifest_key(
            image@,
            reference@,
        )),
        answers@.len() == 1 && answers@[0] is None ==> (step matches ProjectLookup::Ask { key }
            && key@ == image_key(image@)),
        answers@.len() == 1 && answers@[0] is Some ==> step == (ProjectLookup::Known {
            project: answers@[0],
        }),
        answers@.len() > 1 ==> step == (ProjectLookup::Known {
            project: chosen(answers@[0], answers@[1]),
        }),
{
    if answers.len() == 0 {
        return ProjectLookup::Ask { key: manifest_key_text(image, reference) };
    }
    if answers.len() == 1 {
        return match &answers[0] {
            Some(project) => ProjectLookup::Known { project: Some(project.clone()) },
            None => ProjectLookup::Ask { key: image_key_text(image) },
        };
    }
    let exact = answers[0].clone();
    let by_image = answers[1].clone();
    ProjectLookup::Known { project: choose_project(exact, by_image) }
}

/// What the request to `project` comes to.
pub fn outcome_of(project: &str, reply: UpstreamReply) -> (outcome: Outcome)
    ensures
        is_outcome(project@, reply, outcome),
{
    let project = project.to_owned();
    match reply {
        UpstreamReply::Unanswered { cause } => Err(FetchError::Request { project, cause }),
        UpstreamReply::Unread { cause } => Err(FetchError::Body { project, cause }),
        UpstreamReply::TimedOut => Err(FetchError::Timeout { project }),
        UpstreamReply::Answered { status, headers, body } => Ok(
            ResolveResult { project, status, headers, body },
        ),
    }
}

impl Resolver {
    /// A resolver for the Harbor at `harbor_url`, without retries and without stale
    /// entries. Times are in milliseconds.
    pub fn new(
        harbor_url: &str,
        timeout_ms: u64,
        max_idle_conns_per_host: usize,
        idle_conn_timeout_ms: u64,
        http2_prior_knowledge: bool,
        max_fanout: usize,
    ) -> (r: Resolver)
        ensures
            r.harbor_url@ == harbor_url@,
            r.timeout_ms == timeout_ms,
            r.max_fanout == max_fanout,
            r.client == client::manifest_client(
                max_idle_conns_per_host,
                idle_conn_timeout_ms,
                http2_prior_knowledge,
            ),
            r.client.max_idle_per_host == max_idle_conns_per_host,
            r.retry_max_attempts == 1,
            r.retry_base_delay_ms == 0,
            !r.serve_stale,
    {
        let client = ClientOptions::for_manifests(
            max_idle_conns_per_host,
            idle_conn_timeout_ms,
            http2_prior_knowledge,
        );
        Resolver {
            harbor_url: harbor_url.to_owned(),
            timeout_ms,
            max_fanout,
            client,
            retry_max_attempts: 1,
            retry_base_delay_ms: 0,
            serve_stale: false,
        }
    }

    /// The resolver with retries.
    pub fn with_retries(self, max_attempts: u32, base_delay_ms: u64) -> (r: Resolver)
        ensures
            r == (Resolver {
                retry_max_attempts: max_attempts,
                retry_base_delay_ms: base_delay_ms,
                ..self
            }),
    {
        Resolver {
            harbor_url: self.harbor_url,
            timeout_ms: self.timeout_ms,
            max_fanout: self.max_fanout,
            client: self.client,
            retry_max_attempts: max_attempts,
            retry_base_delay_ms: base_delay_ms,
            serve_stale: self.serve_stale,
        }
    }

    /// The resolver that serves entries for `stale_ms` after they left the cache; 0
    /// for not at all.
    pub fn with_stale(self, stale_ms: u64) -> (r: Resolver)
        ensures
            r == (Resolver { serve_stale: stale_ms > 0, ..self }),
    {
        Resolver {
            harbor_url: self.harbor_url,
            timeout_ms: self.timeout_ms,
            max_fanout: self.max_fanout,
            client: self.client,
            retry_max_attempts: self.retry_max_attempts,
            retry_base_delay_ms: self.retry_base_delay_ms,
            serve_stale: stale_ms > 0,
        }
    }

    /// Begins to resolve a manifest or a list of tags: the cache is asked first.
    pub fn resolve_manifest(&self, wanted: &Wanted) -> (r: (Resolution, ResolveAction))
        ensures
            r.0.wanted == *wanted,
            r.0.serve_stale == self.serve_stale,
            steps(
                *wanted,
                self.serve_stale,
                Phase::Start,
                ResolveEvent::Started,
                r.0.phase,
                r.1,
            ),
    {
        Resolution::new(wanted, self.serve_stale).advance(ResolveEvent::Started)
    }

    /// Begins to look for what is wanted again, whatever the cache holds.
    pub fn refresh(&self, wanted: &Wanted) -> (r: (Resolution, ResolveAction))
        ensures
            r.0.wanted == *wanted,
            r.0.serve_stale == self.serve_stale,
            r.0.phase == Phase::Flying,
            r.1 matches ResolveAction::Fly { key } && key@ == wanted_key(*wanted),
    {
        let resolution = Resolution {
            wanted: wanted.clone(),
            serve_stale: self.serve_stale,
            phase: Phase::Flying,
        };
        (resolution, ResolveAction::Fly { key: wanted.key() })
    }

    /// How the request to `project` goes on that came to `reply` in an attempt, the
    /// first of which is 0.
    pub fn fetch_manifest(&self, project: &str, attempt: u32, reply: UpstreamReply) -> (step:
        FetchStep)
        ensures
            is_fetch_step(
                project@,
                self.retry_max_attempts,
                self.retry_base_delay_ms,
                attempt,
                reply,
                step,
            ),
    {
        if self.retry_max_attempts > 0 && attempt < self.retry_max_attempts - 1 {
            match &reply {
                UpstreamReply::Unanswered { .. } | UpstreamReply::Unread { .. } => {
                    return FetchStep::Retry {
                        delay_ms: backoff(self.retry_base_delay_ms, attempt),
                    };
                },
                _ => {},
            }
        }
        FetchStep::Done(outcome_of(project, reply))
    }

    /// The projects that are known.
    pub fn get_discovered_projects(&self, discovery: &Discoverer) -> (r: Arc<Vec<String>>)
        ensures
            text::views((*r)@) == discovery.known(),
    {
        discovery.get_projects()
    }

    /// The request to one project for what is wanted.
    pub fn manifest_request(
        &self,
        project: &str,
        wanted: &Wanted,
        auth: Option<&str>,
        accept: &Vec<String>,
    ) -> (request: UpstreamRequest)
        ensures
            is_item_request(
                request,
                self.harbor_url@,
                project@,
                *wanted,
                text::opt_text(auth),
                text::views(accept@),
            ),
    {
        let mut url = self.harbor_url.clone();
        url.append("/v2/");
        url.append(project);
        url.append("/");
        url.append(wanted.image.as_str());
        match wanted.item {
            Item::Manifest => url.append("/manifests/"),
            Item::Tags => url.append("/tags/"),
        }
        url.append(wanted.reference.as_str());
        UpstreamRequest {
            project: project.to_owned(),
            url,
            headers: build_request_headers(auth, accept),
        }
    }

    /// The requests for what is wanted, to the projects in their order: those whose
    /// circuit is open at `now_ms` are left out, and of the others the first
    /// `max_fanout` are asked.
    pub fn fan_out(
        &self,
        projects: &Vec<String>,
        breaker: &Breaker,
        now_ms: u64,
        wanted: &Wanted,
        auth: Option<&str>,
        accept: &Vec<String>,
    ) -> (r: Result<FanOut, ResolveError>)
        ensures
            projects@.len() == 0 ==> r == Err::<FanOut, ResolveError>(ResolveError::NoProjects),
            projects@.len() > 0 ==> {
                let asked = breaker::closed_of(
                    breaker.known(),
                    breaker.limits().1,
                    text::views(projects@),
                    now_ms,
                );
                &&& r matches Ok(fan)
                &&& fan.complete == (asked.len() == projects@.len())
                &&& fan.requests@.len() == fanout_size(asked.len(), self.max_fanout as nat)
                &&& forall|i: int|
                    0 <= i < fan.requests@.len() ==> is_item_request(
                        #[trigger] fan.requests@[i],
                        self.harbor_url@,
                        asked[i],
                        *wanted,
                        text::opt_text(auth),
                        text::views(accept@),
                    )
            },
    {
        if projects.len() == 0 {
            return Err(ResolveError::NoProjects);
        }
        let closed = breaker.closed(projects, now_ms);
        let ghost asked = text::views(closed@);
        let count: usize = if closed.len() > self.max_fanout {
            self.max_fanout
        } else {
            closed.len()
        };
        let mut requests: Vec<UpstreamRequest> = Vec::new();
        let mut i: usize = 0;
        while i < count
            invariant
                i <= count <= closed@.len(),
                asked == text::views(closed@),
                requests@.len() == i,
                forall|k: int|
                    0 <= k < i ==> is_item_request(
                        #[trigger] requests@[k],
                        self.harbor_url@,
                        asked[k],
                        *wanted,
                        text::opt_text(auth),
                        text::views(accept@),
                    ),
            decreases count - i,
        {
            assert(asked[i as int] == closed@[i as int]@);
            requests.push(self.manifest_request(closed[i].as_str(), wanted, auth, accept));
            i = i + 1;
        }
        assert(asked.len() == closed@.len());
        Ok(FanOut { requests, complete: closed.len() == projects.len() })
    }

    /// The project that the cache knows for an image and reference: the one of
    /// the exact reference, else the one of the image.
    pub fn cached_project<C: CacheBackend>(
        &self,
        cache: &C,
        image: &str,
        reference: &str,
    ) -> (r: Option<String>)
        ensures
            exists|exact: Option<Seq<char>>|
                {
                    &&& #[trigger] cache.answers(manifest_key(image@, reference@), exact)
                    &&& exact is Some ==> text::opt_view(r) == exact
                    &&& exact is None ==> cache.answers(image_key(image@), text::opt_view(r))
                },
            is_cached_project(cache.recalled(), image@, reference@, text::opt_view(r)),
    {
        let exact = cache.get(manifest_key_text(image, reference).as_str());
        let ghost first = text::opt_view(exact);
        assert(cache.answers(manifest_key(image@, reference@), first));
        assert(cache::may_answer(cache.recalled(), manifest_key(image@, reference@), first));
        if exact.is_some() {
            return exact;
        }
        let by_image = cache.get(image_key_text(image).as_str());
        choose_project(exact, by_image)
    }
}

/// The project that stands first in the order of the projects and has the
/// manifest is the one whose response is taken.
pub proof fn law_first_project_wins(
    outcomes: Seq<Outcome>,
    i: int,
    complete: bool,
    wanted: Wanted,
    r: Result<ResolveResult, ResolveError>,
)
    requires
        0 <= i < outcomes.len(),
        found(outcomes[i]),
        forall|j: int| 0 <= j < i ==> !found(#[trigger] outcomes[j]),
        is_selection(outcomes, complete, wanted, r),
    ensures
        r is Ok && r->Ok_0 == outcomes[i]->Ok_0,
{
    lemma_first_found(outcomes, i);
}

proof fn lemma_first_found(outcomes: Seq<Outcome>, i: int)
    requires
        0 <= i < outcomes.len(),
        found(outcomes[i]),
        forall|j: int| 0 <= j < i ==> !found(#[trigger] outcomes[j]),
    ensures
        first_found(outcomes) == Some(outcomes[i]->Ok_0),
    decreases outcomes.len(),
{
    if i > 0 {
        assert(!found(outcomes[0]));
        let rest = outcomes.drop_first();
        assert forall|j: int| 0 <= j < i - 1 implies !found(#[trigger] rest[j]) by {
            assert(rest[j] == outcomes[j + 1]);
        }
        lemma_first_found(rest, i - 1);
    }
}

/// Which way a manifest was resolved.
#[derive(Debug, Clone, Copy, PartialEq, Eq, Structural)]
pub enum ResolveLabel {
    /// The cached project had it.
    Hit,
    /// A fan-out found it.
    Miss,
    /// It was not found.
    Error,
}

/// The label as text.
pub open spec fn label_text(label: ResolveLabel) -> Seq<char> {
    match label {
        ResolveLabel::Hit => "hit"@,
        ResolveLabel::Miss => "miss"@,
        ResolveLabel::Error => "error"@,
    }
}

impl ResolveLabel {
    /// The label as text, for the metrics.
    pub fn text(self) -> (r: &'static str)
        ensures
            r@ == label_text(self),
    {
        match self {
            ResolveLabel::Hit => "hit",
            ResolveLabel::Miss => "miss",
            ResolveLabel::Error => "error",
        }
    }
}

/// How far a resolution has come.
pub enum Phase {
    Start,
    Looking,
    Reviving,
    Doubting,
    Fetching,
    Revalidating,
    Evicting,
    Flying,
    StoringItem { result: Arc<ResolveResult>, revived: bool },
    StoringImage { result: Arc<ResolveResult>, revived: bool },
    StoringMissing { error: ResolveError },
    Done,
}

/// What happened to the last action.
pub enum ResolveEvent {
    /// Nothing was done yet.
    Started,
    /// The cache was asked.
    Cached { project: Option<String> },
    /// The entries that have left the cache were asked.
    Revived { project: Option<String> },
    /// The negative lookups were asked.
    Doubted { missing: bool },
    /// The project was asked.
    Fetched { outcome: Result<Arc<ResolveResult>, FetchError> },
    /// The cache entry was removed.
    Evicted,
    /// The fan-out that was led or joined has ended.
    Flown { result: Result<Arc<ResolveResult>, ResolveError> },
    /// The cache entry was written.
    Stored,
}

/// What to do next.
pub enum ResolveAction {
    /// Ask the cache for `key`.
    Lookup { key: String },
    /// Ask the entries that have left the cache a short while ago for `key`.
    LookupStale { key: String },
    /// Ask whether a lookup of `key` found nothing a short while ago.
    LookupMissing { key: String },
    /// Ask `project`.
    Fetch { project: String },
    /// Remove `key` from the cache, and from the entries that have left it.
    Evict { key: String },
    /// Join the flight for `key`, or lead it.
    Fly { key: String },
    /// Write `project` under `key` to the cache.
    Store { key: String, project: String },
    /// Remember that a lookup of `key` found nothing.
    StoreMissing { key: String },
    /// The resolution is over. With `refresh`, look again in the background.
    Reply {
        label: ResolveLabel,
        result: Result<Arc<ResolveResult>, ResolveError>,
        refresh: bool,
    },
}

/// `event` can follow in this phase.
pub open spec fn awaits(phase: Phase, event: ResolveEvent) -> bool {
    match phase {
        Phase::Start => event is Started,
        Phase::Looking => event is Cached,
        Phase::Reviving => event is Revived,
        Phase::Doubting => event is Doubted,
        Phase::Fetching => event is Fetched,
        Phase::Revalidating => event is Fetched,
        Phase::Evicting => event is Evicted,
        Phase::Flying => event is Flown,
        Phase::StoringItem { .. } => event is Stored,
        Phase::StoringImage { .. } => event is Stored,
        Phase::StoringMissing { .. } => event is Stored,
        Phase::Done => false,
    }
}

/// The project has what was asked for.
pub open spec fn has_it(outcome: Result<Arc<ResolveResult>, FetchError>) -> bool {
    outcome matches Ok(response) && response.status == 200
}

/// The fan-out is joined or led.
pub open spec fn flies(wanted: Wanted, next: Phase, action: ResolveAction) -> bool {
    &&& next == Phase::Flying
    &&& action matches ResolveAction::Fly { key } && key@ == wanted_key(wanted)
}

/// It is asked whether a lookup found nothing a short while ago.
pub open spec fn doubts(wanted: Wanted, next: Phase, action: ResolveAction) -> bool {
    &&& next == Phase::Doubting
    &&& action matches ResolveAction::LookupMissing { key } && key@ == wanted_key(wanted)
}

/// The entry that led nowhere is removed.
pub open spec fn evicts(wanted: Wanted, next: Phase, action: ResolveAction) -> bool {
    &&& next == Phase::Evicting
    &&& action matches ResolveAction::Evict { key } && key@ == wanted_key(wanted)
}

/// The project of `result` is remembered for what was asked for.
pub open spec fn remembers(
    wanted: Wanted,
    result: Arc<ResolveResult>,
    revived: bool,
    next: Phase,
    action: ResolveAction,
) -> bool {
    &&& next == Phase::StoringItem { result, revived }
    &&& action matches ResolveAction::Store { key, project } && key@ == wanted_key(wanted)
        && project@ == result.project@
}

/// The resolution is over with `result`.
pub open spec fn succeeds(
    result: Arc<ResolveResult>,
    revived: bool,
    next: Phase,
    action: ResolveAction,
) -> bool {
    &&& next == Phase::Done
    &&& action == ResolveAction::Reply {
        label: if revived {
            ResolveLabel::Hit
        } else {
            ResolveLabel::Miss
        },
        result: Ok(result),
        refresh: revived,
    }
}

/// The resolution is over with `error`.
pub open spec fn fails(error: ResolveError, next: Phase, action: ResolveAction) -> bool {
    &&& next == Phase::Done
    &&& action == ResolveAction::Reply {
        label: ResolveLabel::Error,
        result: Err(error),
        refresh: false,
    }
}

/// The resolution of what is wanted goes from `phase` with `event` to `next`, and
/// `action` is what to do then.
pub open spec fn steps(
    wanted: Wanted,
    serve_stale: bool,
    phase: Phase,
    event: ResolveEvent,
    next: Phase,
    action: ResolveAction,
) -> bool {
    match (phase, event) {
        (Phase::Start, ResolveEvent::Started) => {
            &&& next == Phase::Looking
            &&& action matches ResolveAction::Lookup { key } && key@ == wanted_key(wanted)
        },
        (Phase::Looking, ResolveEvent::Cached { project: Some(cached) }) => {
            &&& next == Phase::Fetching
            &&& action == ResolveAction::Fetch { project: cached }
        },
        (Phase::Looking, ResolveEvent::Cached { project: None }) => {
            if serve_stale {
                &&& next == Phase::Reviving
                &&& action matches ResolveAction::LookupStale { key } && key@ == wanted_key(wanted)
            } else {
                doubts(wanted, next, action)
            }
        },
        (Phase::Reviving, ResolveEvent::Revived { project: Some(stale) }) => {
            &&& next == Phase::Revalidating
            &&& action == ResolveAction::Fetch { project: stale }
        },
        (Phase::Reviving, ResolveEvent::Revived { project: None }) => doubts(wanted, next, action),
        (Phase::Doubting, ResolveEvent::Doubted { missing }) => {
            if missing {
                fails(ResolveError::NotFound { wanted }, next, action)
            } else {
                flies(wanted, next, action)
            }
        },
        (Phase::Fetching, ResolveEvent::Fetched { outcome }) => {
            if has_it(outcome) {
                &&& next == Phase::Done
                &&& action == ResolveAction::Reply {
                    label: ResolveLabel::Hit,
                    result: Ok(outcome->Ok_0),
                    refresh: false,
                }
            } else {
                evicts(wanted, next, action)
            }
        },
        (Phase::Revalidating, ResolveEvent::Fetched { outcome }) => {
            if has_it(outcome) {
                remembers(wanted, outcome->Ok_0, true, next, action)
            } else {
                evicts(wanted, next, action)
            }
        },
        (Phase::Evicting, ResolveEvent::Evicted) => flies(wanted, next, action),
        (Phase::Flying, ResolveEvent::Flown { result: Ok(result) }) => remembers(
            wanted,
            result,
            false,
            next,
            action,
        ),
        (Phase::Flying, ResolveEvent::Flown { result: Err(e) }) => {
            if e is NotFound {
                &&& next == Phase::StoringMissing { error: e }
                &&& action matches ResolveAction::StoreMissing { key } && key@ == wanted_key(wanted)
            } else {
                fails(e, next, action)
            }
        },
        (Phase::StoringItem { result, revived }, ResolveEvent::Stored) => {
            match wanted.item {
                Item::Manifest => {
                    &&& next == Phase::StoringImage { result, revived }
                    &&& action matches ResolveAction::Store { key, project } && key@ == image_key(
                        wanted.image@,
                    ) && project@ == result.project@
                },
                Item::Tags => succeeds(result, revived, next, action),
            }
        },
        (Phase::StoringImage { result, revived }, ResolveEvent::Stored) => succeeds(
            result,
            revived,
            next,
            action,
        ),
        (Phase::StoringMissing { error }, ResolveEvent::Stored) => fails(error, next, action),
        _ => false,
    }
}

/// The resolution of one manifest or list of tags.
pub struct Resolution {
    pub wanted: Wanted,
    /// Whether entries that have left the cache a short while ago still answer.
    pub serve_stale: bool,
    pub phase: Phase,
}

impl Resolution {
    /// The resolution of what is wanted, before its first step.
    pub fn new(wanted: &Wanted, serve_stale: bool) -> (r: Resolution)
        ensures
            r.wanted == *wanted,
            r.serve_stale == serve_stale,
            r.phase == Phase::Start,
    {
        Resolution { wanted: wanted.clone(), serve_stale, phase: Phase::Start }
    }

    /// Whether `event` can follow now.
    pub fn accepts(&self, event: &ResolveEvent) -> (r: bool)
        ensures
            r == awaits(self.phase, *event),
    {
        match (&self.phase, event) {
            (Phase::Start, ResolveEvent::Started) => true,
            (Phase::Looking, ResolveEvent::Cached { .. }) => true,
            (Phase::Reviving, ResolveEvent::Revived { .. }) => true,
            (Phase::Doubting, ResolveEvent::Doubted { .. }) => true,
            (Phase::Fetching, ResolveEvent::Fetched { .. }) => true,
            (Phase::Revalidating, ResolveEvent::Fetched { .. }) => true,
            (Phase::Evicting, ResolveEvent::Evicted) => true,
            (Phase::Flying, ResolveEvent::Flown { .. }) => true,
            (Phase::StoringItem { .. }, ResolveEvent::Stored) => true,
            (Phase::StoringImage { .. }, ResolveEvent::Stored) => true,
            (Phase::StoringMissing { .. }, ResolveEvent::Stored) => true,
            _ => false,
        }
    }

    /// Takes what happened and says what to do next.
    pub fn advance(self, event: ResolveEvent) -> (r: (Resolution, ResolveAction))
        requires
            awaits(self.phase, event),
        ensures
            r.0.wanted == self.wanted,
            r.0.serve_stale == self.serve_stale,
            steps(self.wanted, self.serve_stale, self.phase, event, r.0.phase, r.1),
    {
        let Resolution { wanted, serve_stale, phase } = self;
        let key = wanted.key();
        let (phase, action) = match (phase, event) {
            (Phase::Start, _) => (Phase::Looking, ResolveAction::Lookup { key }),
            (Phase::Looking, ResolveEvent::Cached { project: Some(project) }) => (
                Phase::Fetching,
                ResolveAction::Fetch { project },
            ),
            (Phase::Looking, _) => if serve_stale {
                (Phase::Reviving, ResolveAction::LookupStale { key })
            } else {
                (Phase::Doubting, ResolveAction::LookupMissing { key })
            },
            (Phase::Reviving, ResolveEvent::Revived { project: Some(project) }) => (
                Phase::Revalidating,
                ResolveAction::Fetch { project },
            ),
            (Phase::Reviving, _) => (Phase::Doubting, ResolveAction::LookupMissing { key }),
            (Phase::Doubting, ResolveEvent::Doubted { missing: true }) => {
                let result = Err(ResolveError::NotFound { wanted: wanted.clone() });
                let label = ResolveLabel::Error;
                (Phase::Done, ResolveAction::Reply { label, result, refresh: false })
            },
            (Phase::Doubting, _) => (Phase::Flying, ResolveAction::Fly { key }),
            (Phase::Fetching, ResolveEvent::Fetched { outcome: Ok(response) }) => {
                if response.status == 200 {
                    let result = Ok(response);
                    let label = ResolveLabel::Hit;
                    (Phase::Done, ResolveAction::Reply { label, result, refresh: false })
                } else {
                    (Phase::Evicting, ResolveAction::Evict { key })
                }
            },
            (Phase::Revalidating, ResolveEvent::Fetched { outcome: Ok(result) }) => {
                if result.status == 200 {
                    let project = result.project.clone();
                    (
                        Phase::StoringItem { result, revived: true },
                        ResolveAction::Store { key, project },
                    )
                } else {
                    (Phase::Evicting, ResolveAction::Evict { key })
                }
            },
            (Phase::Fetching, _) | (Phase::Revalidating, _) => (
                Phase::Evicting,
                ResolveAction::Evict { key },
            ),
            (Phase::Evicting, _) => (Phase::Flying, ResolveAction::Fly { key }),
            (Phase::Flying, ResolveEvent::Flown { result: Ok(result) }) => {
                let project = result.project.clone();
                (
                    Phase::StoringItem { result, revived: false },
                    ResolveAction::Store { key, project },
                )
            },
            (Phase::Flying, ResolveEvent::Flown { result: Err(error) }) => match error {
                ResolveError::NotFound { .. } => (
                    Phase::StoringMissing { error },
                    ResolveAction::StoreMissing { key },
                ),
                _ => failure(error),
            },
            (Phase::StoringItem { result, revived }, _) => match wanted.item {
                Item::Manifest => {
                    let project = result.project.clone();
                    let key = image_key_text(wanted.image.as_str());
                    (
                        Phase::StoringImage { result, revived },
                        ResolveAction::Store { key, project },
                    )
                },
                Item::Tags => success(result, revived),
            },
            (Phase::StoringImage { result, revived }, _) => success(result, revived),
            (Phase::StoringMissing { error }, _) => failure(error),
            _ => (Phase::Done, ResolveAction::Lookup { key }),
        };
        (Resolution { wanted, serve_stale, phase }, action)
    }
}

/// The end of a resolution with `result`.
fn success(result: Arc<ResolveResult>, revived: bool) -> (r: (Phase, ResolveAction))
    ensures
        succeeds(result, revived, r.0, r.1),
{
    let label = if revived {
        ResolveLabel::Hit
    } else {
        ResolveLabel::Miss
    };
    (Phase::Done, ResolveAction::Reply { label, result: Ok(result), refresh: revived })
}

/// The end of a resolution with `error`.
fn failure(error: ResolveError) -> (r: (Phase, ResolveAction))
    ensures
        fails(error, r.0, r.1),
{
    let label = ResolveLabel::Error;
    (Phase::Done, ResolveAction::Reply { label, result: Err(error), refresh: false })
}

/// What an action does to a cache.
pub open spec fn performed(
    action: ResolveAction,
    recalled: Map<Seq<char>, Seq<char>>,
) -> Map<Seq<char>, Seq<char>> {
    match action {
        ResolveAction::Store { key, project } => recalled.insert(key@, project@),
        ResolveAction::Evict { key } => recalled.remove(key@),
        _ => recalled,
    }
}

/// How many steps are left at most.
pub open spec fn steps_left(phase: Phase) -> nat {
    match phase {
        Phase::Start => 9,
        Phase::Looking => 8,
        Phase::Reviving => 7,
        Phase::Doubting => 6,
        Phase::Fetching => 5,
        Phase::Revalidating => 5,
        Phase::Evicting => 4,
        Phase::Flying => 3,
        Phase::StoringItem { .. } => 2,
        Phase::StoringImage { .. } => 1,
        Phase::StoringMissing { .. } => 1,
        Phase::Done => 0,
    }
}

/// The action sends something to a project.
pub open spec fn goes_upstream(action: ResolveAction) -> bool {
    action is Fetch || action is Fly
}

/// Every step brings a resolution closer to its end, and it replies exactly when
/// it ends.
pub proof fn law_resolution_ends(
    wanted: Wanted,
    serve_stale: bool,
    phase: Phase,
    event: ResolveEvent,
    next: Phase,
    action: ResolveAction,
)
    requires
        steps(wanted, serve_stale, phase, event, next, action),
    ensures
        steps_left(next) < steps_left(phase),
        action is Reply <==> next == Phase::Done,
{
}

/// A cached project that has what is wanted answers alone: no fan-out follows, and
/// the cache stays as it is.
pub proof fn law_cache_hit_asks_one_project(
    wanted: Wanted,
    serve_stale: bool,
    project: String,
    response: Arc<ResolveResult>,
    fetching: Phase,
    fetch: ResolveAction,
    done: Phase,
    reply: ResolveAction,
    recalled: Map<Seq<char>, Seq<char>>,
)
    requires
        response.status == 200,
        steps(
            wanted,
            serve_stale,
            Phase::Looking,
            (ResolveEvent::Cached { project: Some(project) }),
            fetching,
            fetch,
        ),
        steps(
            wanted,
            serve_stale,
            fetching,
            (ResolveEvent::Fetched { outcome: Ok(response) }),
            done,
            reply,
        ),
    ensures
        fetch == (ResolveAction::Fetch { project }),
        done == Phase::Done,
        reply == (ResolveAction::Reply {
            label: ResolveLabel::Hit,
            result: Ok(response),
            refresh: false,
        }),
        performed(reply, performed(fetch, recalled)) == recalled,
{
}

/// A cached project that does not have what is wanted any more, fresh or stale, is
/// forgotten before the fan-out.
pub proof fn law_stale_entry_is_forgotten(
    wanted: Wanted,
    serve_stale: bool,
    fetching: Phase,
    outcome: Result<Arc<ResolveResult>, FetchError>,
    evicting: Phase,
    evict: ResolveAction,
    flying: Phase,
    fly: ResolveAction,
    recalled: Map<Seq<char>, Seq<char>>,
)
    requires
        fetching == Phase::Fetching || fetching == Phase::Revalidating,
        !has_it(outcome),
        steps(
            wanted,
            serve_stale,
            fetching,
            (ResolveEvent::Fetched { outcome }),
            evicting,
            evict,
        ),
        steps(wanted, serve_stale, evicting, ResolveEvent::Evicted, flying, fly),
    ensures
        performed(evict, recalled) == recalled.remove(wanted_key(wanted)),
        flying == Phase::Flying,
        fly matches ResolveAction::Fly { key } && key@ == wanted_key(wanted),
{
}

/// An entry that has left the cache a short while ago is served without a fan-out,
/// is in the cache again, and is looked for again in the background.
pub proof fn law_stale_entry_is_served_and_refreshed(
    wanted: Wanted,
    project: String,
    response: Arc<ResolveResult>,
    reviving: Phase,
    lookup: ResolveAction,
    revalidating: Phase,
    fetch: ResolveAction,
    first: Phase,
    store: ResolveAction,
    second: Phase,
    store_image: ResolveAction,
    done: Phase,
    reply: ResolveAction,
    recalled: Map<Seq<char>, Seq<char>>,
)
    requires
        wanted.item == Item::Manifest,
        response.status == 200,
        steps(
            wanted,
            true,
            Phase::Looking,
            (ResolveEvent::Cached { project: None }),
            reviving,
            lookup,
        ),
        steps(
            wanted,
            true,
            reviving,
            (ResolveEvent::Revived { project: Some(project) }),
            revalidating,
            fetch,
        ),
        steps(
            wanted,
            true,
            revalidating,
            (ResolveEvent::Fetched { outcome: Ok(response) }),
            first,
            store,
        ),
        steps(wanted, true, first, ResolveEvent::Stored, second, store_image),
        steps(wanted, true, second, ResolveEvent::Stored, done, reply),
    ensures
        fetch == (ResolveAction::Fetch { project }),
        !goes_upstream(lookup) && !goes_upstream(store) && !goes_upstream(store_image),
        reply == (ResolveAction::Reply {
            label: ResolveLabel::Hit,
            result: Ok(response),
            refresh: true,
        }),
        is_remembered(
            wanted.image@,
            wanted.reference@,
            response.project@,
            recalled,
            performed(store_image, performed(store, recalled)),
        ),
{
}

/// After a lookup that found nothing, the negative lookup is remembered, and
/// nothing else.
pub proof fn law_negative_lookup_is_remembered(
    wanted: Wanted,
    serve_stale: bool,
    error: ResolveError,
    storing: Phase,
    store: ResolveAction,
    done: Phase,
    reply: ResolveAction,
    recalled: Map<Seq<char>, Seq<char>>,
)
    requires
        error is NotFound,
        steps(
            wanted,
            serve_stale,
            Phase::Flying,
            (ResolveEvent::Flown { result: Err(error) }),
            storing,
            store,
        ),
        steps(wanted, serve_stale, storing, ResolveEvent::Stored, done, reply),
    ensures
        store matches ResolveAction::StoreMissing { key } && key@ == wanted_key(wanted),
        performed(reply, performed(store, recalled)) == recalled,
        fails(error, done, reply),
{
}

/// As long as a negative lookup is remembered, a lookup that the cache does not
/// answer ends with the error, and nothing is sent to any project.
pub proof fn law_remembered_negative_lookup_sends_nothing(
    wanted: Wanted,
    serve_stale: bool,
    looking: Phase,
    lookup: ResolveAction,
    missed: Phase,
    second: ResolveAction,
    doubting: Phase,
    doubt: ResolveAction,
    done: Phase,
    reply: ResolveAction,
)
    requires
        steps(wanted, serve_stale, Phase::Start, ResolveEvent::Started, looking, lookup),
        steps(
            wanted,
            serve_stale,
            looking,
            (ResolveEvent::Cached { project: None }),
            missed,
            second,
        ),
        if serve_stale {
            steps(
                wanted,
                serve_stale,
                missed,
                (ResolveEvent::Revived { project: None }),
                doubting,
                doubt,
            )
        } else {
            doubting == missed && doubt == second
        },
        steps(
            wanted,
            serve_stale,
            doubting,
            (ResolveEvent::Doubted { missing: true }),
            done,
            reply,
        ),
    ensures
        doubt matches ResolveAction::LookupMissing { key } && key@ == wanted_key(wanted),
        !goes_upstream(lookup) && !goes_upstream(second) && !goes_upstream(doubt) && !goes_upstream(
            reply,
        ),
        fails(ResolveError::NotFound { wanted }, done, reply),
{
}

/// After a write, `after` holds `project` for the manifest and for the image, and
/// nothing else has changed: what the cache then knows of the image is `project`
/// or nothing.
pub open spec fn is_remembered(
    image: Seq<char>,
    reference: Seq<char>,
    project: Seq<char>,
    before: Map<Seq<char>, Seq<char>>,
    after: Map<Seq<char>, Seq<char>>,
) -> bool {
    &&& after.contains_key(manifest_key(image, reference))
    &&& after[manifest_key(image, reference)] == project
    &&& after.contains_key(image_key(image))
    &&& after[image_key(image)] == project
    &&& forall|key: Seq<char>|
        key != manifest_key(image, reference) && key != image_key(image) ==> (
        #[trigger] after.contains_key(key) == before.contains_key(key) && (before.contains_key(key)
            ==> after[key] == before[key]))
}

/// A manifest that the cache does not know and that is resolved by a fan-out has
/// status 200. Its project is remembered for the manifest and for the image, and
/// nothing else changes. From then on the cache gives this project, or nothing,
/// for the manifest and for every digest of the image without an entry of its own,
/// and the next resolution asks this project first where the cache answers.
pub proof fn law_resolved_manifest_is_remembered(
    outcomes: Seq<Outcome>,
    complete: bool,
    wanted: Wanted,
    serve_stale: bool,
    result: Arc<ResolveResult>,
    first: Phase,
    store: ResolveAction,
    second: Phase,
    store_image: ResolveAction,
    done: Phase,
    reply: ResolveAction,
    recalled: Map<Seq<char>, Seq<char>>,
    digest: Seq<char>,
    known: Option<Seq<char>>,
    again: String,
    fetching: Phase,
    fetch: ResolveAction,
)
    requires
        wanted.item == Item::Manifest,
        is_selection(outcomes, complete, wanted, Ok(*result)),
        steps(
            wanted,
            serve_stale,
            Phase::Flying,
            (ResolveEvent::Flown { result: Ok(result) }),
            first,
            store,
        ),
        steps(wanted, serve_stale, first, ResolveEvent::Stored, second, store_image),
        steps(wanted, serve_stale, second, ResolveEvent::Stored, done, reply),
    ensures
        result.status == 200,
        reply == (ResolveAction::Reply {
            label: ResolveLabel::Miss,
            result: Ok(result),
            refresh: false,
        }),
        ({
            let after = performed(store_image, performed(store, recalled));
            let project = result.project@;
            &&& is_remembered(wanted.image@, wanted.reference@, project, recalled, after)
            &&& is_cached_project(after, wanted.image@, wanted.reference@, known) ==> (known is None
                || known == Some(project))
            &&& !recalled.contains_key(manifest_key(wanted.image@, digest)) && is_cached_project(
                after,
                wanted.image@,
                digest,
                known,
            ) ==> (known is None || known == Some(project))
            &&& cache::may_answer(after, wanted_key(wanted), Some(again@)) && steps(
                wanted,
                serve_stale,
                Phase::Looking,
                (ResolveEvent::Cached { project: Some(again) }),
                fetching,
                fetch,
            ) ==> again@ == project && fetch == (ResolveAction::Fetch { project: again })
        }),
{
    lemma_found_has_status(outcomes);
}

proof fn lemma_found_has_status(outcomes: Seq<Outcome>)
    ensures
        first_found(outcomes) matches Some(r) ==> r.status == 200,
    decreases outcomes.len(),
{
    if outcomes.len() > 0 && !found(outcomes[0]) {
        lemma_found_has_status(outcomes.drop_first());
    }
}

/// A list of tags that is resolved by a fan-out has status 200, and its project is
/// remembered for it, and for nothing else.
pub proof fn law_resolved_tags_are_remembered(
    outcomes: Seq<Outcome>,
    complete: bool,
    wanted: Wanted,
    serve_stale: bool,
    result: Arc<ResolveResult>,
    first: Phase,
    store: ResolveAction,
    done: Phase,
    reply: ResolveAction,
    recalled: Map<Seq<char>, Seq<char>>,
)
    requires
        wanted.item == Item::Tags,
        is_selection(outcomes, complete, wanted, Ok(*result)),
        steps(
            wanted,
            serve_stale,
            Phase::Flying,
            (ResolveEvent::Flown { result: Ok(result) }),
            first,
            store,
        ),
        steps(wanted, serve_stale, first, ResolveEvent::Stored, done, reply),
    ensures
        result.status == 200,
        reply == (ResolveAction::Reply {
            label: ResolveLabel::Miss,
            result: Ok(result),
            refresh: false,
        }),
        performed(reply, performed(store, recalled)) == recalled.insert(
            wanted_key(wanted),
            result.project@,
        ),
{
    lemma_found_has_status(outcomes);
}

} // verus!
