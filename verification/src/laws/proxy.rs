//! Answering registry requests.

use bytes::Bytes;
use http::HeaderMap;
use std::sync::Arc;
use vstd::prelude::*;
use vstd::utf8::*;

use crate::headers;
use crate::laws::discovery as names;
use crate::laws::headers as fields;
use crate::laws::resolver as requests;
use crate::laws::text::{holds, lemma_holds};
use crate::proxy;
use crate::proxy::{
    build_response, can_split, checked_handle_manifest, checked_path_remainder,
    checked_relay_blob, error_response, handle_manifest, health_status, logging_middleware,
    parse_path, parse_tags_path, path_remainder, probe_failure, probe_label, rate_limited,
    relay_blob, sanitize_log_field, v2_check, AccessEntry, AppState, BlobReply, BlobStep, LogLevel,
    PathError, PathKind, Reply, ReplyBody, RequestType, Route,
};
use crate::resolver::{Item, ResolveError, ResolveResult, Resolver, UpstreamRequest};
use crate::text;

verus! {

/// The separator of the kind.
pub open spec fn separator(kind: PathKind) -> Seq<char> {
    match kind {
        PathKind::Manifests => "/manifests/"@,
        PathKind::Blobs => "/blobs/"@,
    }
}

/// What a path is taken apart into is what it is made of: the image, the separator and
/// the reference, neither of them empty. It is cut at the last separator, and a path
/// that holds `/manifests/` asks for a manifest. No kind is found exactly where the path
/// holds neither separator.
pub proof fn law_path_is_made_of_its_parts(
    path: &str,
    r: Result<(&str, PathKind, &str), PathError>,
)
    requires
        call_ensures(parse_path, (path,), r),
    ensures
        r matches Ok((image, kind, reference)) ==> {
            &&& path@ == image@ + separator(kind) + reference@
            &&& image@.len() > 0
            &&& reference@.len() > 0
            &&& !holds(separator(kind).drop_first() + reference@, separator(kind))
            &&& kind == PathKind::Blobs ==> !holds(path@, "/manifests/"@)
        },
        r == Err::<(&str, PathKind, &str), PathError>(PathError::NoKind) <==> !holds(
            path@,
            "/manifests/"@,
        ) && !holds(path@, "/blobs/"@),
{
    let s = path@;
    reveal_strlit("/manifests/");
    reveal_strlit("/blobs/");
    lemma_holds(s, "/manifests/"@);
    lemma_holds(s, "/blobs/"@);
    text::lemma_last_match(s, "/manifests/"@);
    text::lemma_last_match(s, "/blobs/"@);
    if let Ok((image, kind, reference)) = r {
        let pattern = separator(kind);
        let i = text::last_match(s, pattern)->0;
        assert(image@ == s.take(i));
        assert(reference@ == s.skip(i + pattern.len()));
        assert(s =~= image@ + pattern + reference@);
        let tail = pattern.drop_first() + reference@;
        lemma_holds(tail, pattern);
        if text::occurs(tail, pattern) {
            let k = choose|k: int| text::matches_at(tail, pattern, k);
            assert(s.subrange(i + 1 + k, i + 1 + k + pattern.len()) =~= tail.subrange(
                k,
                k + pattern.len(),
            ));
            assert(text::matches_at(s, pattern, i + 1 + k));
        }
    }
}

/// The path of a manifest or a blob is taken apart into its image and its reference,
/// whatever they are, as long as no further separator begins behind the first
/// character of the one between them, and the path of a blob holds no `/manifests/`.
/// Where the image or the reference is missing, that is said.
pub proof fn law_parts_are_found_in_their_path(
    path: &str,
    image: Seq<char>,
    kind: PathKind,
    reference: Seq<char>,
    r: Result<(&str, PathKind, &str), PathError>,
)
    requires
        path@ == image + separator(kind) + reference,
        !holds(separator(kind).drop_first() + reference, separator(kind)),
        kind == PathKind::Blobs ==> !holds(path@, "/manifests/"@),
        call_ensures(parse_path, (path,), r),
    ensures
        image.len() > 0 && reference.len() > 0 ==> (r matches Ok((i, k, f)) && i@ == image && k
            == kind && f@ == reference),
        image.len() == 0 || reference.len() == 0 ==> r == Err::<(&str, PathKind, &str), PathError>(
            PathError::MissingPart,
        ),
{
    let s = path@;
    let pattern = separator(kind);
    reveal_strlit("/manifests/");
    reveal_strlit("/blobs/");
    lemma_holds(s, "/manifests/"@);
    text::lemma_last_match(s, "/manifests/"@);
    let tail = pattern.drop_first() + reference;
    lemma_holds(tail, pattern);
    let at = image.len() as int;
    assert(s.take(at) =~= image);
    assert(s.skip(at + pattern.len()) =~= reference);
    assert(s.subrange(at, at + pattern.len()) =~= pattern);
    assert forall|j: int| at < j implies !text::matches_at(s, pattern, j) by {
        if text::matches_at(s, pattern, j) {
            let k = j - at - 1;
            assert(tail.subrange(k, k + pattern.len()) =~= s.subrange(j, j + pattern.len()));
            assert(text::matches_at(tail, pattern, k));
        }
    }
    text::lemma_last_match_unique(s, pattern, at);
}

/// A path asks for the list of tags of an image exactly where it is the image, which is
/// not empty, with `/tags/list` behind it.
pub proof fn law_tags_path_is_the_image_and_its_suffix(
    path: &str,
    r: Option<&str>,
    image: Seq<char>,
)
    requires
        call_ensures(parse_tags_path, (path,), r),
    ensures
        r matches Some(i) ==> i@.len() > 0 && path@ == i@ + "/tags/list"@,
        image.len() > 0 && path@ == image + "/tags/list"@ ==> (r matches Some(i) && i@ == image),
{
    reveal_strlit("/tags/list");
    let s = path@;
    let at = s.len() - "/tags/list"@.len();
    if let Some(i) = r {
        assert(i@ == s.take(at));
        assert(s =~= i@ + "/tags/list"@);
    }
    if image.len() > 0 && s == image + "/tags/list"@ {
        assert(s.subrange(at, at + "/tags/list"@.len()) =~= "/tags/list"@);
        assert(s.take(at) =~= image);
    }
}

/// What stands behind the project is found in every path under it. In general a path is
/// cut behind as many bytes as `/v2/`, the project and a slash have, and a path that is
/// not longer stays whole; where a character spans the cut, it can not be cut.
pub proof fn law_path_is_cut_behind_the_project(
    path: &str,
    project: &str,
    rest: &str,
    checked: Option<&str>,
    can: bool,
    wanted: Seq<char>,
    front: Seq<char>,
)
    requires
        call_ensures(can_split, (path, project), can),
        call_ensures(checked_path_remainder, (path, project), checked),
        can ==> call_ensures(path_remainder, (path, project), rest),
    ensures
        can <==> checked is Some,
        checked matches Some(c) ==> c@ == rest@,
        can ==> call_requires(path_remainder, (path, project)),
        wanted.len() > 0 && path@ == "/v2/"@ + project@ + "/"@ + wanted ==> can && rest@ == wanted,
        path@ == front + wanted && wanted.len() > 0 && encode_utf8(front).len() == 5 + encode_utf8(
            project@,
        ).len() ==> can && rest@ == wanted,
        encode_utf8(path@).len() <= 5 + encode_utf8(project@).len() ==> can && rest@ == path@,
        can && encode_utf8(path@).len() > 5 + encode_utf8(project@).len() ==> exists|f: Seq<char>|
            path@ == #[trigger] (f + rest@) && encode_utf8(f).len() == 5 + encode_utf8(
                project@,
            ).len(),
{
    let s = path@;
    let bytes = encode_utf8(s);
    let n = proxy::prefix_len(project@) as int;
    encode_utf8_valid_utf8(s);
    if wanted.len() > 0 && s == "/v2/"@ + project@ + "/"@ + wanted {
        proxy::law_remainder_is_what_follows_the_project(project@, wanted);
    }
    if s == front + wanted && wanted.len() > 0 && encode_utf8(front).len() == n {
        proxy::lemma_encode_concat(front, wanted);
        proxy::lemma_boundary_between(front, wanted);
        encode_utf8_first_scalar(wanted);
        assert(bytes.subrange(n, bytes.len() as int) =~= encode_utf8(wanted));
        encode_utf8_decode_utf8(wanted);
    }
    if can && bytes.len() > n {
        valid_utf8_split(bytes, n);
        decode_utf8_split(bytes, n);
        encode_utf8_decode_utf8(s);
        let f = decode_utf8(bytes.subrange(0, n));
        decode_utf8_encode_utf8(bytes.subrange(0, n));
        assert(s == f + rest@);
    }
}

/// `reply` is an error in JSON with this status, code and message.
pub open spec fn reports(reply: Reply, status: int, code: Seq<char>, message: Seq<char>) -> bool {
    &&& reply.status == status
    &&& headers::fields_of(reply.headers) == Map::<Seq<u8>, Seq<Seq<u8>>>::empty().insert(
        encode_utf8("content-type"@),
        seq![encode_utf8("application/json"@)],
    )
    &&& reply.body matches ReplyBody::Text(body) && body@ == "{\"errors\":[{\"code\":\""@ + code
        + "\",\"message\":\""@ + message + "\"}]}"@
}

/// The answers that the router gives by itself.
pub proof fn law_own_answers(
    status: u16,
    code: &str,
    message: &str,
    error: Reply,
    limited: Reply,
    version: Reply,
    projects: Vec<String>,
    health: u16,
    e: PathError,
    said: &'static str,
)
    requires
        call_ensures(error_response, (status, code, message), error),
        call_ensures(rate_limited, (), limited),
        call_ensures(v2_check, (), version),
        call_ensures(health_status, (&projects,), health),
        call_ensures(PathError::message, (e,), said),
    ensures
        reports(error, status as int, code@, message@),
        reports(limited, 429, "TOOMANYREQUESTS"@, "rate limit exceeded"@),
        version.status == 200,
        headers::fields_of(version.headers) == Map::<Seq<u8>, Seq<Seq<u8>>>::empty().insert(
            encode_utf8("docker-distribution-api-version"@),
            seq![encode_utf8("registry/2.0"@)],
        ),
        version.body is Empty,
        projects@.len() == 0 ==> health == 503,
        projects@.len() > 0 ==> health == 200,
        said@ == (if e == PathError::NoKind {
            "path must contain /manifests/ or /blobs/"@
        } else {
            "invalid path: missing image or reference"@
        }),
{
    fields::lemma_known_names();
}

/// What a request asks for goes by what stands behind the project in its path: with
/// `GET` and the path of a list of tags it is that list, and otherwise what the path is
/// taken apart into, or a refusal.
pub proof fn law_requests_are_routed_by_their_path(
    state: AppState,
    method: &str,
    path: &str,
    sent: HeaderMap,
    project: &str,
    rest: &str,
    tags: Option<&str>,
    parts: Result<(&str, PathKind, &str), PathError>,
    said: &'static str,
    route: Route,
    checked: Option<Route>,
    can: bool,
)
    requires
        project@ == state.proxy_project@,
        call_ensures(can_split, (path, project), can),
        can ==> call_ensures(path_remainder, (path, project), rest),
        call_ensures(parse_tags_path, (rest,), tags),
        call_ensures(parse_path, (rest,), parts),
        parts is Err ==> call_ensures(PathError::message, (parts->Err_0,), said),
        call_ensures(AppState::checked_registry_handler, (&state, method, path, &sent), checked),
        can ==> call_ensures(AppState::registry_handler, (&state, method, path, &sent), route) || (
        checked == Some(route)),
    ensures
        can <==> checked is Some,
        can ==> call_requires(AppState::registry_handler, (&state, method, path, &sent)),
        can && method@ == "GET"@ && tags is Some ==> (route matches Route::Tags { image, .. }
            && image@ == tags->0@),
        can && (method@ != "GET"@ || tags is None) ==> (match parts {
            Ok((image, PathKind::Manifests, reference)) => route matches Route::Manifest {
                image: i,
                reference: r,
                ..
            } && i@ == image@ && r@ == reference@,
            Ok((image, PathKind::Blobs, digest)) => route matches Route::Blob {
                image: i,
                digest: d,
                ..
            } && i@ == image@ && d@ == digest@,
            Err(_) => route matches Route::Refused(reply) && reports(
                reply,
                400,
                "UNSUPPORTED"@,
                said@,
            ),
        }),
{
    fields::lemma_known_names();
}

/// The authorization that goes with a route.
pub open spec fn authorization_in(route: Route) -> Option<String> {
    match route {
        Route::Manifest { auth, .. } => auth,
        Route::Tags { auth, .. } => auth,
        Route::Blob { auth, .. } => auth,
        Route::Refused(_) => None,
    }
}

/// Whatever a request asks for, a manifest, a blob or a list of tags, the client's
/// authorization goes with it: the first value of the header, where it can be read. So
/// do the media types that it accepts, for manifests and lists of tags.
pub proof fn law_authorization_is_passed_on(
    state: AppState,
    method: &str,
    path: &str,
    sent: HeaderMap,
    route: Route,
)
    requires
        call_ensures(AppState::registry_handler, (&state, method, path, &sent), route)
            || call_ensures(
            AppState::checked_registry_handler,
            (&state, method, path, &sent),
            Some(route),
        ),
    ensures
        route !is Refused ==> fields::is_first_at(
            authorization_in(route),
            headers::fields_of(sent),
            encode_utf8("authorization"@),
        ),
        route matches Route::Manifest { accept, .. } ==> fields::are_all_at(
            accept@,
            headers::fields_of(sent),
            encode_utf8("accept"@),
        ),
        route matches Route::Tags { accept, .. } ==> fields::are_all_at(
            accept@,
            headers::fields_of(sent),
            encode_utf8("accept"@),
        ),
{
    fields::lemma_known_names();
    let came = headers::fields_of(sent);
    if route !is Refused {
        fields::lemma_first_at(authorization_in(route), came, encode_utf8("authorization"@));
    }
    match route {
        Route::Manifest { accept, .. } => {
            fields::lemma_all_at(accept@, came, encode_utf8("accept"@));
        },
        Route::Tags { accept, .. } => {
            fields::lemma_all_at(accept@, came, encode_utf8("accept"@));
        },
        _ => {},
    }
}

/// One readable authorization, sent with a request for a manifest, a blob or a list of
/// tags, goes with what the request asks for, letter for letter.
pub proof fn law_one_authorization_goes_along(
    state: AppState,
    method: &str,
    path: &str,
    sent: HeaderMap,
    route: Route,
    value: Seq<u8>,
)
    requires
        call_ensures(AppState::registry_handler, (&state, method, path, &sent), route),
        route !is Refused,
        headers::fields_of(sent).contains_key(encode_utf8("authorization"@)),
        headers::fields_of(sent)[encode_utf8("authorization"@)] == seq![value],
        forall|i: int| 0 <= i < value.len() ==> 32 <= #[trigger] value[i] <= 126 || value[i] == 9,
    ensures
        ({
            let auth = match route {
                Route::Manifest { auth, .. } => auth,
                Route::Tags { auth, .. } => auth,
                Route::Blob { auth, .. } => auth,
                Route::Refused(_) => None,
            };
            &&& auth is Some
            &&& auth->0@.len() == value.len()
            &&& forall|i: int| 0 <= i < value.len() ==> #[trigger] auth->0@[i] as int == value[i]
        }),
{
    law_authorization_is_passed_on(state, method, path, sent, route);
    assert(fields::readable(value));
}

/// `request` asks `project` for the blob, with the client's authorization and nothing
/// else.
pub open spec fn asks_for_blob(
    request: UpstreamRequest,
    harbor_url: Seq<char>,
    project: Seq<char>,
    image: &str,
    digest: &str,
    auth: Option<&str>,
) -> bool {
    &&& request.project@ == project
    &&& request.url@ == harbor_url + "/v2/"@ + project + "/"@ + image@ + "/blobs/"@ + digest@
    &&& requests::carries(request.headers@, auth, Seq::<String>::empty())
}

proof fn lemma_blob_request(
    request: UpstreamRequest,
    harbor_url: Seq<char>,
    project: Seq<char>,
    image: &str,
    digest: &str,
    auth: Option<&str>,
)
    requires
        proxy::is_blob_request(request, harbor_url, project, image@, digest@, text::opt_text(auth)),
    ensures
        asks_for_blob(request, harbor_url, project, image, digest, auth),
{
    assert(text::views(Seq::<String>::empty()) =~= Seq::<Seq<char>>::empty());
    requests::lemma_carries(request.headers@, auth, Seq::<String>::empty());
}

/// The blob is asked for at `project`, unless its name would change the meaning of the
/// URL: that is an error of the router.
pub open spec fn is_taken_from(
    step: BlobStep,
    state: AppState,
    project: Seq<char>,
    image: &str,
    digest: &str,
    auth: Option<&str>,
) -> bool {
    if names::one_segment(project) {
        step matches BlobStep::Proxy(request) && asks_for_blob(
            request,
            state.harbor_url@,
            project,
            image,
            digest,
            auth,
        )
    } else {
        step matches BlobStep::Answer(reply) && reports(
            reply,
            500,
            "BLOB_UNKNOWN"@,
            "internal routing error"@,
        )
    }
}

proof fn lemma_takes_from(
    step: BlobStep,
    state: AppState,
    project: Seq<char>,
    image: &str,
    digest: &str,
    auth: Option<&str>,
)
    requires
        proxy::takes_from(
            step,
            state.harbor_url@,
            project,
            image@,
            digest@,
            text::opt_text(auth),
        ),
    ensures
        is_taken_from(step, state, project, image, digest, auth),
{
    fields::lemma_known_names();
    names::lemma_one_segment(project);
    if let BlobStep::Proxy(request) = step {
        lemma_blob_request(request, state.harbor_url@, project, image, digest, auth);
    }
}

proof fn lemma_first_holder(answers: Seq<(String, Option<u16>)>, at: int)
    requires
        0 <= at < answers.len(),
        proxy::holds_blob(answers[at].1),
        forall|j: int| 0 <= j < at ==> !proxy::holds_blob((#[trigger] answers[j]).1),
    ensures
        proxy::first_holder(answers) == Some(answers[at].0@),
    decreases answers.len(),
{
    if at > 0 {
        assert(!proxy::holds_blob(answers[0].1));
        let rest = answers.drop_first();
        assert forall|j: int| 0 <= j < at - 1 implies !proxy::holds_blob(
            (#[trigger] rest[j]).1,
        ) by {
            assert(rest[j] == answers[j + 1]);
        }
        lemma_first_holder(rest, at - 1);
    }
}

proof fn lemma_no_holder(answers: Seq<(String, Option<u16>)>)
    requires
        forall|j: int| 0 <= j < answers.len() ==> !proxy::holds_blob((#[trigger] answers[j]).1),
    ensures
        proxy::first_holder(answers) is None,
    decreases answers.len(),
{
    if answers.len() > 0 {
        assert(!proxy::holds_blob(answers[0].1));
        let rest = answers.drop_first();
        assert forall|j: int| 0 <= j < rest.len() implies !proxy::holds_blob(
            (#[trigger] rest[j]).1,
        ) by {
            assert(rest[j] == answers[j + 1]);
        }
        lemma_no_holder(rest);
    }
}

/// A blob is taken from the first project that answered 200 or 307, whichever of the
/// two it is, and whatever the projects behind it answered.
pub proof fn law_blob_is_taken_from_the_first_that_has_it(
    state: AppState,
    answers: Vec<(String, Option<u16>)>,
    at: int,
    image: &str,
    digest: &str,
    auth: Option<&str>,
    step: BlobStep,
)
    requires
        call_ensures(
            AppState::probe_blob_project,
            (&state, &answers, image, digest, auth),
            step,
        ),
        0 <= at < answers@.len(),
        answers@[at].1 == Some(200u16) || answers@[at].1 == Some(307u16),
        forall|j: int|
            0 <= j < at ==> (#[trigger] answers@[j]).1 != Some(200u16) && answers@[j].1 != Some(
                307u16,
            ),
    ensures
        is_taken_from(step, state, answers@[at].0@, image, digest, auth),
{
    lemma_first_holder(answers@, at);
    lemma_takes_from(step, state, answers@[at].0@, image, digest, auth);
}

/// A blob for which no project answered 200 or 307 is not found.
pub proof fn law_blob_that_no_project_has_is_unknown(
    state: AppState,
    answers: Vec<(String, Option<u16>)>,
    image: &str,
    digest: &str,
    auth: Option<&str>,
    step: BlobStep,
    label: &'static str,
)
    requires
        call_ensures(
            AppState::probe_blob_project,
            (&state, &answers, image, digest, auth),
            step,
        ),
        forall|j: int|
            0 <= j < answers@.len() ==> (#[trigger] answers@[j]).1 != Some(200u16) && answers@[j].1
                != Some(307u16),
        call_ensures(probe_label, (&step,), label),
    ensures
        step matches BlobStep::Answer(reply) && reports(
            reply,
            404,
            "BLOB_UNKNOWN"@,
            "requested blob not found"@,
        ),
        label@ == "error"@,
{
    fields::lemma_known_names();
    lemma_no_holder(answers@);
}

/// A blob is taken from the project that the cache knows. Where it knows none, each
/// project is asked for it, in order; where there are none, it is not found.
pub proof fn law_blob_is_taken_from_the_cached_project(
    state: AppState,
    cached: Option<String>,
    projects: Vec<String>,
    image: &str,
    digest: &str,
    auth: Option<&str>,
    step: BlobStep,
)
    requires
        call_ensures(
            AppState::handle_blob,
            (&state, cached, &projects, image, digest, auth),
            step,
        ),
    ensures
        cached matches Some(project) ==> is_taken_from(step, state, project@, image, digest, auth),
        cached is None && projects@.len() > 0 ==> (step matches BlobStep::Probe(asked)
            && asked@.len() == projects@.len() && forall|i: int|
            0 <= i < asked@.len() ==> asks_for_blob(
                #[trigger] asked@[i],
                state.harbor_url@,
                projects@[i]@,
                image,
                digest,
                auth,
            )),
        cached is None && projects@.len() == 0 ==> (step matches BlobStep::Answer(reply)
            && reports(reply, 404, "BLOB_UNKNOWN"@, "requested blob not found"@)),
{
    fields::lemma_known_names();
    if let Some(project) = cached {
        lemma_takes_from(step, state, project@, image, digest, auth);
    } else if let BlobStep::Probe(asked) = step {
        assert forall|i: int| 0 <= i < asked@.len() && projects@.len() > 0 implies asks_for_blob(
            #[trigger] asked@[i],
            state.harbor_url@,
            projects@[i]@,
            image,
            digest,
            auth,
        ) by {
            lemma_blob_request(
                asked@[i],
                state.harbor_url@,
                projects@[i]@,
                image,
                digest,
                auth,
            );
        }
    }
}

/// One project is asked for a blob under its own name, with the client's authorization.
pub proof fn law_one_project_is_asked_for_a_blob(
    state: AppState,
    project: &str,
    image: &str,
    digest: &str,
    auth: Option<&str>,
    request: UpstreamRequest,
    step: BlobStep,
)
    requires
        call_ensures(AppState::blob_request, (&state, project, image, digest, auth), request),
        call_ensures(AppState::proxy_blob, (&state, project, image, digest, auth), step),
    ensures
        asks_for_blob(request, state.harbor_url@, project@, image, digest, auth),
        is_taken_from(step, state, project@, image, digest, auth),
{
    lemma_blob_request(request, state.harbor_url@, project@, image, digest, auth);
    lemma_takes_from(step, state, project@, image, digest, auth);
}

/// How a search for a blob ended, for the metrics and the log.
pub proof fn law_searches_are_labelled(
    step: BlobStep,
    label: &'static str,
    asked: usize,
    image: &str,
    digest: &str,
    said: String,
)
    requires
        call_ensures(probe_label, (&step,), label),
        call_ensures(probe_failure, (asked, image, digest), said),
    ensures
        step is Proxy || step is Probe ==> label@ == "fallback"@,
        step matches BlobStep::Answer(reply) ==> label@ == (if reply.status == 404 {
            "error"@
        } else {
            "fallback"@
        }),
        asked == 0 ==> said@ == "no proxy-cache projects discovered"@,
        asked > 0 ==> said@ == "blob "@ + image@ + "/"@ + digest@ + " not found in any project"@,
        proxy::PROBE_TIMEOUT_MS == 5_000,
{
}

/// The headers of the answer are those that are passed on of what the project sent, and
/// the status is the project's, or `fallback` where it sent none of three digits.
pub open spec fn passes_on(reply: Reply, status: u16, sent: HeaderMap, fallback: u16) -> bool {
    &&& 100 <= status <= 999 ==> reply.status == status
    &&& status < 100 || status > 999 ==> reply.status == fallback
    &&& fields::are_passed_on(headers::fields_of(sent), headers::fields_of(reply.headers))
}

spec fn fields_found(result: Result<Arc<ResolveResult>, ResolveError>) -> Map<
    Seq<u8>,
    Seq<Seq<u8>>,
> {
    headers::fields_of(result->Ok_0.headers)
}

/// What a project sent is passed on: its status, its headers and its body.
pub proof fn law_manifest_is_passed_on(
    item: Item,
    result: Result<Arc<ResolveResult>, ResolveError>,
    reply: Reply,
    checked: Option<Reply>,
    status: u16,
    sent: HeaderMap,
    body: Bytes,
    built: Reply,
)
    requires
        call_ensures(handle_manifest, (item, &result), reply),
        call_ensures(checked_handle_manifest, (item, &result), checked),
        call_ensures(build_response, (status, &sent, body), built),
    ensures
        result matches Ok(found) ==> {
            &&& passes_on(reply, found.status, found.headers, 500)
            &&& reply.body matches ReplyBody::Copied(b) && headers::bytes_in(b)
                == headers::bytes_in(found.body)
        },
        result is Ok && checked is Some ==> {
            &&& passes_on(checked->0, result->Ok_0.status, result->Ok_0.headers, 500)
            &&& checked->0.body matches ReplyBody::Copied(b) && headers::bytes_in(b)
                == headers::bytes_in(result->Ok_0.body)
        },
        result is Err && item == Item::Manifest ==> reports(
            reply,
            404,
            "MANIFEST_UNKNOWN"@,
            "requested manifest not found"@,
        ),
        result is Err && item == Item::Tags ==> reports(
            reply,
            404,
            "NAME_UNKNOWN"@,
            "requested repository not found"@,
        ),
        result is Err ==> checked is Some && checked->0.status == reply.status
            && headers::fields_of(checked->0.headers) == headers::fields_of(reply.headers)
            && checked->0.body is Text && checked->0.body->Text_0@ == reply.body->Text_0@,
        checked is None ==> result is Ok && headers::fields_of(
            result->Ok_0.headers,
        ).dom().len() > 6_553,
        passes_on(built, status, sent, 500),
        built.body == ReplyBody::Copied(body),
{
    fields::lemma_known_names();
    fields::lemma_are_passed_on(headers::fields_of(sent));
    if result is Ok {
        fields::lemma_are_passed_on(fields_found(result));
    }
}

/// A blob is streamed with the status and the headers that the project sent; a request
/// that failed is an error of the upstream.
pub proof fn law_blob_is_passed_on(upstream: BlobReply, reply: Reply, checked: Option<Reply>)
    requires
        call_ensures(relay_blob, (&upstream,), reply),
        call_ensures(checked_relay_blob, (&upstream,), checked),
    ensures
        upstream is Unanswered ==> reports(reply, 502, "BLOB_UNKNOWN"@, "upstream error"@)
            && checked is Some && reports(
            checked->0,
            502,
            "BLOB_UNKNOWN"@,
            "upstream error"@,
        ),
        upstream matches BlobReply::Answered { status, headers: sent } ==> {
            &&& passes_on(reply, status, sent, 502)
            &&& reply.body is Streamed
            &&& checked matches Some(c) ==> passes_on(c, status, sent, 502) && c.body is Streamed
            &&& checked is None ==> headers::fields_of(sent).dom().len() > 6_553
        },
{
    fields::lemma_known_names();
    if let BlobReply::Answered { status, headers: sent } = upstream {
        fields::lemma_are_passed_on(headers::fields_of(sent));
    }
}

/// The state keeps what it is made of. Its client for blobs keeps up to 256 idle
/// connections for 90 seconds, does not follow redirects, and has a limit on reading
/// only where one is set.
pub proof fn law_state_keeps_its_settings(
    resolver: Resolver,
    harbor_url: String,
    proxy_project: String,
    http2: bool,
    state: AppState,
    timeout_ms: u64,
    limited: AppState,
)
    requires
        call_ensures(AppState::new, (resolver, harbor_url, proxy_project, http2), state),
        call_ensures(AppState::with_blob_read_timeout, (state, timeout_ms), limited),
    ensures
        state.resolver == resolver && limited.resolver == resolver,
        state.harbor_url == harbor_url && limited.harbor_url == harbor_url,
        state.proxy_project == proxy_project && limited.proxy_project == proxy_project,
        state.blob_client.max_idle_per_host == 256 && limited.blob_client.max_idle_per_host == 256,
        state.blob_client.idle_timeout_ms == 90_000 && limited.blob_client.idle_timeout_ms
            == 90_000,
        state.blob_client.keepalive_ms == 30_000 && limited.blob_client.keepalive_ms == 30_000,
        state.blob_client.nodelay && limited.blob_client.nodelay,
        state.blob_client.connect_timeout_ms == 5_000 && limited.blob_client.connect_timeout_ms
            == 5_000,
        !state.blob_client.follow_redirects && !limited.blob_client.follow_redirects,
        state.blob_client.http2_prior_knowledge == http2
            && limited.blob_client.http2_prior_knowledge == http2,
        state.blob_client.read_timeout_ms is None,
        limited.blob_client.read_timeout_ms == Some(timeout_ms),
{
}

/// A field of the log is the front of the field, as much of it as fits in 512 bytes,
/// with a blank for each control character.
pub proof fn law_logged_field_is_the_front_of_the_field(field: &str, r: String)
    requires
        call_ensures(sanitize_log_field, (field,), r),
    ensures
        r@.len() <= field@.len(),
        forall|i: int|
            0 <= i < r@.len() ==> #[trigger] r@[i] == (if field@[i] <= '\u{1f}' || '\u{7f}'
                <= field@[i] <= '\u{9f}' {
                ' '
            } else {
                field@[i]
            }),
        encode_utf8(field@.take(r@.len() as int)).len() <= 512,
        r@.len() < field@.len() ==> encode_utf8(field@.take(r@.len() as int + 1)).len() > 512,
{
    let s = field@;
    let bytes = encode_utf8(s);
    let kept = proxy::truncated(s);
    proxy::law_logged_field_is_bounded(s);
    assert(r@.len() == kept.len());
    assert forall|i: int| 0 <= i < r@.len() implies #[trigger] r@[i] == (if s[i] <= '\u{1f}'
        || '\u{7f}' <= s[i] <= '\u{9f}' {
        ' '
    } else {
        s[i]
    }) by {
        assert(kept[i] == s.take(kept.len() as int)[i]);
    }
    encode_utf8_valid_utf8(s);
    if bytes.len() > 512 {
        let end = proxy::boundary_to(bytes, 512);
        proxy::lemma_boundary_to(bytes, 512);
        valid_utf8_split(bytes, end);
        decode_utf8_encode_utf8(bytes.subrange(0, end));
        assert(encode_utf8(kept) == bytes.subrange(0, end));
        if kept.len() < s.len() {
            let more = s.take(kept.len() as int + 1);
            let rest = s.skip(kept.len() as int + 1);
            assert(s =~= more + rest);
            assert(more =~= kept + seq![s[kept.len() as int]]);
            proxy::lemma_encode_concat(more, rest);
            proxy::lemma_boundary_between(more, rest);
            proxy::lemma_encode_concat(kept, seq![s[kept.len() as int]]);
            encode_utf8_first_scalar(seq![s[kept.len() as int]]);
            let wider = encode_utf8(more).len() as int;
            assert(wider > end);
            if wider <= 512 {
                lemma_no_boundary_between(bytes, 512, wider);
            }
        }
    } else {
        assert(kept == s);
        assert(s.take(s.len() as int) =~= s);
    }
}

proof fn lemma_no_boundary_between(bytes: Seq<u8>, bound: int, at: int)
    requires
        0 < at <= bound,
        is_char_boundary(bytes, at),
    ensures
        at <= proxy::boundary_to(bytes, bound),
    decreases bound,
{
    if at < bound && !is_char_boundary(bytes, bound) {
        lemma_no_boundary_between(bytes, bound - 1, at);
    }
}

/// The access log shows the path as a field of the log, and by what it shows the kind of
/// the request: a manifest before a blob, then the version check and the health checks.
/// The class of the status is its first digit. Errors are warnings, and blobs and checks
/// are not worth more than a trace.
pub proof fn law_requests_are_logged_by_kind_and_status(
    path: &str,
    shown: String,
    status: u16,
    entry: AccessEntry,
)
    requires
        call_ensures(sanitize_log_field, (path,), shown),
        call_ensures(logging_middleware, (path, status), entry),
    ensures
        entry.path@ == shown@,
        holds(shown@, "/manifests/"@) ==> entry.req_type == RequestType::Manifest,
        !holds(shown@, "/manifests/"@) && holds(shown@, "/blobs/"@) ==> entry.req_type
            == RequestType::Blob,
        shown@ == "/v2/"@ || shown@ == "/v2"@ ==> entry.req_type == RequestType::VersionCheck,
        shown@ == "/healthz"@ || shown@ == "/readyz"@ ==> entry.req_type == RequestType::Health,
        !holds(shown@, "/manifests/"@) && !holds(shown@, "/blobs/"@) && shown@ != "/v2/"@ && shown@
            != "/v2"@ && shown@ != "/healthz"@ && shown@ != "/readyz"@ ==> entry.req_type
            == RequestType::Other,
        status / 100 == 2 ==> entry.status_class@ == "2xx"@,
        status / 100 == 3 ==> entry.status_class@ == "3xx"@,
        status / 100 == 4 ==> entry.status_class@ == "4xx"@,
        status < 200 || status >= 500 ==> entry.status_class@ == "5xx"@,
        status >= 400 <==> entry.level == LogLevel::Warn,
        status < 400 && (entry.req_type == RequestType::Manifest || entry.req_type
            == RequestType::Other) ==> entry.level == LogLevel::Info,
        status < 400 && (entry.req_type == RequestType::Blob || entry.req_type
            == RequestType::VersionCheck || entry.req_type == RequestType::Health) ==> entry.level
            == LogLevel::Debug,
{
    lemma_holds(shown@, "/manifests/"@);
    lemma_holds(shown@, "/blobs/"@);
    reveal_strlit("/manifests/");
    reveal_strlit("/blobs/");
    reveal_strlit("/v2/");
    reveal_strlit("/v2");
    reveal_strlit("/healthz");
    reveal_strlit("/readyz");
    if text::occurs(shown@, "/manifests/"@) {
        let i = choose|i: int| text::matches_at(shown@, "/manifests/"@, i);
        assert(shown@.len() >= 11);
    }
    if text::occurs(shown@, "/blobs/"@) {
        let i = choose|i: int| text::matches_at(shown@, "/blobs/"@, i);
        assert(shown@.subrange(i, i + 7)[6] == '/');
        assert(shown@.len() >= 7);
        if shown@.len() == 7 {
            assert(shown@[6] == '/');
        } else if shown@.len() == 8 {
            assert(shown@[6] == '/' || shown@[7] == '/');
        }
    }
}

/// The kinds of requests have their texts.
pub proof fn law_kinds_have_their_texts(kind: RequestType, r: &'static str)
    requires
        call_ensures(RequestType::text, (kind,), r),
    ensures
        r@ == (match kind {
            RequestType::Manifest => "manifest"@,
            RequestType::Blob => "blob"@,
            RequestType::VersionCheck => "v2check"@,
            RequestType::Health => "health"@,
            RequestType::Other => "other"@,
        }),
{
}

} // verus!
