//! Answering registry requests.
//!
//! A request under the router's own project is taken apart into image and
//! reference, its manifest or blob is looked for in the proxy-cache projects, and
//! what the project answers is passed on. The functions here decide; who calls
//! them sends the requests that they name and reports back.

use bytes::Bytes;
use http::HeaderMap;
use std::sync::Arc;
use vstd::prelude::*;
use vstd::string::*;
use vstd::utf8::*;

use crate::client;
use crate::client::ClientOptions;
use crate::discovery;
use crate::headers;
use crate::resolver;
use crate::resolver::{Item, ResolveError, ResolveResult, Resolver, UpstreamRequest};
use crate::text;

verus! {

/// What a path asks for.
#[derive(Debug, Clone, Copy, PartialEq, Eq, Structural)]
pub enum PathKind {
    Manifests,
    Blobs,
}

/// Why a path asks for nothing.
#[derive(Debug, Clone, Copy, PartialEq, Eq, Structural)]
pub enum PathError {
    /// Before or behind the kind stands nothing.
    MissingPart,
    /// The path names neither manifests nor blobs.
    NoKind,
}

/// The message of a `PathError`.
pub open spec fn path_message(e: PathError) -> Seq<char> {
    match e {
        PathError::MissingPart => "invalid path: missing image or reference"@,
        PathError::NoKind => "path must contain /manifests/ or /blobs/"@,
    }
}

impl PathError {
    /// The message for the client.
    pub fn message(self) -> (r: &'static str)
        ensures
            r@ == path_message(self),
    {
        match self {
            PathError::MissingPart => "invalid path: missing image or reference",
            PathError::NoKind => "path must contain /manifests/ or /blobs/",
        }
    }
}

/// The image before and the reference behind `width` characters at `i`; neither
/// may be empty.
pub open spec fn cut(path: Seq<char>, i: int, width: nat, kind: PathKind) -> Result<
    (Seq<char>, PathKind, Seq<char>),
    PathError,
> {
    let image = path.take(i);
    let reference = path.skip(i + width);
    if image.len() == 0 || reference.len() == 0 {
        Err(PathError::MissingPart)
    } else {
        Ok((image, kind, reference))
    }
}

/// What a path asks for: it is cut at the last `/manifests/`, or else at the last
/// `/blobs/`.
pub open spec fn parsed(path: Seq<char>) -> Result<(Seq<char>, PathKind, Seq<char>), PathError> {
    match text::last_match(path, "/manifests/"@) {
        Some(i) => cut(path, i, "/manifests/"@.len(), PathKind::Manifests),
        None => match text::last_match(path, "/blobs/"@) {
            Some(i) => cut(path, i, "/blobs/"@.len(), PathKind::Blobs),
            None => Err(PathError::NoKind),
        },
    }
}

/// The texts of a parsed path.
pub open spec fn path_view(r: Result<(&str, PathKind, &str), PathError>) -> Result<
    (Seq<char>, PathKind, Seq<char>),
    PathError,
> {
    match r {
        Ok(parts) => Ok((parts.0@, parts.1, parts.2@)),
        Err(e) => Err(e),
    }
}

/// Takes a path such as `grafana/grafana/manifests/latest` apart into image, kind
/// and reference.
pub fn parse_path(path: &str) -> (r: Result<(&str, PathKind, &str), PathError>)
    ensures
        path_view(r) == parsed(path@),
{
    let chars = text::chars_of(path);
    let manifests = text::chars_of("/manifests/");
    let blobs = text::chars_of("/blobs/");
    proof {
        text::lemma_last_match(path@, "/manifests/"@);
        text::lemma_last_match(path@, "/blobs/"@);
    }
    let (at, width, kind): (usize, usize, PathKind) = match text::find_last(&chars, &manifests) {
        Some(i) => (i, manifests.len(), PathKind::Manifests),
        None => match text::find_last(&chars, &blobs) {
            Some(i) => (i, blobs.len(), PathKind::Blobs),
            None => {
                return Err(PathError::NoKind);
            },
        },
    };
    let total: usize = chars.len();
    let image = path.substring_char(0, at);
    let reference = path.substring_char(at + width, total);
    assert(image@ =~= path@.take(at as int));
    assert(reference@ =~= path@.skip(at + width));
    if image.is_empty() || reference.is_empty() {
        return Err(PathError::MissingPart);
    }
    Ok((image, kind, reference))
}

/// Taking apart what was put together: the path of a manifest gives its image and
/// reference back, whatever they are, as long as no further `/manifests/` begins
/// behind the first character of the one between them.
pub proof fn law_manifest_path_is_taken_apart(image: Seq<char>, reference: Seq<char>)
    requires
        image.len() > 0,
        reference.len() > 0,
        !text::occurs("/manifests/"@.drop_first() + reference, "/manifests/"@),
    ensures
        parsed(image + "/manifests/"@ + reference) == Ok::<
            (Seq<char>, PathKind, Seq<char>),
            PathError,
        >((image, PathKind::Manifests, reference)),
{
    reveal_strlit("/manifests/");
    lemma_only_cut(image, "/manifests/"@, reference);
}

/// Likewise for the path of a blob, as long as it holds no `/manifests/`, and no
/// further `/blobs/` begins behind the first character of the one between image
/// and digest.
pub proof fn law_blob_path_is_taken_apart(image: Seq<char>, digest: Seq<char>)
    requires
        image.len() > 0,
        digest.len() > 0,
        !text::occurs(image + "/blobs/"@ + digest, "/manifests/"@),
        !text::occurs("/blobs/"@.drop_first() + digest, "/blobs/"@),
    ensures
        parsed(image + "/blobs/"@ + digest) == Ok::<(Seq<char>, PathKind, Seq<char>), PathError>(
            (image, PathKind::Blobs, digest),
        ),
{
    reveal_strlit("/blobs/");
    text::lemma_last_match(image + "/blobs/"@ + digest, "/manifests/"@);
    lemma_only_cut(image, "/blobs/"@, digest);
}

proof fn lemma_only_cut(image: Seq<char>, pattern: Seq<char>, reference: Seq<char>)
    requires
        pattern.len() > 0,
        !text::occurs(pattern.drop_first() + reference, pattern),
    ensures
        text::last_match(image + pattern + reference, pattern) == Some(image.len() as int),
        (image + pattern + reference).take(image.len() as int) == image,
        (image + pattern + reference).skip((image.len() + pattern.len()) as int) == reference,
{
    let path = image + pattern + reference;
    let tail = pattern.drop_first() + reference;
    let at = image.len() as int;
    assert(path.take(at) =~= image);
    assert(path.skip(at + pattern.len()) =~= reference);
    assert(path.subrange(at, at + pattern.len()) =~= pattern);
    assert forall|j: int| at < j implies !text::matches_at(path, pattern, j) by {
        if text::matches_at(path, pattern, j) {
            let k = j - at - 1;
            assert(tail.subrange(k, k + pattern.len()) =~= path.subrange(j, j + pattern.len()));
            assert(text::matches_at(tail, pattern, k));
        }
    }
    text::lemma_last_match_unique(path, pattern, at);
}

/// The image whose list of tags a path asks for, if it asks for one: the path ends
/// in `/tags/list`.
pub open spec fn tags_image(path: Seq<char>) -> Option<Seq<char>> {
    let at = path.len() - "/tags/list"@.len();
    if at > 0 && text::matches_at(path, "/tags/list"@, at) {
        Some(path.take(at))
    } else {
        None
    }
}

/// The image whose list of tags a path asks for, if it asks for one.
pub fn parse_tags_path(path: &str) -> (r: Option<&str>)
    ensures
        text::opt_text(r) == tags_image(path@),
{
    let chars = text::chars_of(path);
    let suffix = text::chars_of("/tags/list");
    let total: usize = chars.len();
    proof {
        text::lemma_last_match(path@, "/tags/list"@);
        reveal_strlit("/tags/list");
    }
    match text::find_last(&chars, &suffix) {
        Some(i) => {
            if i > 0 && total - i == suffix.len() {
                let image = path.substring_char(0, i);
                assert(image@ =~= path@.take(i as int));
                Some(image)
            } else {
                None
            }
        },
        None => {
            assert(!text::matches_at(path@, "/tags/list"@, path@.len() - "/tags/list"@.len()));
            None
        },
    }
}

/// The image whose list of tags a request asks for, if it asks for one: its method is
/// `GET`, and its path ends in `/tags/list`.
pub open spec fn tags_asked_for(method: Seq<char>, path: Seq<char>) -> Option<Seq<char>> {
    if method == "GET"@ {
        tags_image(path)
    } else {
        None
    }
}

/// How many bytes stand before the image in a path under `project`: those of
/// `/v2/`, the project and a slash.
pub open spec fn prefix_len(project: Seq<char>) -> nat {
    4 + encode_utf8(project).len() + 1
}

/// The path can be cut behind the prefix: no character spans the cut.
pub open spec fn splits(path: Seq<char>, project: Seq<char>) -> bool {
    encode_utf8(path).len() > prefix_len(project) ==> is_char_boundary(
        encode_utf8(path),
        prefix_len(project) as int,
    )
}

/// What stands behind the prefix in a path; the whole path where it is not longer
/// than the prefix.
pub open spec fn remainder(path: Seq<char>, project: Seq<char>) -> Seq<char> {
    let bytes = encode_utf8(path);
    if bytes.len() > prefix_len(project) {
        decode_utf8(bytes.subrange(prefix_len(project) as int, bytes.len() as int))
    } else {
        path
    }
}

/// Whether the path can be cut behind the prefix.
pub fn can_split(path: &str, project: &str) -> (r: bool)
    ensures
        r == splits(path@, project@),
{
    let bytes: usize = path.as_bytes().len();
    let named: usize = project.as_bytes().len();
    if named <= usize::MAX - 5 && bytes > named + 5 {
        path.is_char_boundary(named + 5)
    } else {
        true
    }
}

/// What stands in the path behind `/v2/`, the project and a slash, unless a
/// character spans the cut.
pub fn checked_path_remainder<'a>(path: &'a str, project: &str) -> (r: Option<&'a str>)
    ensures
        r is None <==> !splits(path@, project@),
        r matches Some(rest) ==> rest@ == remainder(path@, project@),
{
    if can_split(path, project) {
        Some(path_remainder(path, project))
    } else {
        None
    }
}

/// What stands in the path behind `/v2/`, the project and a slash.
pub fn path_remainder<'a>(path: &'a str, project: &str) -> (r: &'a str)
    requires
        splits(path@, project@),
    ensures
        r@ == remainder(path@, project@),
{
    let bytes: usize = path.as_bytes().len();
    let named: usize = project.as_bytes().len();
    if named <= usize::MAX - 5 && bytes > named + 5 {
        let (_, rest) = path.split_at(named + 5);
        proof {
            encode_utf8_decode_utf8(rest@);
        }
        rest
    } else {
        path
    }
}

pub proof fn lemma_encode_concat(a: Seq<char>, b: Seq<char>)
    ensures
        encode_utf8(a + b) == encode_utf8(a) + encode_utf8(b),
    decreases a.len(),
{
    if a.len() == 0 {
        assert(a + b =~= b);
        assert(encode_utf8(a) + encode_utf8(b) =~= encode_utf8(b));
    } else {
        lemma_encode_concat(a.drop_first(), b);
        assert((a + b).drop_first() =~= a.drop_first() + b);
        assert(encode_utf8(a + b) =~= encode_utf8(a) + encode_utf8(b));
    }
}

pub proof fn lemma_boundary_between(a: Seq<char>, b: Seq<char>)
    ensures
        is_char_boundary(encode_utf8(a + b), encode_utf8(a).len() as int),
    decreases a.len(),
{
    encode_utf8_valid_utf8(a + b);
    if a.len() > 0 {
        lemma_boundary_between(a.drop_first(), b);
        lemma_encode_concat(a, b);
        assert((a + b).drop_first() =~= a.drop_first() + b);
        encode_utf8_first_scalar(a + b);
        assert(pop_first_scalar(encode_utf8(a + b)) =~= encode_utf8(a.drop_first() + b));
    }
}

/// A path under the project gives back what stands behind the prefix.
pub proof fn law_remainder_is_what_follows_the_project(project: Seq<char>, rest: Seq<char>)
    requires
        rest.len() > 0,
    ensures
        splits("/v2/"@ + project + "/"@ + rest, project),
        remainder("/v2/"@ + project + "/"@ + rest, project) == rest,
{
    let head = "/v2/"@ + project + "/"@;
    let path = head + rest;
    reveal_strlit("/v2/");
    reveal_strlit("/");
    lemma_encode_concat("/v2/"@ + project, "/"@);
    lemma_encode_concat("/v2/"@, project);
    is_ascii_chars_encode_utf8("/v2/"@);
    is_ascii_chars_encode_utf8("/"@);
    assert(encode_utf8(head).len() == prefix_len(project));
    lemma_encode_concat(head, rest);
    lemma_boundary_between(head, rest);
    encode_utf8_first_scalar(rest);
    let bytes = encode_utf8(path);
    assert(bytes.subrange(prefix_len(project) as int, bytes.len() as int) =~= encode_utf8(rest));
    encode_utf8_decode_utf8(rest);
}

/// A request for a manifest under the project is routed by its image and
/// reference, whatever its method, unless it is a `GET` with the path of a list of
/// tags.
pub proof fn law_manifest_request_is_routed(
    method: Seq<char>,
    project: Seq<char>,
    image: Seq<char>,
    reference: Seq<char>,
)
    requires
        image.len() > 0,
        reference.len() > 0,
        !text::occurs("/manifests/"@.drop_first() + reference, "/manifests/"@),
        tags_asked_for(method, image + "/manifests/"@ + reference) is None,
    ensures
        ({
            let path = "/v2/"@ + project + "/"@ + (image + "/manifests/"@ + reference);
            &&& splits(path, project)
            &&& tags_asked_for(method, remainder(path, project)) is None
            &&& parsed(remainder(path, project)) == Ok::<
                (Seq<char>, PathKind, Seq<char>),
                PathError,
            >((image, PathKind::Manifests, reference))
        }),
{
    law_manifest_path_is_taken_apart(image, reference);
    law_remainder_is_what_follows_the_project(project, image + "/manifests/"@ + reference);
}

/// A request for a blob under the project is routed by its image and digest, whatever
/// its method, unless it is a `GET` with the path of a list of tags.
pub proof fn law_blob_request_is_routed(
    method: Seq<char>,
    project: Seq<char>,
    image: Seq<char>,
    digest: Seq<char>,
)
    requires
        image.len() > 0,
        digest.len() > 0,
        !text::occurs(image + "/blobs/"@ + digest, "/manifests/"@),
        !text::occurs("/blobs/"@.drop_first() + digest, "/blobs/"@),
        tags_asked_for(method, image + "/blobs/"@ + digest) is None,
    ensures
        ({
            let path = "/v2/"@ + project + "/"@ + (image + "/blobs/"@ + digest);
            &&& splits(path, project)
            &&& tags_asked_for(method, remainder(path, project)) is None
            &&& parsed(remainder(path, project)) == Ok::<
                (Seq<char>, PathKind, Seq<char>),
                PathError,
            >((image, PathKind::Blobs, digest))
        }),
{
    law_blob_path_is_taken_apart(image, digest);
    law_remainder_is_what_follows_the_project(project, image + "/blobs/"@ + digest);
}

/// A `GET` request for a list of tags under the project is routed by its image,
/// whatever the image is named. A request with another method and the same path is
/// not, and is routed as any other path is.
pub proof fn law_tags_request_is_routed(method: Seq<char>, project: Seq<char>, image: Seq<char>)
    requires
        image.len() > 0,
    ensures
        ({
            let path = "/v2/"@ + project + "/"@ + (image + "/tags/list"@);
            &&& splits(path, project)
            &&& tags_asked_for(method, remainder(path, project)) == (if method == "GET"@ {
                Some(image)
            } else {
                None
            })
        }),
{
    let rest = image + "/tags/list"@;
    let at = image.len() as int;
    assert(rest.subrange(at, at + "/tags/list"@.len()) =~= "/tags/list"@);
    assert(rest.take(at) =~= image);
    law_remainder_is_what_follows_the_project(project, rest);
}

/// The body of an answer.
pub enum ReplyBody {
    /// Nothing.
    Empty,
    /// A text of the router.
    Text(String),
    /// The body that a project sent.
    Copied(Bytes),
    /// The body of the upstream response, passed on as it arrives.
    Streamed,
}

/// An answer to a client.
pub struct Reply {
    pub status: u16,
    pub headers: HeaderMap,
    pub body: ReplyBody,
}

/// The text of an error answer.
pub open spec fn error_body(code: Seq<char>, message: Seq<char>) -> Seq<char> {
    "{\"errors\":[{\"code\":\""@ + code + "\",\"message\":\""@ + message + "\"}]}"@
}

/// Exactly one header.
pub open spec fn only_header(name: Seq<char>, value: Seq<char>) -> Map<Seq<u8>, Seq<Seq<u8>>> {
    headers::no_fields().insert(headers::name_of(name), seq![encode_utf8(value)])
}

/// `reply` reports an error in JSON.
pub open spec fn is_error(
    reply: Reply,
    status: u16,
    code: Seq<char>,
    message: Seq<char>,
) -> bool {
    &&& reply.status == status
    &&& headers::fields_of(reply.headers) == only_header("Content-Type"@, "application/json"@)
    &&& reply.body matches ReplyBody::Text(body) && body@ == error_body(code, message)
}

/// An answer that reports an error in JSON.
pub fn error_response(status: u16, code: &str, message: &str) -> (reply: Reply)
    ensures
        is_error(reply, status, code@, message@),
{
    let mut body = "{\"errors\":[{\"code\":\"".to_owned();
    body.append(code);
    body.append("\",\"message\":\"");
    body.append(message);
    body.append("\"}]}");
    proof {
        headers::lemma_known_headers();
    }
    Reply {
        status,
        headers: headers::single_header("Content-Type", "application/json"),
        body: ReplyBody::Text(body),
    }
}

/// The answer to an address that asks too often.
pub fn rate_limited() -> (reply: Reply)
    ensures
        is_error(reply, 429, "TOOMANYREQUESTS"@, "rate limit exceeded"@),
{
    error_response(429, "TOOMANYREQUESTS", "rate limit exceeded")
}

/// The answer to the version check: the registry API is spoken in version 2.
pub fn v2_check() -> (reply: Reply)
    ensures
        reply.status == 200,
        headers::fields_of(reply.headers) == only_header(
            "Docker-Distribution-API-Version"@,
            "registry/2.0"@,
        ),
        reply.body is Empty,
{
    proof {
        headers::lemma_known_headers();
    }
    Reply {
        status: 200,
        headers: headers::single_header("Docker-Distribution-API-Version", "registry/2.0"),
        body: ReplyBody::Empty,
    }
}

/// The status of the health checks: unhealthy as long as no project is known.
pub fn health_status(projects: &Vec<String>) -> (status: u16)
    ensures
        status == (if projects@.len() == 0 {
            503u16
        } else {
            200u16
        }),
{
    if projects.len() == 0 {
        503
    } else {
        200
    }
}

/// `reply` passes on what a project sent: its status, or `fallback` where that is
/// none, and its headers.
pub open spec fn passes_on(reply: Reply, status: u16, upstream: HeaderMap, fallback: u16) -> bool {
    &&& reply.status == (if headers::is_status(status) {
        status
    } else {
        fallback
    })
    &&& headers::fields_of(reply.headers) == headers::passed_on(headers::fields_of(upstream))
}

/// The answer that passes on what a project sent.
pub fn build_response(status: u16, upstream: &HeaderMap, body: Bytes) -> (reply: Reply)
    requires
        headers::fields_of(*upstream).dom().len() <= headers::MAX_NAMES,
    ensures
        passes_on(reply, status, *upstream, 500),
        reply.body == ReplyBody::Copied(body),
{
    Reply {
        status: headers::status_or(status, 500),
        headers: headers::copied(upstream),
        body: ReplyBody::Copied(body),
    }
}

/// `reply` answers a request for a manifest or a list of tags that was resolved to
/// `result`.
pub open spec fn is_manifest_reply(
    reply: Reply,
    item: Item,
    result: Result<Arc<ResolveResult>, ResolveError>,
) -> bool {
    match result {
        Err(_) => match item {
            Item::Manifest => is_error(
                reply,
                404,
                "MANIFEST_UNKNOWN"@,
                "requested manifest not found"@,
            ),
            Item::Tags => is_error(
                reply,
                404,
                "NAME_UNKNOWN"@,
                "requested repository not found"@,
            ),
        },
        Ok(found) => {
            &&& passes_on(reply, found.status, found.headers, 500)
            &&& reply.body matches ReplyBody::Copied(body) && headers::bytes_in(body)
                == headers::bytes_in(found.body)
        },
    }
}

/// Answers a request for a manifest or a list of tags that was resolved to
/// `result`. The client does not learn why it was not found.
pub fn handle_manifest(item: Item, result: &Result<Arc<ResolveResult>, ResolveError>) -> (reply:
    Reply)
    requires
        result matches Ok(found) ==> headers::fields_of(found.headers).dom().len()
            <= headers::MAX_NAMES,
    ensures
        is_manifest_reply(reply, item, *result),
{
    match result {
        Err(_) => match item {
            Item::Manifest => error_response(
                404,
                "MANIFEST_UNKNOWN",
                "requested manifest not found",
            ),
            Item::Tags => error_response(404, "NAME_UNKNOWN", "requested repository not found"),
        },
        Ok(found) => build_response(
            found.status,
            &found.headers,
            headers::share_bytes(&found.body),
        ),
    }
}

/// Answers a request for a manifest or a list of tags, unless the project sent more
/// headers than a header map takes.
pub fn checked_handle_manifest(
    item: Item,
    result: &Result<Arc<ResolveResult>, ResolveError>,
) -> (reply: Option<Reply>)
    ensures
        reply matches Some(answer) ==> is_manifest_reply(answer, item, *result),
        reply is None ==> (result matches Ok(found) && headers::fields_of(
            found.headers,
        ).dom().len() > headers::MAX_NAMES),
{
    match result {
        Err(_) => Some(handle_manifest(item, result)),
        Ok(found) => match headers::try_copied(&found.headers) {
            Some(copy) => Some(
                Reply {
                    status: headers::status_or(found.status, 500),
                    headers: copy,
                    body: ReplyBody::Copied(headers::share_bytes(&found.body)),
                },
            ),
            None => None,
        },
    }
}

/// What a request under the router's project asks for.
pub enum Route {
    /// A manifest, with the client's authorization and the media types that it
    /// accepts.
    Manifest { image: String, reference: String, auth: Option<String>, accept: Vec<String> },
    /// The list of tags of an image, with the client's authorization and the media
    /// types that it accepts.
    Tags { image: String, auth: Option<String>, accept: Vec<String> },
    /// A blob, with the client's authorization.
    Blob { image: String, digest: String, auth: Option<String> },
    /// Nothing: this is the answer.
    Refused(Reply),
}

/// `route` is what a request asks for with this method, whose path goes on with
/// `rest` behind the project, with `fields` for headers.
pub open spec fn is_route(
    method: Seq<char>,
    rest: Seq<char>,
    fields: Map<Seq<u8>, Seq<Seq<u8>>>,
    route: Route,
) -> bool {
    let sent = headers::first_text(
        headers::values_at(fields, headers::name_of("Authorization"@)),
    );
    let accepted = headers::all_texts(headers::values_at(fields, headers::name_of("Accept"@)));
    match tags_asked_for(method, rest) {
        Some(image) => route matches Route::Tags { image: i, auth, accept } && i@ == image
            && text::opt_view(auth) == sent && text::views(accept@) == accepted,
        None => match parsed(rest) {
            Err(e) => route matches Route::Refused(reply) && is_error(
                reply,
                400,
                "UNSUPPORTED"@,
                path_message(e),
            ),
            Ok((image, PathKind::Manifests, reference)) => route matches Route::Manifest {
                image: i,
                reference: r,
                auth,
                accept,
            } && i@ == image && r@ == reference && text::opt_view(auth) == sent && text::views(
                accept@,
            ) == accepted,
            Ok((image, PathKind::Blobs, digest)) => route matches Route::Blob {
                image: i,
                digest: d,
                auth,
            } && i@ == image && d@ == digest && text::opt_view(auth) == sent,
        },
    }
}

/// The URL of a blob in a project.
pub open spec fn blob_url(
    harbor_url: Seq<char>,
    project: Seq<char>,
    image: Seq<char>,
    digest: Seq<char>,
) -> Seq<char> {
    harbor_url + "/v2/"@ + project + "/"@ + image + "/blobs/"@ + digest
}

/// `request` asks `project` for a blob.
pub open spec fn is_blob_request(
    request: UpstreamRequest,
    harbor_url: Seq<char>,
    project: Seq<char>,
    image: Seq<char>,
    digest: Seq<char>,
    auth: Option<Seq<char>>,
) -> bool {
    &&& request.project@ == project
    &&& request.url@ == blob_url(harbor_url, project, image, digest)
    &&& text::pair_views(request.headers@) == resolver::request_headers(auth, seq![])
}

/// How long a project may take to say whether it has a blob, in milliseconds.
pub const PROBE_TIMEOUT_MS: u64 = 5_000;

/// What to do next for a blob.
pub enum BlobStep {
    /// Ask each of the projects whether it has the blob, without the body.
    Probe(Vec<UpstreamRequest>),
    /// Ask the project for the blob, with the client's method.
    Proxy(UpstreamRequest),
    /// The answer.
    Answer(Reply),
}

/// The status says that the project has the blob, itself or in its storage.
pub open spec fn holds_blob(status: Option<u16>) -> bool {
    status == Some(200u16) || status == Some(307u16)
}

/// The first project that has the blob. A project that did not answer has no
/// status.
pub open spec fn first_holder(answers: Seq<(String, Option<u16>)>) -> Option<Seq<char>>
    decreases answers.len(),
{
    if answers.len() == 0 {
        None
    } else if holds_blob(answers[0].1) {
        Some(answers[0].0@)
    } else {
        first_holder(answers.drop_first())
    }
}

/// No project is known to have the blob.
pub open spec fn is_unknown_blob(step: BlobStep) -> bool {
    step matches BlobStep::Answer(reply) && is_error(
        reply,
        404,
        "BLOB_UNKNOWN"@,
        "requested blob not found"@,
    )
}

/// Why no project has a blob, when `asked` projects were asked.
pub open spec fn probe_message(asked: nat, image: Seq<char>, digest: Seq<char>) -> Seq<char> {
    if asked == 0 {
        "no proxy-cache projects discovered"@
    } else {
        "blob "@ + image + "/"@ + digest + " not found in any project"@
    }
}

/// How the search for a project with a blob ended, for the metrics: in an error where
/// none has it.
pub fn probe_label(step: &BlobStep) -> (r: &'static str)
    ensures
        r@ == (if step is Answer && step->Answer_0.status == 404 {
            "error"@
        } else {
            "fallback"@
        }),
{
    match step {
        BlobStep::Answer(reply) => if reply.status == 404 {
            "error"
        } else {
            "fallback"
        },
        _ => "fallback",
    }
}

/// Why no project has a blob, for the log.
pub fn probe_failure(asked: usize, image: &str, digest: &str) -> (r: String)
    ensures
        r@ == probe_message(asked as nat, image@, digest@),
{
    if asked == 0 {
        "no proxy-cache projects discovered".to_owned()
    } else {
        let mut r = "blob ".to_owned();
        r.append(image);
        r.append("/");
        r.append(digest);
        r.append(" not found in any project");
        r
    }
}

/// `step` takes the blob from `project`. A project whose name would change the
/// meaning of the URL is refused.
pub open spec fn takes_from(
    step: BlobStep,
    harbor_url: Seq<char>,
    project: Seq<char>,
    image: Seq<char>,
    digest: Seq<char>,
    auth: Option<Seq<char>>,
) -> bool {
    if discovery::safe_name(project) {
        step matches BlobStep::Proxy(request) && is_blob_request(
            request,
            harbor_url,
            project,
            image,
            digest,
            auth,
        )
    } else {
        step matches BlobStep::Answer(reply) && is_error(
            reply,
            500,
            "BLOB_UNKNOWN"@,
            "internal routing error"@,
        )
    }
}

/// What became of the request for a blob.
pub enum BlobReply {
    /// The request failed.
    Unanswered,
    /// The project answered.
    Answered { status: u16, headers: HeaderMap },
}

/// `reply` passes on what a project answered to the request for a blob.
pub open spec fn is_blob_reply(reply: Reply, upstream: BlobReply) -> bool {
    match upstream {
        BlobReply::Unanswered => is_error(reply, 502, "BLOB_UNKNOWN"@, "upstream error"@),
        BlobReply::Answered { status, headers: sent } => {
            &&& passes_on(reply, status, sent, 502)
            &&& reply.body is Streamed
        },
    }
}

/// The answer that passes on what a project answered to the request for a blob.
pub fn relay_blob(upstream: &BlobReply) -> (reply: Reply)
    requires
        upstream matches BlobReply::Answered { headers: sent, .. } ==> headers::fields_of(
            *sent,
        ).dom().len() <= headers::MAX_NAMES,
    ensures
        is_blob_reply(reply, *upstream),
{
    match upstream {
        BlobReply::Unanswered => error_response(502, "BLOB_UNKNOWN", "upstream error"),
        BlobReply::Answered { status, headers: sent } => Reply {
            status: headers::status_or(*status, 502),
            headers: headers::copied(sent),
            body: ReplyBody::Streamed,
        },
    }
}

/// The answer that passes on what a project answered to the request for a blob,
/// unless the project sent more headers than a header map takes.
pub fn checked_relay_blob(upstream: &BlobReply) -> (reply: Option<Reply>)
    ensures
        reply matches Some(answer) ==> is_blob_reply(answer, *upstream),
        reply is None ==> (upstream matches BlobReply::Answered { headers: sent, .. }
            && headers::fields_of(*sent).dom().len() > headers::MAX_NAMES),
{
    match upstream {
        BlobReply::Unanswered => Some(relay_blob(upstream)),
        BlobReply::Answered { status, headers: sent } => match headers::try_copied(sent) {
            Some(copy) => Some(
                Reply {
                    status: headers::status_or(*status, 502),
                    headers: copy,
                    body: ReplyBody::Streamed,
                },
            ),
            None => None,
        },
    }
}

/// What the handlers share: the resolver, where Harbor is, the project under
/// which the router serves, and how the client for blobs is set up.
pub struct AppState {
    pub resolver: Resolver,
    pub harbor_url: String,
    pub proxy_project: String,
    pub blob_client: ClientOptions,
}

impl AppState {
    /// The state for a router that serves under `proxy_project`.
    pub fn new(
        resolver: Resolver,
        harbor_url: String,
        proxy_project: String,
        http2_prior_knowledge: bool,
    ) -> (r: AppState)
        ensures
            r.resolver == resolver,
            r.harbor_url == harbor_url,
            r.proxy_project == proxy_project,
            r.blob_client == client::blob_client(http2_prior_knowledge, None),
    {
        AppState {
            resolver,
            harbor_url,
            proxy_project,
            blob_client: ClientOptions::for_blobs(http2_prior_knowledge, None),
        }
    }

    /// The state with a limit on how long reading a blob may take without anything
    /// coming.
    pub fn with_blob_read_timeout(self, timeout_ms: u64) -> (r: AppState)
        ensures
            r.resolver == self.resolver,
            r.harbor_url == self.harbor_url,
            r.proxy_project == self.proxy_project,
            r.blob_client == (ClientOptions {
                read_timeout_ms: Some(timeout_ms),
                ..self.blob_client
            }),
    {
        let mut r = self;
        r.blob_client.read_timeout_ms = Some(timeout_ms);
        r
    }

    /// What a request asks for that has this method, this path and these headers.
    pub fn registry_handler(
        &self,
        method: &str,
        path: &str,
        request_headers: &HeaderMap,
    ) -> (route: Route)
        requires
            splits(path@, self.proxy_project@),
        ensures
            is_route(
                method@,
                remainder(path@, self.proxy_project@),
                headers::fields_of(*request_headers),
                route,
            ),
    {
        proof {
            headers::lemma_known_headers();
        }
        let rest = path_remainder(path, self.proxy_project.as_str());
        if text::same_text(method, "GET") {
            if let Some(image) = parse_tags_path(rest) {
                return Route::Tags {
                    image: image.to_owned(),
                    auth: headers::header_text(request_headers, "Authorization"),
                    accept: headers::header_texts(request_headers, "Accept"),
                };
            }
        }
        match parse_path(rest) {
            Err(e) => Route::Refused(error_response(400, "UNSUPPORTED", e.message())),
            Ok((image, PathKind::Manifests, reference)) => Route::Manifest {
                image: image.to_owned(),
                reference: reference.to_owned(),
                auth: headers::header_text(request_headers, "Authorization"),
                accept: headers::header_texts(request_headers, "Accept"),
            },
            Ok((image, PathKind::Blobs, digest)) => Route::Blob {
                image: image.to_owned(),
                digest: digest.to_owned(),
                auth: headers::header_text(request_headers, "Authorization"),
            },
        }
    }

    /// What a request asks for that has this method, this path and these headers,
    /// unless a character of the path spans the end of the prefix.
    pub fn checked_registry_handler(
        &self,
        method: &str,
        path: &str,
        request_headers: &HeaderMap,
    ) -> (route: Option<Route>)
        ensures
            route is None <==> !splits(path@, self.proxy_project@),
            route matches Some(r) ==> is_route(
                method@,
                remainder(path@, self.proxy_project@),
                headers::fields_of(*request_headers),
                r,
            ),
    {
        if can_split(path, self.proxy_project.as_str()) {
            Some(self.registry_handler(method, path, request_headers))
        } else {
            None
        }
    }

    /// The request for a blob to one project.
    pub fn blob_request(
        &self,
        project: &str,
        image: &str,
        digest: &str,
        auth: Option<&str>,
    ) -> (request: UpstreamRequest)
        ensures
            is_blob_request(
                request,
                self.harbor_url@,
                project@,
                image@,
                digest@,
                text::opt_text(auth),
            ),
    {
        let mut url = self.harbor_url.clone();
        url.append("/v2/");
        url.append(project);
        url.append("/");
        url.append(image);
        url.append("/blobs/");
        url.append(digest);
        let none: Vec<String> = Vec::new();
        assert(text::views(none@) =~= Seq::<Seq<char>>::empty());
        UpstreamRequest {
            project: project.to_owned(),
            url,
            headers: resolver::build_request_headers(auth, &none),
        }
    }

    /// Takes the blob from `project`.
    pub fn proxy_blob(
        &self,
        project: &str,
        image: &str,
        digest: &str,
        auth: Option<&str>,
    ) -> (step: BlobStep)
        ensures
            takes_from(
                step,
                self.harbor_url@,
                project@,
                image@,
                digest@,
                text::opt_text(auth),
            ),
    {
        if discovery::is_safe_project_name(project) {
            BlobStep::Proxy(self.blob_request(project, image, digest, auth))
        } else {
            BlobStep::Answer(error_response(500, "BLOB_UNKNOWN", "internal routing error"))
        }
    }

    /// Begins to answer a request for a blob: it is taken from the project that
    /// the cache knows; where it knows none, all projects are asked.
    pub fn handle_blob(
        &self,
        cached: Option<String>,
        projects: &Vec<String>,
        image: &str,
        digest: &str,
        auth: Option<&str>,
    ) -> (step: BlobStep)
        ensures
            cached matches Some(project) ==> takes_from(
                step,
                self.harbor_url@,
                project@,
                image@,
                digest@,
                text::opt_text(auth),
            ),
            cached is None && projects@.len() == 0 ==> is_unknown_blob(step),
            cached is None && projects@.len() > 0 ==> (step matches BlobStep::Probe(requests)
                && requests@.len() == projects@.len() && forall|i: int|
                0 <= i < requests@.len() ==> is_blob_request(
                    #[trigger] requests@[i],
                    self.harbor_url@,
                    projects@[i]@,
                    image@,
                    digest@,
                    text::opt_text(auth),
                )),
    {
        if let Some(project) = cached {
            return self.proxy_blob(project.as_str(), image, digest, auth);
        }
        if projects.len() == 0 {
            return BlobStep::Answer(
                error_response(404, "BLOB_UNKNOWN", "requested blob not found"),
            );
        }
        let mut requests: Vec<UpstreamRequest> = Vec::new();
        let mut i: usize = 0;
        while i < projects.len()
            invariant
                i <= projects@.len(),
                requests@.len() == i,
                forall|k: int|
                    0 <= k < i ==> is_blob_request(
                        #[trigger] requests@[k],
                        self.harbor_url@,
                        projects@[k]@,
                        image@,
                        digest@,
                        text::opt_text(auth),
                    ),
            decreases projects@.len() - i,
        {
            requests.push(self.blob_request(projects[i].as_str(), image, digest, auth));
            i = i + 1;
        }
        BlobStep::Probe(requests)
    }

    /// Goes on once all projects were asked: the blob is taken from the first one
    /// that has it. `answers` holds each project with the status that it
    /// answered, in order.
    pub fn probe_blob_project(
        &self,
        answers: &Vec<(String, Option<u16>)>,
        image: &str,
        digest: &str,
        auth: Option<&str>,
    ) -> (step: BlobStep)
        ensures
            match first_holder(answers@) {
                Some(project) => takes_from(
                    step,
                    self.harbor_url@,
                    project,
                    image@,
                    digest@,
                    text::opt_text(auth),
                ),
                None => is_unknown_blob(step),
            },
    {
        let mut i: usize = 0;
        assert(answers@.skip(0) =~= answers@);
        while i < answers.len()
            invariant
                i <= answers@.len(),
                first_holder(answers@) == first_holder(answers@.skip(i as int)),
            decreases answers@.len() - i,
        {
            let ghost rest = answers@.skip(i as int);
            assert(rest[0] == answers@[i as int]);
            assert(rest.drop_first() =~= answers@.skip(i + 1));
            if let Some(status) = answers[i].1 {
                if status == 200 || status == 307 {
                    return self.proxy_blob(answers[i].0.as_str(), image, digest, auth);
                }
            }
            i = i + 1;
        }
        BlobStep::Answer(error_response(404, "BLOB_UNKNOWN", "requested blob not found"))
    }
}

/// The project that stands first and has the blob is the one it is taken from.
pub proof fn law_first_holder_serves(answers: Seq<(String, Option<u16>)>, i: int)
    requires
        0 <= i < answers.len(),
        holds_blob(answers[i].1),
        forall|j: int| 0 <= j < i ==> !holds_blob(#[trigger] answers[j].1),
    ensures
        first_holder(answers) == Some(answers[i].0@),
    decreases answers.len(),
{
    if i > 0 {
        assert(!holds_blob(answers[0].1));
        let rest = answers.drop_first();
        assert forall|j: int| 0 <= j < i - 1 implies !holds_blob(#[trigger] rest[j].1) by {
            assert(rest[j] == answers[j + 1]);
        }
        law_first_holder_serves(rest, i - 1);
    }
}

/// `c` is a control character.
pub open spec fn control(c: char) -> bool {
    c <= '\u{1f}' || '\u{7f}' <= c <= '\u{9f}'
}

/// Whether `c` is a control character.
fn is_control(c: char) -> (r: bool)
    ensures
        r == control(c),
{
    c <= '\u{1f}' || ('\u{7f}' <= c && c <= '\u{9f}')
}

/// The most bytes of a field that are logged.
pub const MAX_FIELD: usize = 512;

/// The last position at most `bound` at which a character begins or the text ends.
pub open spec fn boundary_to(bytes: Seq<u8>, bound: int) -> int
    decreases bound,
{
    if bound <= 0 {
        0
    } else if is_char_boundary(bytes, bound) {
        bound
    } else {
        boundary_to(bytes, bound - 1)
    }
}

/// The characters of a long field that lie within the first bytes, and all of
/// another field.
pub open spec fn truncated(field: Seq<char>) -> Seq<char> {
    let bytes = encode_utf8(field);
    if bytes.len() > MAX_FIELD {
        decode_utf8(bytes.subrange(0, boundary_to(bytes, MAX_FIELD as int)))
    } else {
        field
    }
}

/// A blank for a control character, any other character as it is.
pub open spec fn printable(c: char) -> char {
    if control(c) {
        ' '
    } else {
        c
    }
}

/// A field as it is logged: not too long, and with blanks for control characters.
pub open spec fn sanitized(field: Seq<char>) -> Seq<char> {
    truncated(field).map_values(|c: char| printable(c))
}

/// A field as it is logged: not too long, and with blanks for control characters,
/// so that it stays on one line. A character that does not fit as a whole is left
/// out.
pub fn sanitize_log_field(field: &str) -> (r: String)
    ensures
        r@ == sanitized(field@),
{
    let kept = if field.as_bytes().len() > MAX_FIELD {
        let mut end: usize = MAX_FIELD;
        proof {
            encode_utf8_valid_utf8(field@);
            is_char_boundary_start_end_of_seq(encode_utf8(field@));
        }
        while end > 0 && !field.is_char_boundary(end)
            invariant
                end <= MAX_FIELD,
                boundary_to(encode_utf8(field@), MAX_FIELD as int) == boundary_to(
                    encode_utf8(field@),
                    end as int,
                ),
            decreases end,
        {
            end = end - 1;
        }
        let (front, _) = field.split_at(end);
        proof {
            encode_utf8_decode_utf8(front@);
        }
        front
    } else {
        field
    };
    let chars = text::chars_of(kept);
    let ghost expected = chars@.map_values(|c: char| printable(c));
    let mut r = String::new();
    let mut i: usize = 0;
    assert(expected.take(0) =~= Seq::<char>::empty());
    while i < chars.len()
        invariant
            i <= chars@.len(),
            expected == chars@.map_values(|c: char| printable(c)),
            r@ == expected.take(i as int),
        decreases chars@.len() - i,
    {
        let c = chars[i];
        assert(expected.take(i + 1) =~= expected.take(i as int).push(printable(c)));
        if is_control(c) {
            r.push(' ');
        } else {
            r.push(c);
        }
        i = i + 1;
    }
    assert(expected.take(expected.len() as int) =~= expected);
    r
}

/// The kind of a request, for the log and the metrics.
#[derive(Debug, Clone, Copy, PartialEq, Eq, Structural)]
pub enum RequestType {
    Manifest,
    Blob,
    VersionCheck,
    Health,
    Other,
}

/// The kind as text.
pub open spec fn type_text(kind: RequestType) -> Seq<char> {
    match kind {
        RequestType::Manifest => "manifest"@,
        RequestType::Blob => "blob"@,
        RequestType::VersionCheck => "v2check"@,
        RequestType::Health => "health"@,
        RequestType::Other => "other"@,
    }
}

impl RequestType {
    /// The kind as text.
    pub fn text(self) -> (r: &'static str)
        ensures
            r@ == type_text(self),
    {
        match self {
            RequestType::Manifest => "manifest",
            RequestType::Blob => "blob",
            RequestType::VersionCheck => "v2check",
            RequestType::Health => "health",
            RequestType::Other => "other",
        }
    }
}

/// The kind of a request with this path.
pub open spec fn type_of(path: Seq<char>) -> RequestType {
    if text::occurs(path, "/manifests/"@) {
        RequestType::Manifest
    } else if text::occurs(path, "/blobs/"@) {
        RequestType::Blob
    } else if path == "/v2/"@ || path == "/v2"@ {
        RequestType::VersionCheck
    } else if path == "/healthz"@ || path == "/readyz"@ {
        RequestType::Health
    } else {
        RequestType::Other
    }
}

/// The class of a status, for grouping.
pub open spec fn class_of(status: u16) -> Seq<char> {
    if 200 <= status <= 299 {
        "2xx"@
    } else if 300 <= status <= 399 {
        "3xx"@
    } else if 400 <= status <= 499 {
        "4xx"@
    } else {
        "5xx"@
    }
}

/// How important an entry of the log is.
#[derive(Debug, Clone, Copy, PartialEq, Eq, Structural)]
pub enum LogLevel {
    Debug,
    Info,
    Warn,
}

/// How important a request is: errors are visible, and of the rest only what is
/// not routine.
pub open spec fn level_of(status: u16, kind: RequestType) -> LogLevel {
    if status >= 400 {
        LogLevel::Warn
    } else if kind == RequestType::Blob || kind == RequestType::VersionCheck || kind
        == RequestType::Health {
        LogLevel::Debug
    } else {
        LogLevel::Info
    }
}

/// The entry of the access log for a request.
pub struct AccessEntry {
    pub path: String,
    pub req_type: RequestType,
    pub status_class: &'static str,
    pub level: LogLevel,
}

/// The entry of the access log for a request with this path that was answered
/// with this status.
pub fn logging_middleware(path: &str, status: u16) -> (entry: AccessEntry)
    ensures
        entry.path@ == sanitized(path@),
        entry.req_type == type_of(sanitized(path@)),
        entry.status_class@ == class_of(status),
        entry.level == level_of(status, entry.req_type),
{
    let path = sanitize_log_field(path);
    let p = path.as_str();
    let req_type = if text::contains(p, "/manifests/") {
        RequestType::Manifest
    } else if text::contains(p, "/blobs/") {
        RequestType::Blob
    } else if text::same_text(p, "/v2/") || text::same_text(p, "/v2") {
        RequestType::VersionCheck
    } else if text::same_text(p, "/healthz") || text::same_text(p, "/readyz") {
        RequestType::Health
    } else {
        RequestType::Other
    };
    let status_class = if 200 <= status && status <= 299 {
        "2xx"
    } else if 300 <= status && status <= 399 {
        "3xx"
    } else if 400 <= status && status <= 499 {
        "4xx"
    } else {
        "5xx"
    };
    let level = if status >= 400 {
        LogLevel::Warn
    } else {
        match req_type {
            RequestType::Blob | RequestType::VersionCheck | RequestType::Health => LogLevel::Debug,
            RequestType::Manifest | RequestType::Other => LogLevel::Info,
        }
    };
    AccessEntry { path, req_type, status_class, level }
}

/// What is logged holds no control character, so no line break.
pub proof fn law_logged_field_is_one_line(field: Seq<char>)
    ensures
        forall|i: int| 0 <= i < sanitized(field).len() ==> !control(#[trigger] sanitized(field)[i]),
{
}

proof fn lemma_printable_is_no_longer(field: Seq<char>)
    ensures
        encode_utf8(field.map_values(|c: char| printable(c))).len() <= encode_utf8(field).len(),
    decreases field.len(),
{
    let shown = field.map_values(|c: char| printable(c));
    if field.len() > 0 {
        lemma_printable_is_no_longer(field.drop_first());
        assert(shown.drop_first() =~= field.drop_first().map_values(|c: char| printable(c)));
    }
}

pub proof fn lemma_boundary_to(bytes: Seq<u8>, bound: int)
    requires
        valid_utf8(bytes),
        0 <= bound,
    ensures
        0 <= boundary_to(bytes, bound) <= bound,
        is_char_boundary(bytes, boundary_to(bytes, bound)),
    decreases bound,
{
    if bound > 0 && !is_char_boundary(bytes, bound) {
        lemma_boundary_to(bytes, bound - 1);
    }
}

/// What is logged is the front of the field, with blanks for control characters.
/// It is at most as long as a field may be, and logging it again changes nothing.
pub proof fn law_logged_field_is_bounded(field: Seq<char>)
    ensures
        truncated(field) == field.take(truncated(field).len() as int),
        truncated(field).len() <= field.len(),
        encode_utf8(sanitized(field)).len() <= MAX_FIELD,
        sanitized(sanitized(field)) == sanitized(field),
{
    let bytes = encode_utf8(field);
    let kept = truncated(field);
    encode_utf8_valid_utf8(field);
    if bytes.len() > MAX_FIELD {
        let end = boundary_to(bytes, MAX_FIELD as int);
        lemma_boundary_to(bytes, MAX_FIELD as int);
        valid_utf8_split(bytes, end);
        decode_utf8_encode_utf8(bytes.subrange(0, end));
        decode_utf8_split(bytes, end);
        encode_utf8_decode_utf8(field);
        assert(field.take(kept.len() as int) =~= kept);
    } else {
        assert(field.take(kept.len() as int) =~= kept);
    }
    assert(encode_utf8(kept).len() <= MAX_FIELD);
    lemma_printable_is_no_longer(kept);
    assert(sanitized(sanitized(field)) =~= sanitized(field));
}

} // verus!
