//! Finding the project that holds an image.

use http::HeaderMap;
use std::sync::Arc;
use vstd::arithmetic::power2::pow2;
use vstd::prelude::*;

use crate::breaker;
use crate::breaker::Breaker;
use crate::cache::CacheBackend;
use crate::discovery::Discoverer;
use crate::flights;
use crate::flights::{Flights, Moment, Role};
use crate::resolver::{
    build_request_headers, choose_project, conclude, follow, image_key_text, look_up_project, manifest_key_text,
    outcome_of, select_manifest, share, FanOut, FetchError, FetchStep, Item, Outcome, Phase,
    ProjectLookup, Resolution, ResolveAction, ResolveError, ResolveEvent, ResolveLabel,
    ResolveResult, Resolver, UpstreamReply, UpstreamRequest, Wanted,
};

verus! {

/// The key of a manifest is its whole image, a colon and its reference. The key of a
/// list of tags is its whole image with `/tags/` and the reference.
pub proof fn law_keys_hold_the_whole_image(
    wanted: Wanted,
    key: String,
    image: &str,
    reference: &str,
    manifest_key: String,
    image_key: String,
)
    requires
        call_ensures(Wanted::key, (&wanted,), key),
        call_ensures(manifest_key_text, (image, reference), manifest_key),
        call_ensures(image_key_text, (image,), image_key),
    ensures
        wanted.item == Item::Manifest ==> key@ == wanted.image@ + ":"@ + wanted.reference@,
        wanted.item == Item::Tags ==> key@ == wanted.image@ + "/tags/"@ + wanted.reference@,
        manifest_key@ == image@ + ":"@ + reference@,
        image_key@ == "img:"@ + image@,
{
}

proof fn lemma_colon_cut(a: Seq<char>, b: Seq<char>, x: Seq<char>, y: Seq<char>)
    requires
        !a.contains(':'),
        !b.contains(':'),
        a + ":"@ + x == b + ":"@ + y,
    ensures
        a == b,
        x == y,
{
    reveal_strlit(":");
    let s = a + ":"@ + x;
    let t = b + ":"@ + y;
    assert(s[a.len() as int] == ':');
    assert(t[b.len() as int] == ':');
    if a.len() < b.len() {
        assert(t[a.len() as int] == b[a.len() as int]);
        assert(b.contains(':'));
    }
    if b.len() < a.len() {
        assert(s[b.len() as int] == a[b.len() as int]);
        assert(a.contains(':'));
    }
    assert forall|i: int| 0 <= i < a.len() implies a[i] == b[i] by {
        assert(s[i] == a[i] && t[i] == b[i]);
    }
    assert(a =~= b);
    assert(s.skip(a.len() as int + 1) =~= x);
    assert(t.skip(b.len() as int + 1) =~= y);
}

/// Requests for different things have different keys: for images without a colon,
/// two keys are equal only where the item, the image and the reference are equal.
/// Their images' own keys are equal only where the images are.
pub proof fn law_different_requests_have_different_keys(
    a: Wanted,
    b: Wanted,
    key_a: String,
    key_b: String,
    image_a: &str,
    image_b: &str,
    image_key_a: String,
    image_key_b: String,
)
    requires
        call_ensures(Wanted::key, (&a,), key_a),
        call_ensures(Wanted::key, (&b,), key_b),
        !a.image@.contains(':'),
        !b.image@.contains(':'),
        a.item == Item::Tags ==> a.reference@ == "list"@,
        b.item == Item::Tags ==> b.reference@ == "list"@,
        call_ensures(image_key_text, (image_a,), image_key_a),
        call_ensures(image_key_text, (image_b,), image_key_b),
    ensures
        key_a@ == key_b@ <==> a.item == b.item && a.image@ == b.image@ && a.reference@
            == b.reference@,
        image_key_a@ == image_key_b@ <==> image_a@ == image_b@,
{
    reveal_strlit(":");
    reveal_strlit("/tags/");
    reveal_strlit("list");
    reveal_strlit("img:");
    if key_a@ == key_b@ {
        if a.item == Item::Manifest && b.item == Item::Manifest {
            lemma_colon_cut(a.image@, b.image@, a.reference@, b.reference@);
        } else if a.item == Item::Tags && b.item == Item::Tags {
            let tail = "/tags/"@ + "list"@;
            assert(key_a@ =~= a.image@ + tail);
            assert(key_b@ =~= b.image@ + tail);
            assert(a.image@ =~= key_a@.take(key_a@.len() - tail.len()));
            assert(b.image@ =~= key_b@.take(key_b@.len() - tail.len()));
        } else if a.item == Item::Manifest {
            lemma_no_colon(b.image@);
            assert(key_a@[a.image@.len() as int] == ':');
        } else {
            lemma_no_colon(a.image@);
            assert(key_b@[b.image@.len() as int] == ':');
        }
    }
    if image_key_a@ == image_key_b@ {
        assert(image_key_a@.skip(4) =~= image_a@);
        assert(image_key_b@.skip(4) =~= image_b@);
    }
}

proof fn lemma_no_colon(image: Seq<char>)
    requires
        !image.contains(':'),
    ensures
        forall|i: int|
            0 <= i < (image + "/tags/"@ + "list"@).len() ==> #[trigger] (image + "/tags/"@
                + "list"@)[i] != ':',
{
    reveal_strlit("/tags/");
    reveal_strlit("list");
    let key = image + "/tags/"@ + "list"@;
    assert forall|i: int| 0 <= i < key.len() implies #[trigger] key[i] != ':' by {
        if i < image.len() {
            assert(key[i] == image[i]);
        }
    }
}

/// A request that follows a flight wants what its leader wants: where requests join
/// with the keys of what they want, a follower's leader joined with the same image and
/// the same reference, so that no client is answered with another image.
pub proof fn law_follower_wants_what_its_leader_wants(
    moments: Seq<Moment>,
    j: int,
    wanted: Wanted,
    key: String,
    flight: u64,
    i: int,
    led: Wanted,
    led_key: String,
)
    requires
        flights::own_tickets(moments),
        0 <= j < moments.len(),
        moments[j] matches Moment::Join { key: k, ticket } && k == key@ && flights::joined(
            flights::board_after(moments.take(j)),
            key@,
            ticket,
        ).0 == Role::Follower(flight),
        0 <= i < moments.len(),
        moments[i] == (Moment::Join { key: led_key@, ticket: flight }),
        call_ensures(Wanted::key, (&wanted,), key),
        call_ensures(Wanted::key, (&led,), led_key),
        wanted.item == Item::Manifest && led.item == Item::Manifest,
        !wanted.image@.contains(':'),
        !led.image@.contains(':'),
    ensures
        wanted.image@ == led.image@,
        wanted.reference@ == led.reference@,
{
    flights::law_follower_joined_its_leaders_key(moments, j);
    let k = choose|k: int|
        0 <= k < j && #[trigger] moments[k] == (Moment::Join { key: key@, ticket: flight });
    if k < i {
        assert(moments[k]->ticket != moments[i]->ticket);
    }
    if i < k {
        assert(moments[i]->ticket != moments[k]->ticket);
    }
    lemma_colon_cut(wanted.image@, led.image@, wanted.reference@, led.reference@);
}

/// What is wanted is written down as it was asked for.
pub proof fn law_wanted_is_what_was_asked_for(
    image: &str,
    reference: &str,
    manifest: Wanted,
    tags: Wanted,
    copy: Wanted,
)
    requires
        call_ensures(Wanted::manifest, (image, reference), manifest),
        call_ensures(Wanted::tags, (image,), tags),
        call_ensures(Wanted::clone, (&manifest,), copy),
    ensures
        manifest.item == Item::Manifest && manifest.image@ == image@ && manifest.reference@
            == reference@,
        tags.item == Item::Tags && tags.image@ == image@ && tags.reference@ == "list"@,
        copy == manifest,
{
}

/// The key under which what is wanted is looked up, as text.
pub open spec fn key_text(wanted: Wanted) -> Seq<char> {
    if wanted.item == Item::Manifest {
        wanted.image@ + ":"@ + wanted.reference@
    } else {
        wanted.image@ + "/tags/"@ + wanted.reference@
    }
}

/// A resolution begins with the cache.
pub proof fn law_resolution_begins_with_the_cache(
    resolver: Resolver,
    wanted: Wanted,
    begun: (Resolution, ResolveAction),
    again: (Resolution, ResolveAction),
)
    requires
        call_ensures(Resolver::resolve_manifest, (&resolver, &wanted), begun),
        call_ensures(Resolver::refresh, (&resolver, &wanted), again),
    ensures
        begun.0 == (Resolution {
            wanted,
            serve_stale: resolver.serve_stale,
            phase: Phase::Looking,
        }),
        begun.1 matches ResolveAction::Lookup { key } && key@ == key_text(wanted),
        again.0 == (Resolution {
            wanted,
            serve_stale: resolver.serve_stale,
            phase: Phase::Flying,
        }),
        again.1 matches ResolveAction::Fly { key } && key@ == key_text(wanted),
{
}

/// What the cache does not know is looked for in the projects: where there is no
/// entry, no stale entry is left and no negative lookup is remembered, the resolution
/// joins or leads a fan-out, whether stale entries are served or not.
pub proof fn law_miss_is_looked_for_in_the_projects(
    resolver: Resolver,
    wanted: Wanted,
    begun: (Resolution, ResolveAction),
    missed: (Resolution, ResolveAction),
    doubting: (Resolution, ResolveAction),
    flying: (Resolution, ResolveAction),
)
    requires
        call_ensures(Resolver::resolve_manifest, (&resolver, &wanted), begun),
        call_ensures(
            Resolution::advance,
            (begun.0, (ResolveEvent::Cached { project: None })),
            missed,
        ),
        if resolver.serve_stale {
            call_ensures(
                Resolution::advance,
                (missed.0, (ResolveEvent::Revived { project: None })),
                doubting,
            )
        } else {
            doubting == missed
        },
        call_ensures(
            Resolution::advance,
            (doubting.0, (ResolveEvent::Doubted { missing: false })),
            flying,
        ),
    ensures
        resolver.serve_stale ==> (missed.1 matches ResolveAction::LookupStale { key } && key@
            == key_text(wanted)),
        doubting.1 matches ResolveAction::LookupMissing { key } && key@ == key_text(wanted),
        flying.1 matches ResolveAction::Fly { key } && key@ == key_text(wanted),
        flying.0.phase == Phase::Flying,
        flying.0.wanted == wanted,
{
}

/// The step of a resolution, whatever came before it.
pub open spec fn is_step(before: Resolution, event: ResolveEvent, r: (Resolution, ResolveAction)) -> bool {
    call_ensures(Resolution::advance, (before, event), r)
}

/// A resolution replies that nothing was found only for a reason: a negative lookup is
/// remembered, or a fan-out came to it.
pub proof fn law_not_found_has_a_reason(
    before: Resolution,
    event: ResolveEvent,
    r: (Resolution, ResolveAction),
)
    requires
        is_step(before, event, r),
    ensures
        (r.1 matches ResolveAction::Reply { result: Err(e), .. } && e is NotFound) ==> (
        before.phase == Phase::Doubting && event == (ResolveEvent::Doubted { missing: true }))
            || before.phase is StoringMissing,
        r.0.phase matches Phase::StoringMissing { error } ==> before.phase == Phase::Flying
            && event == (ResolveEvent::Flown { result: Err(error) }) && error is NotFound,
        r.1 is StoreMissing ==> r.0.phase is StoringMissing,
        before.phase matches Phase::StoringMissing { error } ==> r.1 == (ResolveAction::Reply {
            label: ResolveLabel::Error,
            result: Err(error),
            refresh: false,
        }),
{
}

/// A resolution replies with a response only where a project gave it: the cached one
/// with status 200, or one whose response is about to be remembered, and that is the
/// stale one with status 200, or the one that a fan-out came to.
pub proof fn law_responses_come_from_projects(
    before: Resolution,
    event: ResolveEvent,
    r: (Resolution, ResolveAction),
)
    requires
        is_step(before, event, r),
    ensures
        r.1 matches ResolveAction::Reply { result: Ok(response), label, refresh } ==> {
            ||| before.phase == Phase::Fetching && event == (ResolveEvent::Fetched {
                outcome: Ok(response),
            }) && response.status == 200 && label == ResolveLabel::Hit && !refresh
            ||| before.phase == (Phase::StoringImage { result: response, revived: refresh }) && (
            label == ResolveLabel::Hit <==> refresh) && (label == ResolveLabel::Miss <==> !refresh)
            ||| before.phase == (Phase::StoringItem { result: response, revived: refresh })
                && before.wanted.item == Item::Tags && (label == ResolveLabel::Hit <==> refresh) && (
            label == ResolveLabel::Miss <==> !refresh)
        },
        r.0.phase matches Phase::StoringItem { result, revived } ==> {
            ||| revived && before.phase == Phase::Revalidating && event
                == (ResolveEvent::Fetched { outcome: Ok(result) }) && result.status == 200
            ||| !revived && before.phase == Phase::Flying && event == (ResolveEvent::Flown {
                result: Ok(result),
            })
        },
        r.0.phase matches Phase::StoringImage { result, revived } ==> before.phase
            == (Phase::StoringItem { result, revived }) && before.wanted.item == Item::Manifest,
        r.0.wanted == before.wanted,
        r.0.serve_stale == before.serve_stale,
{
}

/// A project that the cache names is asked, and answers alone where it has what is
/// wanted. Whatever else comes of asking it, the entry is removed, and the fan-out
/// follows.
pub proof fn law_cached_project_is_asked_first(
    before: Resolution,
    project: String,
    fetching: (Resolution, ResolveAction),
    outcome: Result<Arc<ResolveResult>, FetchError>,
    asked: (Resolution, ResolveAction),
    evicted: (Resolution, ResolveAction),
)
    requires
        before.phase == Phase::Looking,
        is_step(before, (ResolveEvent::Cached { project: Some(project) }), fetching),
        is_step(fetching.0, (ResolveEvent::Fetched { outcome }), asked),
        is_step(asked.0, ResolveEvent::Evicted, evicted),
    ensures
        fetching.0.phase == Phase::Fetching,
        fetching.1 == (ResolveAction::Fetch { project }),
        (outcome matches Ok(response) && response.status == 200) ==> asked.1
            == (ResolveAction::Reply {
            label: ResolveLabel::Hit,
            result: Ok(outcome->Ok_0),
            refresh: false,
        }) && asked.0.phase == Phase::Done,
        !(outcome matches Ok(response) && response.status == 200) ==> {
            &&& asked.1 matches ResolveAction::Evict { key } && key@ == key_text(before.wanted)
            &&& evicted.1 matches ResolveAction::Fly { key } && key@ == key_text(before.wanted)
            &&& evicted.0.phase == Phase::Flying
        },
{
}

/// A project of an entry that has left the cache is asked, where stale entries are
/// served. With status 200 its response is served, after the entry was written again,
/// and it is looked for again; else the entry is removed, and the fan-out follows.
pub proof fn law_stale_project_is_asked_and_refreshed(
    before: Resolution,
    reviving: (Resolution, ResolveAction),
    project: String,
    fetching: (Resolution, ResolveAction),
    outcome: Result<Arc<ResolveResult>, FetchError>,
    asked: (Resolution, ResolveAction),
    next: (Resolution, ResolveAction),
    last: (Resolution, ResolveAction),
)
    requires
        before.phase == Phase::Looking,
        before.serve_stale,
        is_step(before, (ResolveEvent::Cached { project: None }), reviving),
        is_step(reviving.0, (ResolveEvent::Revived { project: Some(project) }), fetching),
        is_step(fetching.0, (ResolveEvent::Fetched { outcome }), asked),
        if outcome matches Ok(response) && response.status == 200 {
            &&& is_step(asked.0, ResolveEvent::Stored, next)
            &&& before.wanted.item == Item::Manifest ==> is_step(
                next.0,
                ResolveEvent::Stored,
                last,
            )
        } else {
            is_step(asked.0, ResolveEvent::Evicted, next)
        },
    ensures
        reviving.1 matches ResolveAction::LookupStale { key } && key@ == key_text(before.wanted),
        fetching.1 == (ResolveAction::Fetch { project }),
        if outcome matches Ok(response) && response.status == 200 {
            let response = outcome->Ok_0;
            let served = ResolveAction::Reply {
                label: ResolveLabel::Hit,
                result: Ok(response),
                refresh: true,
            };
            &&& asked.1 matches ResolveAction::Store { key, project: p } && key@ == key_text(
                before.wanted,
            ) && p@ == response.project@
            &&& before.wanted.item == Item::Tags ==> next.1 == served
            &&& before.wanted.item == Item::Manifest ==> (next.1 matches ResolveAction::Store {
                key,
                project: p,
            } && key@ == "img:"@ + before.wanted.image@ && p@ == response.project@) && last.1
                == served
        } else {
            &&& asked.1 matches ResolveAction::Evict { key } && key@ == key_text(before.wanted)
            &&& next.1 matches ResolveAction::Fly { key } && key@ == key_text(before.wanted)
        },
{
}

/// What a fan-out comes to is the answer. A response is remembered first: its project
/// for what was wanted and, for a manifest, for the image. That nothing was found is
/// remembered, and any other error is not.
pub proof fn law_fan_out_decides(
    before: Resolution,
    result: Result<Arc<ResolveResult>, ResolveError>,
    flown: (Resolution, ResolveAction),
    next: (Resolution, ResolveAction),
    last: (Resolution, ResolveAction),
)
    requires
        before.phase == Phase::Flying,
        is_step(before, (ResolveEvent::Flown { result }), flown),
        result is Ok || result->Err_0 is NotFound ==> is_step(flown.0, ResolveEvent::Stored, next),
        result is Ok && before.wanted.item == Item::Manifest ==> is_step(
            next.0,
            ResolveEvent::Stored,
            last,
        ),
    ensures
        match result {
            Ok(response) => {
                let served = ResolveAction::Reply {
                    label: ResolveLabel::Miss,
                    result: Ok(response),
                    refresh: false,
                };
                &&& flown.1 matches ResolveAction::Store { key, project } && key@ == key_text(
                    before.wanted,
                ) && project@ == response.project@
                &&& before.wanted.item == Item::Tags ==> next.1 == served
                &&& before.wanted.item == Item::Manifest ==> (next.1 matches ResolveAction::Store {
                    key,
                    project,
                } && key@ == "img:"@ + before.wanted.image@ && project@ == response.project@)
                    && last.1 == served
            },
            Err(e) => {
                let failed = ResolveAction::Reply {
                    label: ResolveLabel::Error,
                    result: Err(e),
                    refresh: false,
                };
                if e is NotFound {
                    &&& flown.1 matches ResolveAction::StoreMissing { key } && key@ == key_text(
                        before.wanted,
                    )
                    &&& next.1 == failed
                } else {
                    flown.1 == failed
                }
            },
        },
{
}

/// A remembered negative lookup ends the resolution, and nothing is asked.
pub proof fn law_negative_lookup_ends_the_resolution(
    before: Resolution,
    r: (Resolution, ResolveAction),
)
    requires
        before.phase == Phase::Doubting,
        is_step(before, (ResolveEvent::Doubted { missing: true }), r),
    ensures
        r.1 == (ResolveAction::Reply {
            label: ResolveLabel::Error,
            result: Err(ResolveError::NotFound { wanted: before.wanted }),
            refresh: false,
        }),
        r.0.phase == Phase::Done,
{
}

/// Where an entry is missing, the next place is asked: the stale entries where they are
/// served, then the negative lookups, then the projects. An entry that was removed leads
/// to the projects at once.
pub proof fn law_next_place_is_asked(
    before: Resolution,
    event: ResolveEvent,
    r: (Resolution, ResolveAction),
)
    requires
        is_step(before, event, r),
    ensures
        before.phase == Phase::Looking && event == (ResolveEvent::Cached { project: None })
            && before.serve_stale ==> r.0.phase == Phase::Reviving && (
        r.1 matches ResolveAction::LookupStale { key } && key@ == key_text(before.wanted)),
        before.phase == Phase::Looking && event == (ResolveEvent::Cached { project: None })
            && !before.serve_stale || before.phase == Phase::Reviving && event
            == (ResolveEvent::Revived { project: None }) ==> r.0.phase == Phase::Doubting && (
        r.1 matches ResolveAction::LookupMissing { key } && key@ == key_text(before.wanted)),
        before.phase == Phase::Doubting && event == (ResolveEvent::Doubted { missing: false })
            || before.phase == Phase::Evicting && event is Evicted ==> r.0.phase == Phase::Flying
            && (r.1 matches ResolveAction::Fly { key } && key@ == key_text(before.wanted)),
{
}

/// In each phase exactly the event that its action leads to is taken.
pub proof fn law_each_phase_takes_its_event(before: Resolution, event: ResolveEvent, r: bool)
    requires
        call_ensures(Resolution::accepts, (&before, &event), r),
    ensures
        r ==> before.phase != Phase::Done,
        before.phase == Phase::Looking ==> r == event is Cached,
        before.phase == Phase::Reviving ==> r == event is Revived,
        before.phase == Phase::Doubting ==> r == event is Doubted,
        before.phase == Phase::Fetching || before.phase == Phase::Revalidating ==> r
            == event is Fetched,
        before.phase == Phase::Evicting ==> r == event is Evicted,
        before.phase == Phase::Flying ==> r == event is Flown,
        before.phase is StoringItem || before.phase is StoringImage || before.phase is StoringMissing
            ==> r == event is Stored,
        before.phase == Phase::Start ==> r == event is Started,
        r ==> call_requires(Resolution::advance, (before, event)),
{
}

/// The labels of the metrics.
pub proof fn law_labels_have_their_texts(hit: &'static str, miss: &'static str, error: &'static str)
    requires
        call_ensures(ResolveLabel::text, (ResolveLabel::Hit,), hit),
        call_ensures(ResolveLabel::text, (ResolveLabel::Miss,), miss),
        call_ensures(ResolveLabel::text, (ResolveLabel::Error,), error),
    ensures
        hit@ == "hit"@,
        miss@ == "miss"@,
        error@ == "error"@,
{
}

/// The response of the first project that answered 200 is the one that a fan-out comes
/// to.
pub proof fn law_first_success_is_selected(
    outcomes: Vec<Outcome>,
    complete: bool,
    wanted: Wanted,
    r: Result<ResolveResult, ResolveError>,
    i: int,
)
    requires
        call_ensures(select_manifest, (outcomes, complete, &wanted), r),
        0 <= i < outcomes@.len(),
        outcomes@[i] is Ok && outcomes@[i]->Ok_0.status == 200,
        forall|j: int|
            0 <= j < i ==> !(#[trigger] outcomes@[j] is Ok && outcomes@[j]->Ok_0.status == 200),
    ensures
        r == Ok::<ResolveResult, ResolveError>(outcomes@[i]->Ok_0),
{
    lemma_first_success(outcomes@, i);
}

proof fn lemma_first_success(outcomes: Seq<Outcome>, i: int)
    requires
        0 <= i < outcomes.len(),
        outcomes[i] is Ok && outcomes[i]->Ok_0.status == 200,
        forall|j: int|
            0 <= j < i ==> !(#[trigger] outcomes[j] is Ok && outcomes[j]->Ok_0.status == 200),
    ensures
        crate::resolver::first_found(outcomes) == Some(outcomes[i]->Ok_0),
    decreases i,
{
    if i > 0 {
        let rest = outcomes.drop_first();
        assert(!(outcomes[0] is Ok && outcomes[0]->Ok_0.status == 200));
        assert forall|j: int| 0 <= j < i - 1 implies !(#[trigger] rest[j] is Ok
            && rest[j]->Ok_0.status == 200) by {
            assert(rest[j] == outcomes[j + 1]);
        }
        lemma_first_success(rest, i - 1);
    }
}

proof fn lemma_no_success(outcomes: Seq<Outcome>)
    requires
        forall|j: int|
            0 <= j < outcomes.len() ==> !(#[trigger] outcomes[j] is Ok && outcomes[j]->Ok_0.status
                == 200),
    ensures
        crate::resolver::first_found(outcomes) is None,
    decreases outcomes.len(),
{
    if outcomes.len() > 0 {
        let rest = outcomes.drop_first();
        assert(!(outcomes[0] is Ok && outcomes[0]->Ok_0.status == 200));
        assert forall|j: int| 0 <= j < rest.len() implies !(#[trigger] rest[j] is Ok
            && rest[j]->Ok_0.status == 200) by {
            assert(rest[j] == outcomes[j + 1]);
        }
        lemma_no_success(rest);
    }
}

proof fn lemma_last_failure(outcomes: Seq<Outcome>, k: int)
    requires
        -1 <= k < outcomes.len(),
        k >= 0 ==> outcomes[k] is Err,
        forall|j: int| k < j < outcomes.len() ==> #[trigger] outcomes[j] is Ok,
    ensures
        crate::resolver::last_error(outcomes) == (if k >= 0 {
            Some(outcomes[k]->Err_0)
        } else {
            None
        }),
    decreases outcomes.len(),
{
    if outcomes.len() > 0 {
        if k < outcomes.len() - 1 {
            assert(outcomes[outcomes.len() - 1] is Ok);
            let front = outcomes.drop_last();
            assert forall|j: int| k < j < front.len() implies #[trigger] front[j] is Ok by {
                assert(front[j] == outcomes[j]);
            }
            lemma_last_failure(front, k);
        }
    }
}

/// Where no project answered 200, a fan-out fails: with the message of the last project
/// that failed, at place `k`; where none failed (`k` is -1), because nothing was found,
/// and that is certain only where no project was left out.
pub proof fn law_fan_out_without_success_fails(
    outcomes: Vec<Outcome>,
    complete: bool,
    wanted: Wanted,
    r: Result<ResolveResult, ResolveError>,
    k: int,
    message: String,
)
    requires
        call_ensures(select_manifest, (outcomes, complete, &wanted), r),
        forall|j: int|
            0 <= j < outcomes@.len() ==> !(#[trigger] outcomes@[j] is Ok
                && outcomes@[j]->Ok_0.status == 200),
        -1 <= k < outcomes@.len(),
        k >= 0 ==> outcomes@[k] is Err && call_ensures(
            FetchError::message,
            (&outcomes@[k]->Err_0,),
            message,
        ),
        forall|j: int| k < j < outcomes@.len() ==> #[trigger] outcomes@[j] is Ok,
    ensures
        k >= 0 ==> (r matches Err(ResolveError::AllFailed { last }) && last@ == message@),
        k < 0 && complete ==> r == Err::<ResolveResult, ResolveError>(
            ResolveError::NotFound { wanted },
        ),
        k < 0 && !complete ==> r == Err::<ResolveResult, ResolveError>(
            ResolveError::Incomplete { wanted },
        ),
{
    lemma_no_success(outcomes@);
    lemma_last_failure(outcomes@, k);
}

/// What a project sent back is taken as it is, and each way to fail is told apart, with
/// the project and the cause.
pub proof fn law_replies_are_taken_as_they_are(
    project: &str,
    cause: String,
    status: u16,
    headers: HeaderMap,
    body: bytes::Bytes,
    answered: Outcome,
    unanswered: Outcome,
    unread: Outcome,
    late: Outcome,
)
    requires
        call_ensures(
            outcome_of,
            (project, (UpstreamReply::Answered { status, headers, body })),
            answered,
        ),
        call_ensures(outcome_of, (project, (UpstreamReply::Unanswered { cause })), unanswered),
        call_ensures(outcome_of, (project, (UpstreamReply::Unread { cause })), unread),
        call_ensures(outcome_of, (project, UpstreamReply::TimedOut), late),
    ensures
        answered matches Ok(r) && r.project@ == project@ && r.status == status && r.headers
            == headers && r.body == body,
        unanswered matches Err(FetchError::Request { project: p, cause: c }) && p@ == project@ && c
            == cause,
        unread matches Err(FetchError::Body { project: p, cause: c }) && p@ == project@ && c
            == cause,
        late matches Err(FetchError::Timeout { project: p }) && p@ == project@,
{
}

/// A request is sent again exactly where it brought no whole response in time and is
/// allowed another attempt; the delay is the base delay times two to the power of the
/// attempt, as far as 64 bits hold it. Else it is over, with what it came to.
pub proof fn law_failed_requests_are_sent_again(
    resolver: Resolver,
    project: &str,
    attempt: u32,
    reply: UpstreamReply,
    step: FetchStep,
)
    requires
        call_ensures(Resolver::fetch_manifest, (&resolver, project, attempt, reply), step),
    ensures
        step is Retry <==> (reply is Unanswered || reply is Unread) && attempt + 1
            < resolver.retry_max_attempts,
        step matches FetchStep::Retry { delay_ms } ==> delay_ms == (if resolver.retry_base_delay_ms
            * pow2(attempt as nat) <= u64::MAX {
            resolver.retry_base_delay_ms * pow2(attempt as nat)
        } else {
            u64::MAX as int
        }),
        step matches FetchStep::Done(outcome) ==> match reply {
            UpstreamReply::Answered { status, headers, body } => outcome matches Ok(r)
                && r.project@ == project@ && r.status == status && r.headers == headers && r.body
                == body,
            UpstreamReply::Unanswered { cause } => outcome matches Err(
                FetchError::Request { project: p, cause: c },
            ) && p@ == project@ && c == cause,
            UpstreamReply::Unread { cause } => outcome matches Err(
                FetchError::Body { project: p, cause: c },
            ) && p@ == project@ && c == cause,
            UpstreamReply::TimedOut => outcome matches Err(FetchError::Timeout { project: p })
                && p@ == project@,
        },
{
}

/// `headers` are the client's authorization, if it sent one, and behind it each of the
/// media types that it accepts, in order, and nothing else.
pub open spec fn carries(
    headers: Seq<(String, String)>,
    auth: Option<&str>,
    accept: Seq<String>,
) -> bool {
    let first: int = if auth is Some {
        1
    } else {
        0
    };
    &&& headers.len() == first + accept.len()
    &&& auth matches Some(a) ==> headers[0].0@ == "Authorization"@ && headers[0].1@ == a@
    &&& forall|k: int|
        first <= k < headers.len() ==> (#[trigger] headers[k]).0@ == "Accept"@ && headers[k].1@
            == accept[k - first]@
}

pub proof fn lemma_carries(headers: Seq<(String, String)>, auth: Option<&str>, accept: Seq<String>)
    requires
        crate::text::pair_views(headers) == crate::resolver::request_headers(
            crate::text::opt_text(auth),
            crate::text::views(accept),
        ),
    ensures
        carries(headers, auth, accept),
{
    let views = crate::text::pair_views(headers);
    let first: int = if auth is Some {
        1
    } else {
        0
    };
    assert(views.len() == headers.len());
    assert(views.len() == first + accept.len());
    if let Some(a) = auth {
        assert(views[0] == ("Authorization"@, a@));
        assert(views[0] == (headers[0].0@, headers[0].1@));
        assert(headers[0].0@ == "Authorization"@ && headers[0].1@ == a@);
    }
    assert forall|k: int| first <= k < headers.len() implies (#[trigger] headers[k]).0@
        == "Accept"@ && headers[k].1@ == accept[k - first]@ by {
        assert(views[k] == ("Accept"@, crate::text::views(accept)[k - first]));
        assert(views[k] == (headers[k].0@, headers[k].1@));
    }
}

/// A project is asked for exactly what is wanted, under its own name, with the client's
/// authorization and the media types that it accepts.
pub proof fn law_projects_are_asked_for_what_is_wanted(
    resolver: Resolver,
    project: &str,
    wanted: Wanted,
    auth: Option<&str>,
    accept: Vec<String>,
    request: UpstreamRequest,
)
    requires
        call_ensures(
            Resolver::manifest_request,
            (&resolver, project, &wanted, auth, &accept),
            request,
        ),
    ensures
        request.project@ == project@,
        wanted.item == Item::Manifest ==> request.url@ == resolver.harbor_url@ + "/v2/"@ + project@
            + "/"@ + wanted.image@ + "/manifests/"@ + wanted.reference@,
        wanted.item == Item::Tags ==> request.url@ == resolver.harbor_url@ + "/v2/"@ + project@
            + "/"@ + wanted.image@ + "/tags/"@ + wanted.reference@,
        carries(request.headers@, auth, accept@),
{
    lemma_carries(request.headers@, auth, accept@);
}

/// The headers of a request are the client's authorization and the media types that it
/// accepts.
pub proof fn law_request_headers_are_the_clients(
    auth: Option<&str>,
    accept: Vec<String>,
    headers: Vec<(String, String)>,
)
    requires
        call_ensures(build_request_headers, (auth, &accept), headers),
    ensures
        carries(headers@, auth, accept@),
{
    lemma_carries(headers@, auth, accept@);
}

/// The resolver knows the projects that were discovered.
pub proof fn law_discovered_projects_are_known(
    resolver: Resolver,
    discoverer: Discoverer,
    r: Arc<Vec<String>>,
    listed: Arc<Vec<String>>,
)
    requires
        call_ensures(Resolver::get_discovered_projects, (&resolver, &discoverer), r),
        call_ensures(Discoverer::get_projects, (&discoverer,), listed),
    ensures
        crate::text::views((*r)@) == crate::text::views((*listed)@),
{
}

/// The projects whose circuit is closed stand in their order, and none is missing.
pub open spec fn are_the_closed(
    asked: Seq<Seq<char>>,
    projects: Seq<String>,
    open: spec_fn(Seq<char>) -> bool,
) -> bool
    decreases projects.len(),
{
    if projects.len() == 0 {
        asked.len() == 0
    } else if open(projects.last()@) {
        are_the_closed(asked, projects.drop_last(), open)
    } else {
        asked.len() > 0 && asked.last() == projects.last()@ && are_the_closed(
            asked.drop_last(),
            projects.drop_last(),
            open,
        )
    }
}

pub proof fn lemma_are_the_closed(
    known: breaker::Failures,
    timeout: u64,
    projects: Seq<String>,
    now: u64,
    open: spec_fn(Seq<char>) -> bool,
)
    requires
        forall|p: Seq<char>| #[trigger] open(p) == breaker::is_open(known, timeout, p, now),
    ensures
        are_the_closed(
            breaker::closed_of(known, timeout, crate::text::views(projects), now),
            projects,
            open,
        ),
    decreases projects.len(),
{
    let all = crate::text::views(projects);
    if projects.len() > 0 {
        let front = projects.drop_last();
        assert(all.drop_last() =~= crate::text::views(front));
        assert(all.last() == projects.last()@);
        lemma_are_the_closed(known, timeout, front, now, open);
        let closed = breaker::closed_of(known, timeout, all, now);
        if !open(projects.last()@) {
            assert(closed.drop_last() =~= breaker::closed_of(
                known,
                timeout,
                crate::text::views(front),
                now,
            ));
        }
    }
}

/// A fan-out asks the first `max_fanout` of the projects whose circuit is closed, in
/// their order, each under its own name, and no other project. It is complete where no
/// circuit is open. It fails exactly where there are no projects.
pub proof fn law_fan_out_asks_the_closed_projects(
    resolver: Resolver,
    projects: Vec<String>,
    breaker: Breaker,
    now: u64,
    wanted: Wanted,
    auth: Option<&str>,
    accept: Vec<String>,
    r: Result<FanOut, ResolveError>,
    open: spec_fn(Seq<char>) -> bool,
) -> (asked: Seq<Seq<char>>)
    requires
        call_ensures(
            Resolver::fan_out,
            (&resolver, &projects, &breaker, now, &wanted, auth, &accept),
            r,
        ),
        forall|p: Seq<char>| #[trigger]
            open(p) == breaker::is_open(breaker.known(), breaker.limits().1, p, now),
    ensures
        projects@.len() == 0 <==> r is Err,
        r is Err ==> r->Err_0 == ResolveError::NoProjects,
        are_the_closed(asked, projects@, open),
        r matches Ok(fan) ==> {
            &&& fan.complete <==> asked.len() == projects@.len()
            &&& fan.requests@.len() == (if asked.len() <= resolver.max_fanout {
                asked.len() as int
            } else {
                resolver.max_fanout as int
            })
            &&& forall|i: int|
                0 <= i < fan.requests@.len() ==> {
                    let request = #[trigger] fan.requests@[i];
                    &&& request.project@ == asked[i]
                    &&& request.url@ == resolver.harbor_url@ + "/v2/"@ + asked[i] + "/"@
                        + wanted.image@ + (if wanted.item == Item::Manifest {
                        "/manifests/"@
                    } else {
                        "/tags/"@
                    }) + wanted.reference@
                    &&& carries(request.headers@, auth, accept@)
                }
        },
{
    let asked = breaker::closed_of(
        breaker.known(),
        breaker.limits().1,
        crate::text::views(projects@),
        now,
    );
    lemma_are_the_closed(breaker.known(), breaker.limits().1, projects@, now, open);
    if let Ok(fan) = r {
        assert forall|i: int| 0 <= i < fan.requests@.len() implies carries(
            #[trigger] fan.requests@[i].headers@,
            auth,
            accept@,
        ) by {
            lemma_carries(fan.requests@[i].headers@, auth, accept@);
        }
    }
    asked
}

/// The messages of failed requests and of failed resolutions.
pub proof fn law_failures_have_their_messages(
    project: String,
    cause: String,
    wanted: Wanted,
    request: String,
    body: String,
    late: String,
    none: String,
    failed: String,
    missing: String,
    incomplete: String,
    gone: String,
    shared: String,
)
    requires
        call_ensures(FetchError::message, (&(FetchError::Request { project, cause }),), request),
        call_ensures(FetchError::message, (&(FetchError::Body { project, cause }),), body),
        call_ensures(FetchError::message, (&(FetchError::Timeout { project }),), late),
        call_ensures(ResolveError::message, (&ResolveError::NoProjects,), none),
        call_ensures(ResolveError::message, (&(ResolveError::AllFailed { last: cause }),), failed),
        call_ensures(ResolveError::message, (&(ResolveError::NotFound { wanted }),), missing),
        call_ensures(ResolveError::message, (&(ResolveError::Incomplete { wanted }),), incomplete),
        call_ensures(ResolveError::message, (&ResolveError::LeaderGone,), gone),
        call_ensures(ResolveError::message, (&(ResolveError::Shared { message: cause }),), shared),
    ensures
        request@ == "request to "@ + project@ + ": "@ + cause@,
        body@ == "read body from "@ + project@ + ": "@ + cause@,
        late@ == "timeout probing "@ + project@,
        none@ == "no proxy-cache projects discovered"@,
        failed@ == "all projects failed, last error: "@ + cause@,
        wanted.item == Item::Manifest ==> missing@ == "image "@ + wanted.image@ + ":"@
            + wanted.reference@ + " not found in any proxy-cache project"@,
        wanted.item == Item::Tags ==> missing@ == "tags of "@ + wanted.image@
            + " not found in any proxy-cache project"@,
        wanted.item == Item::Manifest ==> incomplete@ == "image "@ + wanted.image@ + ":"@
            + wanted.reference@ + " not found, and some proxy-cache projects were left out"@,
        wanted.item == Item::Tags ==> incomplete@ == "tags of "@ + wanted.image@
            + " not found, and some proxy-cache projects were left out"@,
        gone@ == "singleflight: leader dropped channel"@,
        shared@ == cause@,
{
}

/// A leader answers with what it found and hands the same to those that wait; what they
/// make of it is the same response, or an error with the same message. Those of a
/// leader that was given up learn that.
pub proof fn law_leader_and_followers_agree(
    before: Flights,
    after: Flights,
    key: &str,
    found: Result<ResolveResult, ResolveError>,
    concluded: (
        Result<Arc<ResolveResult>, ResolveError>,
        Result<Arc<ResolveResult>, String>,
        Vec<u64>,
    ),
    received: Result<Arc<ResolveResult>, ResolveError>,
    abandoned: Result<Arc<ResolveResult>, ResolveError>,
    led: String,
    followed: String,
)
    requires
        exists|f: &mut Flights|
            *f == before && *final(f) == after && #[trigger] call_ensures(
                conclude,
                (f, key, found),
                concluded,
            ),
        call_ensures(follow, (Some(concluded.1),), received),
        call_ensures(follow, (None,), abandoned),
        found is Err ==> call_ensures(ResolveError::message, (&found->Err_0,), led),
        received is Err ==> call_ensures(ResolveError::message, (&received->Err_0,), followed),
    ensures
        found matches Ok(response) ==> concluded.0 is Ok && *concluded.0->Ok_0 == response
            && received == concluded.0,
        found matches Err(e) ==> concluded.0 == Err::<Arc<ResolveResult>, ResolveError>(e)
            && received is Err && followed@ == led@,
        abandoned == Err::<Arc<ResolveResult>, ResolveError>(ResolveError::LeaderGone),
        after.board() == flights::landed(before.board(), key@).1,
        concluded.2@ == flights::landed(before.board(), key@).0,
{
}

/// What is handed on of a result is the response itself, or the message.
pub proof fn law_what_is_shared(
    result: Result<Arc<ResolveResult>, ResolveError>,
    handed: Result<Arc<ResolveResult>, String>,
    message: String,
)
    requires
        call_ensures(share, (&result,), handed),
        result is Err ==> call_ensures(ResolveError::message, (&result->Err_0,), message),
    ensures
        result is Ok <==> handed is Ok,
        result is Ok ==> handed->Ok_0 == result->Ok_0,
        result is Err ==> handed->Err_0@ == message@,
{
}

/// A blob is taken from the project of its exact reference, and only where that is not
/// known from the project of its image.
pub proof fn law_exact_reference_goes_before_the_image(
    exact: Option<String>,
    by_image: Option<String>,
    chosen: Option<String>,
    image: &str,
    reference: &str,
    first: ProjectLookup,
    second: ProjectLookup,
    third: ProjectLookup,
    none: Vec<Option<String>>,
    one: Vec<Option<String>>,
    two: Vec<Option<String>>,
)
    requires
        call_ensures(choose_project, (exact, by_image), chosen),
        none@.len() == 0,
        one@ == seq![exact],
        two@ == seq![exact, by_image],
        call_ensures(look_up_project, (image, reference, &none), first),
        call_ensures(look_up_project, (image, reference, &one), second),
        call_ensures(look_up_project, (image, reference, &two), third),
    ensures
        exact is Some ==> chosen == exact,
        exact is None ==> chosen == by_image,
        first matches ProjectLookup::Ask { key } && key@ == image@ + ":"@ + reference@,
        exact is Some ==> second == (ProjectLookup::Known { project: exact }),
        exact is None ==> (second matches ProjectLookup::Ask { key } && key@ == "img:"@ + image@),
        third == (ProjectLookup::Known { project: chosen }),
{
}

/// The project that a cache is found to know for an image was written there for the
/// exact reference or for the image; where neither was written, there is none.
pub proof fn law_cached_project_was_written<C: CacheBackend>(
    resolver: Resolver,
    cache: C,
    image: &str,
    reference: &str,
    r: Option<String>,
)
    requires
        call_ensures(Resolver::cached_project::<C>, (&resolver, &cache, image, reference), r),
    ensures
        r matches Some(project) ==> {
            ||| cache.recalled().contains_key(image@ + ":"@ + reference@) && project@
                == cache.recalled()[image@ + ":"@ + reference@]
            ||| cache.recalled().contains_key("img:"@ + image@) && project@
                == cache.recalled()["img:"@ + image@]
        },
        exists|exact: Option<Seq<char>>|
            {
                &&& #[trigger] cache.answers(image@ + ":"@ + reference@, exact)
                &&& exact is Some ==> r is Some && r->0@ == exact->0
                &&& exact is None ==> cache.answers("img:"@ + image@, crate::text::opt_view(r))
            },
{
}

/// A resolver keeps the settings that it is given.
pub proof fn law_resolver_keeps_its_settings(
    harbor_url: &str,
    timeout: u64,
    max_idle: usize,
    idle_timeout: u64,
    http2: bool,
    max_fanout: usize,
    made: Resolver,
    attempts: u32,
    base_delay: u64,
    retrying: Resolver,
    stale: u64,
    reviving: Resolver,
)
    requires
        call_ensures(
            Resolver::new,
            (harbor_url, timeout, max_idle, idle_timeout, http2, max_fanout),
            made,
        ),
        call_ensures(Resolver::with_retries, (made, attempts, base_delay), retrying),
        call_ensures(Resolver::with_stale, (retrying, stale), reviving),
    ensures
        reviving.harbor_url@ == harbor_url@,
        reviving.timeout_ms == timeout,
        reviving.max_fanout == max_fanout,
        reviving.client.max_idle_per_host == max_idle,
        reviving.client.idle_timeout_ms == idle_timeout,
        reviving.client.http2_prior_knowledge == http2,
        reviving.client.keepalive_ms == 30_000,
        reviving.client.connect_timeout_ms == 5_000,
        reviving.client.nodelay,
        !reviving.client.follow_redirects,
        reviving.client.read_timeout_ms is None,
        made.retry_max_attempts == 1 && made.retry_base_delay_ms == 0 && !made.serve_stale,
        reviving.retry_max_attempts == attempts,
        reviving.retry_base_delay_ms == base_delay,
        reviving.serve_stale <==> stale > 0,
{
}

} // verus!
