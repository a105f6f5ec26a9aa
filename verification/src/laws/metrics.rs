//! Which images are asked for most, and the text of the metrics.

use vstd::prelude::*;

use crate::discovery;
use crate::metrics;
use crate::metrics::{
    append_images, escape_label_value, rank, render, render_after, warmup_keys, Count, Metrics,
};
use crate::resolver::manifest_key_text;
use crate::text;

verus! {

/// New metrics have counted nothing.
pub proof fn law_nothing_is_counted_at_first(
    m: Metrics,
    key: &str,
    manifests: Option<u64>,
    blobs: Option<u64>,
)
    requires
        call_ensures(Metrics::new, (), m),
        call_ensures(Metrics::manifest_requests, (&m, key), manifests),
        call_ensures(Metrics::blob_requests, (&m, key), blobs),
    ensures
        manifests is None,
        blobs is None,
{
}

/// The counts with one more request for `key`, which counts 1 at first.
pub open spec fn with_one_more(before: Map<Seq<char>, u64>, key: Seq<char>) -> Map<Seq<char>, u64> {
    if before.contains_key(key) {
        before.insert(key, (before[key] + 1) as u64)
    } else {
        before.insert(key, 1)
    }
}

/// `after` is `before` with one more request for `key`. Where more than 10000 images are
/// counted then, up to 1000 of those that were asked for at most once are dropped, and
/// fewer only where no such image is left.
pub open spec fn counts_one_more(
    before: Map<Seq<char>, u64>,
    key: Seq<char>,
    after: Map<Seq<char>, u64>,
) -> bool {
    let more = with_one_more(before, key);
    if more.dom().len() <= 10_000 {
        after == more
    } else {
        &&& forall|k: Seq<char>| #[trigger]
            after.contains_key(k) ==> more.contains_key(k) && after[k] == more[k]
        &&& forall|k: Seq<char>| #[trigger]
            more.contains_key(k) && !after.contains_key(k) ==> more[k] <= 1
        &&& more.dom().len() <= after.dom().len() + 1_000
        &&& more.dom().len() < after.dom().len() + 1_000 ==> forall|k: Seq<char>| #[trigger]
            after.contains_key(k) ==> after[k] > 1
    }
}

proof fn lemma_counts_one_more(
    before: Map<Seq<char>, u64>,
    key: Seq<char>,
    after: Map<Seq<char>, u64>,
)
    requires
        metrics::is_eviction(metrics::bumped(before, key), after),
    ensures
        counts_one_more(before, key, after),
{
    assert(metrics::bumped(before, key) == with_one_more(before, key));
}

/// A request for a manifest is counted under its image and reference, and one for a blob
/// under its image; the other counts stay.
pub proof fn law_requests_are_counted_apart(
    before: Metrics,
    image: &str,
    reference: &str,
    key: String,
    manifest: Metrics,
    blob: Metrics,
    tried_manifest: Metrics,
    manifest_taken: bool,
    tried_blob: Metrics,
    blob_taken: bool,
)
    requires
        call_ensures(manifest_key_text, (image, reference), key),
        exists|m: &mut Metrics|
            *m == before && *final(m) == manifest && #[trigger] call_ensures(
                Metrics::record_manifest_request,
                (m, image, reference),
                (),
            ),
        exists|m: &mut Metrics|
            *m == before && *final(m) == blob && #[trigger] call_ensures(
                Metrics::record_blob_request,
                (m, image),
                (),
            ),
        exists|m: &mut Metrics|
            *m == before && *final(m) == tried_manifest && #[trigger] call_ensures(
                Metrics::try_record_manifest_request,
                (m, image, reference),
                manifest_taken,
            ),
        exists|m: &mut Metrics|
            *m == before && *final(m) == tried_blob && #[trigger] call_ensures(
                Metrics::try_record_blob_request,
                (m, image),
                blob_taken,
            ),
    ensures
        counts_one_more(before.manifests(), key@, manifest.manifests()),
        manifest.blobs() == before.blobs(),
        counts_one_more(before.blobs(), image@, blob.blobs()),
        blob.manifests() == before.manifests(),
        manifest_taken ==> counts_one_more(
            before.manifests(),
            key@,
            tried_manifest.manifests(),
        ),
        !manifest_taken ==> tried_manifest.manifests() == before.manifests(),
        !manifest_taken <==> before.manifests().contains_key(key@) && before.manifests()[key@]
            == u64::MAX,
        tried_manifest.blobs() == before.blobs(),
        blob_taken ==> counts_one_more(before.blobs(), image@, tried_blob.blobs()),
        !blob_taken ==> tried_blob.blobs() == before.blobs(),
        !blob_taken <==> before.blobs().contains_key(image@) && before.blobs()[image@] == u64::MAX,
        tried_blob.manifests() == before.manifests(),
{
    lemma_counts_one_more(before.manifests(), key@, manifest.manifests());
    lemma_counts_one_more(before.blobs(), image@, blob.blobs());
    if manifest_taken {
        lemma_counts_one_more(before.manifests(), key@, tried_manifest.manifests());
    }
    if blob_taken {
        lemma_counts_one_more(before.blobs(), image@, tried_blob.blobs());
    }
}

/// What is counted is what is given back.
pub proof fn law_counts_are_given_back(
    m: Metrics,
    key: &str,
    manifests: Option<u64>,
    blobs: Option<u64>,
)
    requires
        call_ensures(Metrics::manifest_requests, (&m, key), manifests),
        call_ensures(Metrics::blob_requests, (&m, key), blobs),
    ensures
        manifests is Some <==> m.manifests().contains_key(key@),
        manifests matches Some(n) ==> n == m.manifests()[key@],
        blobs is Some <==> m.blobs().contains_key(key@),
        blobs matches Some(n) ==> n == m.blobs()[key@],
{
}

/// `r` are the `n` images with the most requests of those with 10 or more, from the most
/// to the fewest.
pub open spec fn are_top(r: Seq<Count>, counted: Map<Seq<char>, u64>, n: nat) -> bool {
    &&& r.len() <= n
    &&& forall|i: int|
        0 <= i < r.len() ==> counted.contains_key((#[trigger] r[i]).0@) && counted[r[i].0@]
            == r[i].1 && r[i].1 >= 10
    &&& forall|i: int, j: int|
        0 <= i < j < r.len() ==> (#[trigger] r[i]).1 >= (#[trigger] r[j]).1 && r[i].0@ != r[j].0@
    &&& forall|key: Seq<char>| #[trigger]
        counted.contains_key(key) && counted[key] >= 10 ==> (exists|i: int|
            0 <= i < r.len() && (#[trigger] r[i]).0@ == key) || (r.len() == n && forall|i: int|
            0 <= i < r.len() ==> (#[trigger] r[i]).1 >= counted[key])
}

proof fn lemma_are_top(r: Seq<Count>, counted: Map<Seq<char>, u64>, n: nat)
    requires
        metrics::is_top(r, counted, n),
    ensures
        are_top(r, counted, n),
{
    assert forall|i: int| 0 <= i < r.len() implies counted.contains_key((#[trigger] r[i]).0@)
        && counted[r[i].0@] == r[i].1 && r[i].1 >= 10 by {
        assert(counted.contains_key(r[i].0@));
    }
    assert forall|i: int, j: int| 0 <= i < j < r.len() implies (#[trigger] r[i]).1 >= (
    #[trigger] r[j]).1 && r[i].0@ != r[j].0@ by {
        assert(r[i].1 >= r[j].1);
        assert(r[i].0@ != r[j].0@);
    }
    assert forall|key: Seq<char>| #[trigger]
        counted.contains_key(key) && counted[key] >= 10 implies (exists|i: int|
        0 <= i < r.len() && (#[trigger] r[i]).0@ == key) || (r.len() == n && forall|i: int|
        0 <= i < r.len() ==> (#[trigger] r[i]).1 >= counted[key]) by {
        if metrics::names(r, key) {
            let i = choose|i: int| 0 <= i < r.len() && #[trigger] r[i].0@ == key;
            assert(r[i].0@ == key);
        } else {
            assert forall|i: int| 0 <= i < r.len() implies (#[trigger] r[i]).1
                >= counted[key] by {
                assert(r[i].1 >= counted[key]);
            }
        }
    }
}

/// The images that are shown are those with the most requests, of manifests and of blobs
/// each.
pub proof fn law_most_requested_are_shown(
    m: Metrics,
    n: usize,
    manifests: Vec<Count>,
    blobs: Vec<Count>,
)
    requires
        call_ensures(Metrics::top_manifest_images, (&m, n), manifests),
        call_ensures(Metrics::top_blob_images, (&m, n), blobs),
    ensures
        are_top(manifests@, m.manifests(), n as nat),
        are_top(blobs@, m.blobs(), n as nat),
{
    lemma_are_top(manifests@, m.manifests(), n as nat);
    lemma_are_top(blobs@, m.blobs(), n as nat);
}

/// Where each of the ranked items stands among the items: `at` holds the positions of
/// all with 10 or more requests, those with more before those with fewer, and of those
/// with equally many the earlier first.
pub open spec fn ranks(items: Seq<Count>, at: Seq<int>) -> bool {
    &&& forall|k: int|
        0 <= k < at.len() ==> 0 <= #[trigger] at[k] < items.len() && items[at[k]].1 >= 10
    &&& forall|k: int, l: int|
        0 <= k < l < at.len() ==> items[#[trigger] at[k]].1 > items[#[trigger] at[l]].1 || (
        items[at[k]].1 == items[at[l]].1 && at[k] < at[l])
    &&& forall|i: int|
        0 <= i < items.len() && (#[trigger] items[i]).1 >= 10 ==> at.contains(i)
}

proof fn lemma_ranks(items: Seq<Count>) -> (at: Seq<int>)
    ensures
        ranks(items, at),
        metrics::ranked(metrics::popular(items)).len() == at.len(),
        forall|k: int|
            0 <= k < at.len() ==> metrics::ranked(metrics::popular(items))[k]
                == items[#[trigger] at[k]],
    decreases items.len(),
{
    if items.len() == 0 {
        let at = Seq::<int>::empty();
        assert(ranks(items, at));
        at
    } else {
        let front = items.drop_last();
        let last = items.last();
        let n = items.len() - 1;
        let before = lemma_ranks(front);
        let old_ranking = metrics::ranked(metrics::popular(front));
        if last.1 >= 10 {
            assert(metrics::popular(items).drop_last() =~= metrics::popular(front));
            let p = metrics::place(old_ranking, last.1);
            metrics::lemma_place(old_ranking, last.1);
            let at = before.insert(p, n);
            let ranking = metrics::ranked(metrics::popular(items));
            assert forall|k: int| 0 <= k < at.len() implies #[trigger] at[k] == (if k < p {
                before[k]
            } else if k == p {
                n
            } else {
                before[k - 1]
            }) by {}
            assert forall|k: int| 0 <= k < at.len() implies 0 <= #[trigger] at[k] < items.len()
                && items[at[k]].1 >= 10 && ranking[k] == items[at[k]] by {
                if k < p {
                    assert(front[before[k]] == items[before[k]]);
                } else if k > p {
                    assert(front[before[k - 1]] == items[before[k - 1]]);
                }
            }
            assert forall|k: int, l: int| 0 <= k < l < at.len() implies items[#[trigger] at[k]].1
                > items[#[trigger] at[l]].1 || (items[at[k]].1 == items[at[l]].1 && at[k]
                < at[l]) by {
                if k == p {
                    let j = before[l - 1];
                    assert(front[j] == items[j]);
                    if l - 1 > p {
                        let q = before[p];
                        assert(front[q] == items[q]);
                    }
                    assert(old_ranking[p].1 < last.1);
                } else if l == p {
                    let j = before[k];
                    assert(front[j] == items[j]);
                    assert(old_ranking[k].1 >= last.1);
                } else {
                    let x = if k < p {
                        k
                    } else {
                        k - 1
                    };
                    let y = if l < p {
                        l
                    } else {
                        l - 1
                    };
                    assert(front[before[x]] == items[before[x]]);
                    assert(front[before[y]] == items[before[y]]);
                }
            }
            assert forall|i: int| 0 <= i < items.len() && (#[trigger] items[i]).1
                >= 10 implies at.contains(i) by {
                if i == n {
                    assert(at[p] == n);
                } else {
                    assert(front[i] == items[i]);
                    assert(before.contains(i));
                    let k = choose|k: int| 0 <= k < before.len() && before[k] == i;
                    if k < p {
                        assert(at[k] == i);
                    } else {
                        assert(at[k + 1] == i);
                    }
                }
            }
            at
        } else {
            assert forall|k: int| 0 <= k < before.len() implies 0 <= #[trigger] before[k]
                < items.len() && items[before[k]].1 >= 10 && items[before[k]]
                == front[before[k]] by {}
            assert forall|i: int| 0 <= i < items.len() && (#[trigger] items[i]).1
                >= 10 implies before.contains(i) by {
                assert(front[i] == items[i]);
            }
            before
        }
    }
}

/// A ranking holds the first `n` of the items with 10 or more requests, from the most to
/// the fewest; those with equally many keep their order.
pub proof fn law_ranking_is_stable(items: Vec<Count>, n: usize, r: Vec<Count>) -> (at: Seq<int>)
    requires
        call_ensures(rank, (items, n), r),
    ensures
        ranks(items@, at),
        r@.len() == (if at.len() <= n {
            at.len() as int
        } else {
            n as int
        }),
        forall|k: int| 0 <= k < r@.len() ==> r@[k] == items@[#[trigger] at[k]],
{
    let at = lemma_ranks(items@);
    assert forall|k: int| 0 <= k < r@.len() implies r@[k] == items@[#[trigger] at[k]] by {
        assert(metrics::ranked(metrics::popular(items@))[k] == items@[at[k]]);
    }
    at
}

proof fn lemma_escaped_concat(a: Seq<char>, b: Seq<char>)
    ensures
        metrics::escaped(a + b) == metrics::escaped(a) + metrics::escaped(b),
    decreases b.len(),
{
    if b.len() == 0 {
        assert(a + b =~= a);
        assert(metrics::escaped(a) + metrics::escaped(b) =~= metrics::escaped(a));
    } else {
        lemma_escaped_concat(a, b.drop_last());
        assert((a + b).drop_last() =~= a + b.drop_last());
        assert(metrics::escaped(a + b) =~= metrics::escaped(a) + metrics::escaped(b));
    }
}

/// A label value is escaped character by character: a backslash and a quote get a
/// backslash before them, a line break becomes a backslash and an `n`, and any other
/// character stays.
pub proof fn law_labels_are_escaped_one_by_one(
    a: &str,
    b: &str,
    both: &str,
    ra: String,
    rb: String,
    r: String,
    c: char,
    one: &str,
    r1: String,
    none: &str,
    r0: String,
)
    requires
        both@ == a@ + b@,
        one@ == seq![c],
        none@.len() == 0,
        call_ensures(escape_label_value, (a,), ra),
        call_ensures(escape_label_value, (b,), rb),
        call_ensures(escape_label_value, (both,), r),
        call_ensures(escape_label_value, (one,), r1),
        call_ensures(escape_label_value, (none,), r0),
    ensures
        r@ == ra@ + rb@,
        r0@.len() == 0,
        c == '\\' ==> r1@ == seq!['\\', '\\'],
        c == '"' ==> r1@ == seq!['\\', '"'],
        c == '\n' ==> r1@ == seq!['\\', 'n'],
        c != '\\' && c != '"' && c != '\n' ==> r1@ == seq![c],
{
    lemma_escaped_concat(a@, b@);
    assert(one@.drop_last() =~= Seq::<char>::empty());
    assert(one@.last() == c);
    assert(metrics::escaped(one@.drop_last()).len() == 0);
    assert(metrics::escaped(one@) =~= metrics::escape(c));
}

/// `lines` is one line for each image: the name of the metric, the image as a label, and
/// how often it was asked for.
pub open spec fn are_lines(lines: Seq<char>, name: Seq<char>, items: Seq<Count>) -> bool
    decreases items.len(),
{
    if items.len() == 0 {
        lines.len() == 0
    } else {
        exists|front: Seq<char>|
            lines == #[trigger] (front + name + "{image=\""@ + metrics::escaped(items.last().0@)
                + "\"} "@ + text::decimal(items.last().1 as nat) + "\n"@) && are_lines(
                front,
                name,
                items.drop_last(),
            )
    }
}

proof fn lemma_are_lines(name: Seq<char>, items: Seq<Count>)
    ensures
        are_lines(metrics::samples(name, items), name, items),
    decreases items.len(),
{
    if items.len() > 0 {
        lemma_are_lines(name, items.drop_last());
        let front = metrics::samples(name, items.drop_last());
        assert(metrics::samples(name, items) == front + name + "{image=\""@ + metrics::escaped(
            items.last().0@,
        ) + "\"} "@ + text::decimal(items.last().1 as nat) + "\n"@);
    }
}

/// `r` is `head` with the metrics on images behind it.
pub open spec fn shows_images(
    r: Seq<char>,
    head: Seq<char>,
    manifests: Seq<Count>,
    blobs: Seq<Count>,
    tracked_manifests: nat,
    tracked_blobs: nat,
) -> bool {
    exists|m: Seq<char>, b: Seq<char>|
        {
            &&& #[trigger] are_lines(m, "harbor_router_top_manifest_images"@, manifests)
            &&& #[trigger] are_lines(b, "harbor_router_top_blob_images"@, blobs)
            &&& r == head
                + "\n# HELP harbor_router_top_manifest_images Top requested images by manifest pulls\n"@
                + "# TYPE harbor_router_top_manifest_images gauge\n"@ + m
                + "\n# HELP harbor_router_top_blob_images Top requested images by blob pulls\n"@
                + "# TYPE harbor_router_top_blob_images gauge\n"@ + b
                + "\n# HELP harbor_router_tracked_images_total Number of unique images being tracked\n"@
                + "# TYPE harbor_router_tracked_images_total gauge\n"@
                + "harbor_router_tracked_images_total{type=\"manifest\"} "@ + text::decimal(
                tracked_manifests,
            ) + "\n"@ + "harbor_router_tracked_images_total{type=\"blob\"} "@ + text::decimal(
                tracked_blobs,
            ) + "\n"@
        }
}

proof fn lemma_shows_images(
    head: Seq<char>,
    manifests: Seq<Count>,
    blobs: Seq<Count>,
    tracked_manifests: nat,
    tracked_blobs: nat,
)
    ensures
        shows_images(
            metrics::with_images(head, manifests, blobs, tracked_manifests, tracked_blobs),
            head,
            manifests,
            blobs,
            tracked_manifests,
            tracked_blobs,
        ),
{
    lemma_are_lines("harbor_router_top_manifest_images"@, manifests);
    lemma_are_lines("harbor_router_top_blob_images"@, blobs);
}

/// The metrics on images have their text: for each image a line, and how many images
/// are tracked.
pub proof fn law_image_metrics_have_their_text(
    head: String,
    manifests: Vec<Count>,
    blobs: Vec<Count>,
    tracked_manifests: usize,
    tracked_blobs: usize,
    r: String,
)
    requires
        call_ensures(
            append_images,
            (head, &manifests, &blobs, tracked_manifests, tracked_blobs),
            r,
        ),
    ensures
        shows_images(
            r@,
            head@,
            manifests@,
            blobs@,
            tracked_manifests as nat,
            tracked_blobs as nat,
        ),
{
    lemma_shows_images(
        head@,
        manifests@,
        blobs@,
        tracked_manifests as nat,
        tracked_blobs as nat,
    );
}

/// The text of all metrics is that of the registered ones, and behind it the metrics on
/// the 100 images that are asked for most, of manifests and of blobs, with the number of
/// images that are counted.
pub proof fn law_rendering_shows_the_most_requested(
    m: Metrics,
    head: String,
    r: Result<String, prometheus::Error>,
) -> (top: (Seq<Count>, Seq<Count>))
    requires
        call_ensures(render_after, (&m, Ok(head)), r),
    ensures
        r is Ok,
        are_top(top.0, m.manifests(), 100),
        are_top(top.1, m.blobs(), 100),
        shows_images(
            r->Ok_0@,
            head@,
            top.0,
            top.1,
            m.manifests().dom().len(),
            m.blobs().dom().len(),
        ),
{
    let (manifests, blobs) = choose|manifests: Seq<Count>, blobs: Seq<Count>|
        {
            &&& metrics::is_top(manifests, m.manifests(), 100)
            &&& metrics::is_top(blobs, m.blobs(), 100)
            &&& r->Ok_0@ == #[trigger] metrics::with_images(
                head@,
                manifests,
                blobs,
                m.manifests().dom().len(),
                m.blobs().dom().len(),
            )
        };
    lemma_are_top(manifests, m.manifests(), 100);
    lemma_are_top(blobs, m.blobs(), 100);
    lemma_shows_images(
        head@,
        manifests,
        blobs,
        m.manifests().dom().len(),
        m.blobs().dom().len(),
    );
    (manifests, blobs)
}

/// What could not be written out of the registered metrics is the error, and what is
/// rendered shows the metrics on images behind whatever the registered ones are.
pub proof fn law_rendering_fails_with_the_registered(
    m: Metrics,
    e: prometheus::Error,
    failed: Result<String, prometheus::Error>,
    r: Result<String, prometheus::Error>,
)
    requires
        call_ensures(render_after, (&m, Err(e)), failed),
        call_ensures(render, (&m,), r),
    ensures
        failed == Err::<String, prometheus::Error>(e),
        r matches Ok(out) ==> exists|head: Seq<char>, manifests: Seq<Count>, blobs: Seq<Count>|
            {
                &&& are_top(manifests, m.manifests(), 100)
                &&& are_top(blobs, m.blobs(), 100)
                &&& #[trigger] shows_images(
                    out@,
                    head,
                    manifests,
                    blobs,
                    m.manifests().dom().len(),
                    m.blobs().dom().len(),
                )
            },
{
    if let Ok(out) = r {
        let head = choose|head: Seq<char>| #[trigger]
            metrics::is_rendering_after(out@, head, m.manifests(), m.blobs());
        let (manifests, blobs) = choose|manifests: Seq<Count>, blobs: Seq<Count>|
            {
                &&& metrics::is_top(manifests, m.manifests(), 100)
                &&& metrics::is_top(blobs, m.blobs(), 100)
                &&& out@ == #[trigger] metrics::with_images(
                    head,
                    manifests,
                    blobs,
                    m.manifests().dom().len(),
                    m.blobs().dom().len(),
                )
            };
        lemma_are_top(manifests, m.manifests(), 100);
        lemma_are_top(blobs, m.blobs(), 100);
        lemma_shows_images(
            head,
            manifests,
            blobs,
            m.manifests().dom().len(),
            m.blobs().dom().len(),
        );
    }
}

/// What one router hands on under `warmup:images` are the `n` manifests that it was asked
/// for most, and another one that reads it gets them, in that order. From nothing, or
/// from what is no list, it gets none.
pub proof fn law_most_requested_are_handed_on(
    m: Metrics,
    n: usize,
    entry: (String, String),
    json: &str,
    keys: Vec<String>,
    nothing: Vec<String>,
    odd: &str,
    none: Vec<String>,
) -> (top: Seq<Count>)
    requires
        call_ensures(Metrics::warmup_entry, (&m, n), entry),
        json@ == entry.1@,
        call_ensures(warmup_keys, (Some(json),), keys),
        call_ensures(warmup_keys, (None,), nothing),
        discovery::names_in(odd@) is None,
        call_ensures(warmup_keys, (Some(odd),), none),
    ensures
        entry.0@ == "warmup:images"@,
        are_top(top, m.manifests(), n as nat),
        keys@.len() == top.len(),
        forall|i: int| 0 <= i < top.len() ==> (#[trigger] keys@[i])@ == top[i].0@,
        nothing@.len() == 0,
        none@.len() == 0,
{
    let top = choose|top: Seq<Count>|
        {
            &&& #[trigger] metrics::is_top(top, m.manifests(), n as nat)
            &&& entry.1@ == discovery::json_of(metrics::names_of(top))
            &&& discovery::names_in(entry.1@) == Some(metrics::names_of(top))
        };
    lemma_are_top(top, m.manifests(), n as nat);
    let views = text::views(keys@);
    assert(views.len() == keys@.len());
    assert forall|i: int| 0 <= i < top.len() implies (#[trigger] keys@[i])@ == top[i].0@ by {
        assert(views[i] == metrics::names_of(top)[i]);
    }
    assert(text::views(nothing@).len() == nothing@.len());
    assert(text::views(none@).len() == none@.len());
    top
}

} // verus!
