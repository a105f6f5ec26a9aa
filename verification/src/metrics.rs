//! Which images are asked for most, and the text of the metrics.

use dashmap::DashMap;
use prometheus::TextEncoder;
use vstd::prelude::*;
use vstd::string::*;

use crate::counts;
use crate::discovery;
use crate::resolver;
use crate::text;

verus! {

/// The number of images beyond which some are dropped.
pub const MAX_TRACKED_IMAGES: usize = 10_000;

/// How many images are dropped at a time.
pub const MAX_EVICTED: usize = 1_000;

/// The number of requests from which on an image is shown.
pub const MIN_REQUESTS_FOR_TOP_N: u64 = 10;

/// The number of images that are shown.
pub const TOP_N_IMAGES: usize = 100;

/// An image and the number of requests for it.
pub type Count = (String, u64);

/// The images among `items` that have enough requests to be shown, in order.
pub open spec fn popular(items: Seq<Count>) -> Seq<Count>
    decreases items.len(),
{
    if items.len() == 0 {
        seq![]
    } else {
        let rest = popular(items.drop_last());
        if items.last().1 >= MIN_REQUESTS_FOR_TOP_N {
            rest.push(items.last())
        } else {
            rest
        }
    }
}

/// Where an image with `count` requests belongs in a ranking: behind all that have
/// as many or more.
pub open spec fn place(ranking: Seq<Count>, count: u64) -> int
    decreases ranking.len(),
{
    if ranking.len() == 0 || ranking[0].1 < count {
        0
    } else {
        1 + place(ranking.drop_first(), count)
    }
}

/// A ranking with one more image in its place.
pub open spec fn placed(ranking: Seq<Count>, item: Count) -> Seq<Count> {
    ranking.insert(place(ranking, item.1), item)
}

/// The items from the most requests to the fewest; those with equally many stay
/// in order.
pub open spec fn ranked(items: Seq<Count>) -> Seq<Count>
    decreases items.len(),
{
    if items.len() == 0 {
        seq![]
    } else {
        placed(ranked(items.drop_last()), items.last())
    }
}

/// The first `n` of a sequence; all of it where there are fewer.
pub open spec fn first_n(ranking: Seq<Count>, n: nat) -> Seq<Count> {
    if ranking.len() <= n {
        ranking
    } else {
        ranking.take(n as int)
    }
}

/// From each image to the next the number of requests does not grow.
pub open spec fn falling(ranking: Seq<Count>) -> bool {
    forall|i: int, j: int|
        0 <= i < j < ranking.len() ==> #[trigger] ranking[i].1 >= #[trigger] ranking[j].1
}

/// No image occurs twice.
pub open spec fn keyed(items: Seq<Count>) -> bool {
    forall|i: int, j: int|
        0 <= i < j < items.len() ==> #[trigger] items[i].0@ != #[trigger] items[j].0@
}

/// `key` occurs among the items.
pub open spec fn names(items: Seq<Count>, key: Seq<char>) -> bool {
    exists|i: int| 0 <= i < items.len() && #[trigger] items[i].0@ == key
}

/// `r` holds the `n` images with the most requests of those that `counted` holds
/// and that have enough requests to be shown, from the most to the fewest. Which
/// of two with equally many comes first is open.
pub open spec fn is_top(r: Seq<Count>, counted: Map<Seq<char>, u64>, n: nat) -> bool {
    &&& r.len() <= n
    &&& keyed(r)
    &&& falling(r)
    &&& forall|i: int|
        0 <= i < r.len() ==> counted.contains_key(#[trigger] r[i].0@) && counted[r[i].0@] == r[i].1
            && r[i].1 >= MIN_REQUESTS_FOR_TOP_N
    &&& forall|key: Seq<char>| #[trigger]
        counted.contains_key(key) && counted[key] >= MIN_REQUESTS_FOR_TOP_N && !names(r, key) ==> {
            &&& r.len() == n
            &&& forall|i: int| 0 <= i < r.len() ==> #[trigger] r[i].1 >= counted[key]
        }
}

pub proof fn lemma_place(ranking: Seq<Count>, count: u64)
    ensures
        0 <= place(ranking, count) <= ranking.len(),
        forall|k: int| 0 <= k < place(ranking, count) ==> #[trigger] ranking[k].1 >= count,
        place(ranking, count) < ranking.len() ==> ranking[place(ranking, count)].1 < count,
    decreases ranking.len(),
{
    if ranking.len() > 0 && ranking[0].1 >= count {
        let rest = ranking.drop_first();
        lemma_place(rest, count);
        assert forall|k: int| 0 <= k < place(ranking, count) implies #[trigger] ranking[k].1
            >= count by {
            if k > 0 {
                assert(rest[k - 1] == ranking[k]);
            }
        }
        if place(ranking, count) < ranking.len() {
            assert(rest[place(rest, count)] == ranking[place(ranking, count)]);
        }
    }
}

proof fn lemma_place_unique(ranking: Seq<Count>, count: u64, k: int)
    requires
        0 <= k <= ranking.len(),
        forall|j: int| 0 <= j < k ==> #[trigger] ranking[j].1 >= count,
        k < ranking.len() ==> ranking[k].1 < count,
    ensures
        place(ranking, count) == k,
{
    lemma_place(ranking, count);
    let p = place(ranking, count);
    if p < k {
        assert(ranking[p].1 >= count);
    }
    if k < p {
        assert(ranking[k].1 >= count);
    }
}

/// It is enough to keep the first `n` while placing one image after the other.
proof fn lemma_first_n_placed(ranking: Seq<Count>, item: Count, n: nat)
    ensures
        first_n(placed(first_n(ranking, n), item), n) == first_n(placed(ranking, item), n),
{
    lemma_place(ranking, item.1);
    if ranking.len() > n {
        let kept = ranking.take(n as int);
        let p = place(ranking, item.1);
        if p <= n {
            assert forall|j: int| 0 <= j < p implies #[trigger] kept[j].1 >= item.1 by {
                assert(kept[j] == ranking[j]);
            }
            if p < n {
                assert(kept[p] == ranking[p]);
            }
            lemma_place_unique(kept, item.1, p);
        } else {
            assert forall|j: int| 0 <= j < n implies #[trigger] kept[j].1 >= item.1 by {
                assert(kept[j] == ranking[j]);
            }
            lemma_place_unique(kept, item.1, n as int);
        }
        assert(placed(kept, item).take(n as int) =~= placed(ranking, item).take(n as int));
    }
}

proof fn lemma_popular(items: Seq<Count>)
    ensures
        forall|x: Count|
            popular(items).contains(x) <==> (items.contains(x) && x.1 >= MIN_REQUESTS_FOR_TOP_N),
        keyed(items) ==> keyed(popular(items)),
    decreases items.len(),
{
    if items.len() > 0 {
        let front = items.drop_last();
        let last = items.last();
        let rest = popular(front);
        lemma_popular(front);
        assert forall|x: Count|
            popular(items).contains(x) <==> (items.contains(x) && x.1
                >= MIN_REQUESTS_FOR_TOP_N) by {
            lemma_contains_last(items, x);
            if last.1 >= MIN_REQUESTS_FOR_TOP_N {
                lemma_contains_last(popular(items), x);
                assert(popular(items).drop_last() =~= rest);
            }
        }
        if keyed(items) {
            assert forall|i: int, j: int| 0 <= i < j < front.len() implies #[trigger] front[i].0@
                != #[trigger] front[j].0@ by {
                assert(front[i] == items[i] && front[j] == items[j]);
            }
            if last.1 >= MIN_REQUESTS_FOR_TOP_N {
                assert forall|i: int| 0 <= i < rest.len() implies #[trigger] rest[i].0@
                    != last.0@ by {
                    assert(rest.contains(rest[i]));
                    assert(front.contains(rest[i]));
                    let k = choose|k: int| 0 <= k < front.len() && front[k] == rest[i];
                    assert(items[k] == rest[i]);
                    assert(items[items.len() - 1] == last);
                }
            }
        }
    }
}

proof fn lemma_contains_last(items: Seq<Count>, x: Count)
    requires
        items.len() > 0,
    ensures
        items.contains(x) <==> (items.drop_last().contains(x) || items.last() == x),
{
    if items.contains(x) {
        let k = choose|k: int| 0 <= k < items.len() && items[k] == x;
        if k < items.len() - 1 {
            assert(items.drop_last()[k] == x);
        }
    }
    if items.drop_last().contains(x) {
        let k = choose|k: int| 0 <= k < items.len() - 1 && items.drop_last()[k] == x;
        assert(items[k] == x);
    }
    if items.last() == x {
        assert(items[items.len() - 1] == x);
    }
}

proof fn lemma_placed(ranking: Seq<Count>, item: Count)
    requires
        falling(ranking),
    ensures
        falling(placed(ranking, item)),
        placed(ranking, item).len() == ranking.len() + 1,
        forall|x: Count|
            placed(ranking, item).contains(x) <==> (ranking.contains(x) || x == item),
        keyed(ranking) && !names(ranking, item.0@) ==> keyed(placed(ranking, item)),
{
    lemma_place(ranking, item.1);
    let p = place(ranking, item.1);
    let all = placed(ranking, item);
    assert forall|i: int| 0 <= i < all.len() implies #[trigger] all[i] == (if i < p {
        ranking[i]
    } else if i == p {
        item
    } else {
        ranking[i - 1]
    }) by {}
    assert forall|i: int, j: int| 0 <= i < j < all.len() implies #[trigger] all[i].1
        >= #[trigger] all[j].1 by {
        if i == p {
            assert(ranking[j - 1].1 <= ranking[p].1);
        }
    }
    assert forall|x: Count| all.contains(x) <==> (ranking.contains(x) || x == item) by {
        if all.contains(x) {
            let k = choose|k: int| 0 <= k < all.len() && all[k] == x;
            if k < p {
                assert(ranking[k] == x);
            } else if k > p {
                assert(ranking[k - 1] == x);
            }
        }
        if ranking.contains(x) {
            let k = choose|k: int| 0 <= k < ranking.len() && ranking[k] == x;
            if k < p {
                assert(all[k] == x);
            } else {
                assert(all[k + 1] == x);
            }
        }
        if x == item {
            assert(all[p] == x);
        }
    }
}

proof fn lemma_ranked(items: Seq<Count>)
    ensures
        falling(ranked(items)),
        ranked(items).len() == items.len(),
        forall|x: Count| ranked(items).contains(x) <==> items.contains(x),
        keyed(items) ==> keyed(ranked(items)),
    decreases items.len(),
{
    if items.len() > 0 {
        let front = items.drop_last();
        let last = items.last();
        lemma_ranked(front);
        lemma_placed(ranked(front), last);
        assert forall|x: Count| ranked(items).contains(x) <==> items.contains(x) by {
            lemma_contains_last(items, x);
        }
        if keyed(items) {
            assert forall|i: int, j: int| 0 <= i < j < front.len() implies #[trigger] front[i].0@
                != #[trigger] front[j].0@ by {
                assert(front[i] == items[i] && front[j] == items[j]);
            }
            let before = ranked(front);
            if names(before, last.0@) {
                let i = choose|i: int| 0 <= i < before.len() && #[trigger] before[i].0@ == last.0@;
                assert(before.contains(before[i]));
                assert(front.contains(before[i]));
                let k = choose|k: int| 0 <= k < front.len() && front[k] == before[i];
                assert(items[k] == before[i]);
                assert(items[items.len() - 1] == last);
            }
        }
    }
}

/// Whatever order the counts come in, the ranking shows the images with the most
/// requests.
pub proof fn law_ranking_shows_the_most_requested(
    items: Seq<Count>,
    counted: Map<Seq<char>, u64>,
    n: nat,
)
    requires
        counts::lists(items, counted),
    ensures
        is_top(first_n(ranked(popular(items)), n), counted, n),
{
    let shown = popular(items);
    let all = ranked(shown);
    let r = first_n(all, n);
    lemma_popular(items);
    lemma_ranked(shown);
    assert forall|i: int| 0 <= i < r.len() implies counted.contains_key(#[trigger] r[i].0@)
        && counted[r[i].0@] == r[i].1 && r[i].1 >= MIN_REQUESTS_FOR_TOP_N by {
        assert(r[i] == all[i]);
        assert(all.contains(all[i]));
        assert(shown.contains(all[i]));
        assert(items.contains(all[i]));
        let k = choose|k: int| 0 <= k < items.len() && items[k] == all[i];
        assert(items[k].0@ == r[i].0@);
    }
    assert forall|i: int, j: int| 0 <= i < j < r.len() implies #[trigger] r[i].0@
        != #[trigger] r[j].0@ by {
        assert(r[i] == all[i] && r[j] == all[j]);
    }
    assert forall|i: int, j: int| 0 <= i < j < r.len() implies #[trigger] r[i].1
        >= #[trigger] r[j].1 by {
        assert(r[i] == all[i] && r[j] == all[j]);
    }
    assert forall|key: Seq<char>| #[trigger]
        counted.contains_key(key) && counted[key] >= MIN_REQUESTS_FOR_TOP_N && !names(
            r,
            key,
        ) implies ({
        &&& r.len() == n
        &&& forall|i: int| 0 <= i < r.len() ==> #[trigger] r[i].1 >= counted[key]
    }) by {
        let k = choose|k: int| 0 <= k < items.len() && items[k].0@ == key;
        assert(items[k].1 == counted[key]);
        assert(items.contains(items[k]));
        assert(shown.contains(items[k]));
        assert(all.contains(items[k]));
        let j = choose|j: int| 0 <= j < all.len() && all[j] == items[k];
        if j < r.len() {
            assert(r[j].0@ == key);
        }
        assert forall|i: int| 0 <= i < r.len() implies #[trigger] r[i].1 >= counted[key] by {
            assert(r[i] == all[i]);
            assert(all[i].1 >= all[j].1);
        }
    }
}

/// The `n` images with the most requests, of those that have enough requests to
/// be shown.
pub fn rank(items: Vec<Count>, n: usize) -> (r: Vec<Count>)
    ensures
        r@ == first_n(ranked(popular(items@)), n as nat),
{
    let mut r: Vec<Count> = Vec::new();
    let mut i: usize = 0;
    assert(items@.take(0) =~= Seq::<Count>::empty());
    while i < items.len()
        invariant
            i <= items@.len(),
            r@ == first_n(ranked(popular(items@.take(i as int))), n as nat),
        decreases items@.len() - i,
    {
        let ghost before = popular(items@.take(i as int));
        let ghost next = items@.take(i + 1);
        assert(next.drop_last() =~= items@.take(i as int));
        assert(next.last() == items@[i as int]);
        let count: u64 = items[i].1;
        if count >= MIN_REQUESTS_FOR_TOP_N {
            let mut at: usize = 0;
            while at < r.len() && r[at].1 >= count
                invariant
                    at <= r@.len(),
                    forall|k: int| 0 <= k < at ==> #[trigger] r@[k].1 >= count,
                decreases r@.len() - at,
            {
                at = at + 1;
            }
            let item: Count = (items[i].0.clone(), count);
            proof {
                assert(popular(next).drop_last() =~= before);
                lemma_place_unique(r@, count, at as int);
                lemma_first_n_placed(ranked(before), items@[i as int], n as nat);
            }
            let ghost kept = r@;
            r.insert(at, item);
            assert(r@ == placed(kept, items@[i as int]));
            r.truncate(n);
            assert(r@ == first_n(placed(kept, items@[i as int]), n as nat));
        }
        i = i + 1;
    }
    assert(items@.take(items@.len() as int) =~= items@);
    r
}

/// The images among `items` that were asked for at most once, in order.
pub open spec fn idle(items: Seq<Count>) -> Seq<Seq<char>>
    decreases items.len(),
{
    if items.len() == 0 {
        seq![]
    } else {
        let rest = idle(items.drop_last());
        if items.last().1 <= 1 {
            rest.push(items.last().0@)
        } else {
            rest
        }
    }
}

/// The first images, at most `limit` of them, that were asked for at most once.
fn idle_images(items: &Vec<Count>, limit: usize) -> (r: Vec<String>)
    ensures
        text::views(r@) == idle(items@).take(r@.len() as int),
        r@.len() == (if idle(items@).len() < limit {
            idle(items@).len()
        } else {
            limit as nat
        }),
{
    let mut r: Vec<String> = Vec::new();
    let mut i: usize = 0;
    assert(items@.take(0) =~= Seq::<Count>::empty());
    assert(text::views(r@) =~= Seq::<Seq<char>>::empty());
    while i < items.len() && r.len() < limit
        invariant
            i <= items@.len(),
            r@.len() <= limit,
            text::views(r@) == idle(items@.take(i as int)),
        decreases items@.len() - i,
    {
        let ghost next = items@.take(i + 1);
        assert(next.drop_last() =~= items@.take(i as int));
        assert(next.last() == items@[i as int]);
        let ghost before = r@;
        if items[i].1 <= 1 {
            r.push(items[i].0.clone());
            assert(text::views(r@) =~= text::views(before).push(items@[i as int].0@));
        }
        i = i + 1;
    }
    proof {
        lemma_idle_prefix(items@, i as int);
        assert(text::views(r@).len() == r@.len());
        if i == items@.len() {
            assert(items@.take(i as int) =~= items@);
        }
        assert(idle(items@).take(r@.len() as int) =~= text::views(r@));
    }
    r
}

proof fn lemma_idle_prefix(items: Seq<Count>, k: int)
    requires
        0 <= k <= items.len(),
    ensures
        idle(items.take(k)).len() <= idle(items).len(),
        idle(items).take(idle(items.take(k)).len() as int) == idle(items.take(k)),
    decreases items.len() - k,
{
    if k == items.len() {
        assert(items.take(k) =~= items);
        assert(idle(items).take(idle(items).len() as int) =~= idle(items));
    } else {
        lemma_idle_prefix(items, k + 1);
        let next = items.take(k + 1);
        assert(next.drop_last() =~= items.take(k));
        let some = idle(items.take(k));
        assert(idle(next).take(some.len() as int) =~= some);
        assert(idle(items).take(some.len() as int) =~= idle(items).take(
            idle(next).len() as int,
        ).take(some.len() as int));
    }
}

/// `key` was asked for at most once.
spec fn idle_in(items: Seq<Count>, key: Seq<char>) -> bool {
    exists|k: int| 0 <= k < items.len() && #[trigger] items[k].0@ == key && items[k].1 <= 1
}

proof fn lemma_idle(items: Seq<Count>)
    ensures
        forall|i: int| 0 <= i < idle(items).len() ==> idle_in(items, #[trigger] idle(items)[i]),
        forall|k: int|
            0 <= k < items.len() && #[trigger] items[k].1 <= 1 ==> idle(items).contains(
                items[k].0@,
            ),
        keyed(items) ==> idle(items).no_duplicates(),
    decreases items.len(),
{
    if items.len() > 0 {
        let front = items.drop_last();
        let last = items.last();
        let rest = idle(front);
        let all = idle(items);
        lemma_idle(front);
        assert forall|i: int| 0 <= i < all.len() implies idle_in(items, #[trigger] all[i]) by {
            if i < rest.len() {
                assert(rest[i] == all[i]);
                assert(idle_in(front, rest[i]));
                let k = choose|k: int|
                    0 <= k < front.len() && #[trigger] front[k].0@ == rest[i] && front[k].1 <= 1;
                assert(items[k] == front[k]);
                assert(items[k].0@ == all[i]);
            } else {
                assert(items[items.len() - 1].0@ == all[i]);
            }
        }
        assert forall|k: int| 0 <= k < items.len() && #[trigger] items[k].1 <= 1 implies
            all.contains(items[k].0@) by {
            if k < front.len() {
                assert(front[k] == items[k]);
                assert(rest.contains(front[k].0@));
                let i = choose|i: int| 0 <= i < rest.len() && rest[i] == front[k].0@;
                assert(all[i] == items[k].0@);
            } else {
                assert(all[all.len() - 1] == last.0@);
            }
        }
        if keyed(items) {
            assert forall|i: int, j: int| 0 <= i < j < front.len() implies #[trigger] front[i].0@
                != #[trigger] front[j].0@ by {
                assert(front[i] == items[i] && front[j] == items[j]);
            }
            assert forall|i: int| 0 <= i < rest.len() implies #[trigger] rest[i] != last.0@ by {
                assert(idle_in(front, rest[i]));
                let k = choose|k: int|
                    0 <= k < front.len() && #[trigger] front[k].0@ == rest[i] && front[k].1 <= 1;
                assert(items[k] == front[k]);
                assert(items[items.len() - 1] == last);
            }
        }
    }
}

/// `after` is what is left of `before` when there are too many images: up to
/// `MAX_EVICTED` of those that were asked for at most once are gone. Which ones is
/// open where there are more.
pub open spec fn is_eviction(before: Map<Seq<char>, u64>, after: Map<Seq<char>, u64>) -> bool {
    if before.dom().len() <= MAX_TRACKED_IMAGES {
        after == before
    } else {
        &&& forall|key: Seq<char>| #[trigger]
            after.contains_key(key) ==> before.contains_key(key) && after[key] == before[key]
        &&& forall|key: Seq<char>| #[trigger]
            before.contains_key(key) && !after.contains_key(key) ==> before[key] <= 1
        &&& before.dom().len() <= after.dom().len() + MAX_EVICTED
        &&& before.dom().len() == after.dom().len() + MAX_EVICTED || forall|key: Seq<char>|
            #[trigger] after.contains_key(key) ==> after[key] > 1
    }
}

/// Drops images where there are too many.
fn evict(map: &mut DashMap<String, u64>)
    ensures
        is_eviction(counts::entries_of(*old(map)), counts::entries_of(*final(map))),
{
    if counts::key_count(map) <= MAX_TRACKED_IMAGES {
        return;
    }
    let ghost before = counts::entries_of(*map);
    let items = counts::items_of(map);
    let keys = idle_images(&items, MAX_EVICTED);
    let ghost gone = text::views(keys@);
    proof {
        lemma_idle(items@);
        lemma_finite(items@, before);
        let all = idle(items@);
        assert forall|i: int, j: int| 0 <= i < j < gone.len() implies #[trigger] gone[i]
            != #[trigger] gone[j] by {
            assert(gone[i] == all[i] && gone[j] == all[j]);
        }
        assert forall|i: int| 0 <= i < gone.len() implies before.contains_key(#[trigger] gone[i])
            && before[gone[i]] <= 1 by {
            assert(gone[i] == all[i]);
            assert(idle_in(items@, all[i]));
            let k = choose|k: int|
                0 <= k < items@.len() && #[trigger] items@[k].0@ == all[i] && items@[k].1 <= 1;
            assert(before.contains_key(items@[k].0@));
        }
    }
    let mut i: usize = 0;
    while i < keys.len()
        invariant
            i <= keys@.len(),
            gone == text::views(keys@),
            before.dom().finite(),
            forall|a: int, b: int|
                0 <= a < b < gone.len() ==> #[trigger] gone[a] != #[trigger] gone[b],
            forall|a: int|
                0 <= a < gone.len() ==> before.contains_key(#[trigger] gone[a]) && before[gone[a]]
                    <= 1,
            ({
                let now = counts::entries_of(*map);
                &&& now.dom().finite()
                &&& now.dom().len() + i == before.dom().len()
                &&& forall|key: Seq<char>| #[trigger]
                    now.contains_key(key) ==> before.contains_key(key) && now[key] == before[key]
                &&& forall|key: Seq<char>| #[trigger]
                    before.contains_key(key) ==> (now.contains_key(key) <==> !gone.take(
                        i as int,
                    ).contains(key))
            }),
        decreases keys@.len() - i,
    {
        let ghost now = counts::entries_of(*map);
        let ghost key = keys@[i as int]@;
        proof {
            assert(gone[i as int] == key);
            let past = gone.take(i as int);
            if past.contains(key) {
                let k = choose|k: int| 0 <= k < past.len() && past[k] == key;
                assert(gone[k] == key);
            }
            assert(gone.take(i + 1) =~= past.push(key));
            assert forall|other: Seq<char>|
                past.push(key).contains(other) <==> (past.contains(other) || other == key) by {
                if past.contains(other) {
                    let k = choose|k: int| 0 <= k < past.len() && past[k] == other;
                    assert(past.push(key)[k] == other);
                }
                assert(past.push(key)[i as int] == key);
            }
            assert(before.contains_key(key));
            assert(now.contains_key(key));
        }
        let _ = counts::remove_key(map, keys[i].as_str());
        i = i + 1;
    }
    proof {
        let after = counts::entries_of(*map);
        assert(gone.take(gone.len() as int) =~= gone);
        assert forall|key: Seq<char>| #[trigger]
            before.contains_key(key) && !after.contains_key(key) implies before[key] <= 1 by {
            assert(gone.contains(key));
            let k = choose|k: int| 0 <= k < gone.len() && gone[k] == key;
            assert(before[gone[k]] <= 1);
        }
        if keys@.len() < MAX_EVICTED {
            assert(gone =~= idle(items@));
            assert forall|key: Seq<char>| #[trigger] after.contains_key(key) implies after[key]
                > 1 by {
                assert(before.contains_key(key));
                let k = choose|k: int| 0 <= k < items@.len() && items@[k].0@ == key;
                if items@[k].1 <= 1 {
                    assert(gone.contains(key));
                }
            }
        }
    }
}

proof fn lemma_finite(items: Seq<Count>, map: Map<Seq<char>, u64>)
    requires
        counts::lists(items, map),
    ensures
        map.dom().finite(),
{
    let keys = items.map_values(|p: Count| p.0@);
    vstd::seq_lib::seq_to_set_is_finite(keys);
    assert forall|key: Seq<char>| map.dom().contains(key) <==> keys.to_set().contains(key) by {
        if map.contains_key(key) {
            let k = choose|k: int| 0 <= k < items.len() && items[k].0@ == key;
            assert(keys[k] == key);
        }
        if keys.contains(key) {
            let k = choose|k: int| 0 <= k < keys.len() && keys[k] == key;
            assert(items[k].0@ == key);
        }
    }
    assert(map.dom() =~= keys.to_set());
}

/// The counts after one more request for `key`.
pub open spec fn bumped(counted: Map<Seq<char>, u64>, key: Seq<char>) -> Map<Seq<char>, u64> {
    counted.insert(
        key,
        if counted.contains_key(key) {
            (counted[key] + 1) as u64
        } else {
            1
        },
    )
}

/// One more request for `key` can be counted.
pub open spec fn countable(counted: Map<Seq<char>, u64>, key: Seq<char>) -> bool {
    counted.contains_key(key) ==> counted[key] < u64::MAX
}

/// How often manifests and blobs of images were asked for.
pub struct Metrics {
    manifest_requests: DashMap<String, u64>,
    blob_requests: DashMap<String, u64>,
}

impl Metrics {
    /// Under each image and reference how often its manifest was asked for.
    pub closed spec fn manifests(&self) -> Map<Seq<char>, u64> {
        counts::entries_of(self.manifest_requests)
    }

    /// Under each image how often a blob of it was asked for.
    pub closed spec fn blobs(&self) -> Map<Seq<char>, u64> {
        counts::entries_of(self.blob_requests)
    }

    /// No requests yet.
    pub fn new() -> (r: Metrics)
        ensures
            r.manifests() == counts::no_entries(),
            r.blobs() == counts::no_entries(),
    {
        Metrics {
            manifest_requests: counts::new_map(MAX_TRACKED_IMAGES),
            blob_requests: counts::new_map(MAX_TRACKED_IMAGES),
        }
    }

    /// How often the manifest under `key` was asked for.
    pub fn manifest_requests(&self, key: &str) -> (r: Option<u64>)
        ensures
            r == (if self.manifests().contains_key(key@) {
                Some(self.manifests()[key@])
            } else {
                None
            }),
    {
        counts::number_at(&self.manifest_requests, key)
    }

    /// How often blobs of `image` were asked for.
    pub fn blob_requests(&self, image: &str) -> (r: Option<u64>)
        ensures
            r == (if self.blobs().contains_key(image@) {
                Some(self.blobs()[image@])
            } else {
                None
            }),
    {
        counts::number_at(&self.blob_requests, image)
    }

    /// Counts a request for a manifest that was resolved.
    pub fn record_manifest_request(&mut self, image: &str, reference: &str)
        requires
            countable(old(self).manifests(), resolver::manifest_key(image@, reference@)),
        ensures
            is_eviction(
                bumped(old(self).manifests(), resolver::manifest_key(image@, reference@)),
                final(self).manifests(),
            ),
            final(self).blobs() == old(self).blobs(),
    {
        let key = resolver::manifest_key_text(image, reference);
        counts::increment_or_insert(&mut self.manifest_requests, key, 1);
        evict(&mut self.manifest_requests);
    }

    /// Counts a request for a blob.
    pub fn record_blob_request(&mut self, image: &str)
        requires
            countable(old(self).blobs(), image@),
        ensures
            is_eviction(bumped(old(self).blobs(), image@), final(self).blobs()),
            final(self).manifests() == old(self).manifests(),
    {
        counts::increment_or_insert(&mut self.blob_requests, image.to_owned(), 1);
        evict(&mut self.blob_requests);
    }

    /// Counts a request for a manifest, unless the count is at its limit. Says
    /// whether it did.
    pub fn try_record_manifest_request(&mut self, image: &str, reference: &str) -> (r: bool)
        ensures
            r == countable(old(self).manifests(), resolver::manifest_key(image@, reference@)),
            r ==> is_eviction(
                bumped(old(self).manifests(), resolver::manifest_key(image@, reference@)),
                final(self).manifests(),
            ),
            !r ==> final(self).manifests() == old(self).manifests(),
            final(self).blobs() == old(self).blobs(),
    {
        let key = resolver::manifest_key_text(image, reference);
        if let Some(count) = self.manifest_requests(key.as_str()) {
            if count == u64::MAX {
                return false;
            }
        }
        self.record_manifest_request(image, reference);
        true
    }

    /// Counts a request for a blob, unless the count is at its limit. Says
    /// whether it did.
    pub fn try_record_blob_request(&mut self, image: &str) -> (r: bool)
        ensures
            r == countable(old(self).blobs(), image@),
            r ==> is_eviction(bumped(old(self).blobs(), image@), final(self).blobs()),
            !r ==> final(self).blobs() == old(self).blobs(),
            final(self).manifests() == old(self).manifests(),
    {
        if let Some(count) = self.blob_requests(image) {
            if count == u64::MAX {
                return false;
            }
        }
        self.record_blob_request(image);
        true
    }

    /// The `n` manifests that were asked for most, with their counts.
    pub fn top_manifest_images(&self, n: usize) -> (r: Vec<Count>)
        ensures
            is_top(r@, self.manifests(), n as nat),
    {
        let items = counts::items_of(&self.manifest_requests);
        proof {
            law_ranking_shows_the_most_requested(items@, self.manifests(), n as nat);
        }
        rank(items, n)
    }

    /// The `n` images whose blobs were asked for most, with their counts.
    pub fn top_blob_images(&self, n: usize) -> (r: Vec<Count>)
        ensures
            is_top(r@, self.blobs(), n as nat),
    {
        let items = counts::items_of(&self.blob_requests);
        proof {
            law_ranking_shows_the_most_requested(items@, self.blobs(), n as nat);
        }
        rank(items, n)
    }
}

/// The names in a ranking.
pub open spec fn names_of(ranking: Seq<Count>) -> Seq<Seq<char>> {
    ranking.map_values(|p: Count| p.0@)
}

/// The cache key under which the manifests that are asked for most are shared.
pub open spec fn warmup_key() -> Seq<char> {
    "warmup:images"@
}

impl Metrics {
    /// What to write to the cache so that another router can start with the
    /// manifests that are asked for most: the key, and the keys of `n` manifests as
    /// a JSON array.
    pub fn warmup_entry(&self, n: usize) -> (r: (String, String))
        ensures
            r.0@ == warmup_key(),
            exists|top: Seq<Count>|
                {
                    &&& #[trigger] is_top(top, self.manifests(), n as nat)
                    &&& r.1@ == discovery::json_of(names_of(top))
                    &&& discovery::names_in(r.1@) == Some(names_of(top))
                },
    {
        let top = self.top_manifest_images(n);
        let mut keys: Vec<String> = Vec::new();
        let mut i: usize = 0;
        while i < top.len()
            invariant
                i <= top@.len(),
                keys@.len() == i,
                forall|k: int| 0 <= k < i ==> #[trigger] keys@[k]@ == top@[k].0@,
            decreases top@.len() - i,
        {
            keys.push(top[i].0.clone());
            i = i + 1;
        }
        assert(text::views(keys@) =~= names_of(top@));
        assert(is_top(top@, self.manifests(), n as nat));
        ("warmup:images".to_owned(), discovery::write_names(&keys))
    }
}

/// The keys of the manifests to start with, given what the cache holds under
/// `warmup_key`; none where it holds no list.
pub fn warmup_keys(cached: Option<&str>) -> (keys: Vec<String>)
    ensures
        text::views(keys@) == (match cached {
            Some(json) => match discovery::names_in(json@) {
                Some(names) => names,
                None => seq![],
            },
            None => seq![],
        }),
{
    let none: Vec<String> = Vec::new();
    assert(text::views(none@) =~= Seq::<Seq<char>>::empty());
    match cached {
        Some(json) => match discovery::read_names(json) {
            Some(keys) => keys,
            None => none,
        },
        None => none,
    }
}

/// An image that was asked for more than once is never dropped, whatever else is
/// asked for.
pub proof fn law_images_in_use_are_kept(
    counted: Map<Seq<char>, u64>,
    key: Seq<char>,
    after: Map<Seq<char>, u64>,
    image: Seq<char>,
)
    requires
        counted.contains_key(image),
        counted[image] > 1,
        countable(counted, key),
        is_eviction(bumped(counted, key), after),
    ensures
        after.contains_key(image),
        after[image] == (if image == key {
            counted[image] + 1
        } else {
            counted[image] as int
        }),
{
    assert(bumped(counted, key).contains_key(image));
    assert(after.contains_key(image));
}

/// The number of images that are tracked stays bounded, whatever is asked for.
pub proof fn law_tracked_images_stay_bounded(
    counted: Map<Seq<char>, u64>,
    key: Seq<char>,
    after: Map<Seq<char>, u64>,
)
    requires
        counted.dom().finite(),
        counted.dom().len() <= MAX_TRACKED_IMAGES,
        is_eviction(bumped(counted, key), after),
    ensures
        after.dom().finite(),
        after.dom().len() <= MAX_TRACKED_IMAGES,
{
    let more = bumped(counted, key);
    assert(after.dom().subset_of(more.dom())) by {
        assert forall|image: Seq<char>| after.dom().contains(image) implies more.dom().contains(
            image,
        ) by {
            assert(after.contains_key(image));
        }
    }
    vstd::set_lib::lemma_len_subset(after.dom(), more.dom());
    if more.dom().len() > MAX_TRACKED_IMAGES {
        assert(!counted.contains_key(key));
        if more.dom().len() < after.dom().len() + MAX_EVICTED {
            assert(more[key] == 1);
            assert(!after.contains_key(key));
            assert(after.dom().subset_of(more.dom().remove(key)));
            vstd::set_lib::lemma_len_subset(after.dom(), more.dom().remove(key));
        }
    }
}

/// The characters that stand for `c` in a label value.
pub open spec fn escape(c: char) -> Seq<char> {
    if c == '\\' {
        seq!['\\', '\\']
    } else if c == '"' {
        seq!['\\', '"']
    } else if c == '\n' {
        seq!['\\', 'n']
    } else {
        seq![c]
    }
}

/// `s` as a label value.
pub open spec fn escaped(s: Seq<char>) -> Seq<char>
    decreases s.len(),
{
    if s.len() == 0 {
        seq![]
    } else {
        escaped(s.drop_last()) + escape(s.last())
    }
}

/// The text as a label value of the Prometheus format.
pub fn escape_label_value(s: &str) -> (r: String)
    ensures
        r@ == escaped(s@),
{
    let chars = text::chars_of(s);
    let mut r = String::new();
    let mut i: usize = 0;
    assert(chars@.take(0) =~= Seq::<char>::empty());
    while i < chars.len()
        invariant
            i <= chars@.len(),
            r@ == escaped(chars@.take(i as int)),
        decreases chars@.len() - i,
    {
        let ghost before = r@;
        let ghost next = chars@.take(i + 1);
        assert(next.drop_last() =~= chars@.take(i as int));
        let c = chars[i];
        if c == '\\' || c == '"' {
            r.push('\\');
            r.push(c);
        } else if c == '\n' {
            r.push('\\');
            r.push('n');
        } else {
            r.push(c);
        }
        assert(r@ =~= before + escape(c));
        i = i + 1;
    }
    assert(chars@.take(chars@.len() as int) =~= chars@);
    r
}

/// The text that a label value stands for.
pub open spec fn unescaped(s: Seq<char>) -> Seq<char>
    decreases s.len(),
{
    if s.len() == 0 {
        seq![]
    } else if s[0] == '\\' && s.len() > 1 {
        let c = if s[1] == 'n' {
            '\n'
        } else {
            s[1]
        };
        seq![c] + unescaped(s.skip(2))
    } else {
        seq![s[0]] + unescaped(s.drop_first())
    }
}

proof fn lemma_escaped_front(s: Seq<char>)
    requires
        s.len() > 0,
    ensures
        escaped(s) == escape(s[0]) + escaped(s.drop_first()),
    decreases s.len(),
{
    if s.len() == 1 {
        assert(s.drop_last() =~= Seq::<char>::empty());
        assert(s.drop_first() =~= Seq::<char>::empty());
        assert(escaped(s) =~= escape(s[0]) + escaped(s.drop_first()));
    } else {
        let front = s.drop_last();
        lemma_escaped_front(front);
        assert(s.drop_first().drop_last() =~= front.drop_first());
        assert(escaped(s) =~= escape(s[0]) + escaped(s.drop_first()));
    }
}

/// A label value stands for the text that it was made of, so different images
/// have different labels.
pub proof fn law_label_value_stands_for_its_text(s: Seq<char>)
    ensures
        unescaped(escaped(s)) == s,
    decreases s.len(),
{
    if s.len() > 0 {
        let rest = escaped(s.drop_first());
        lemma_escaped_front(s);
        law_label_value_stands_for_its_text(s.drop_first());
        let all = escaped(s);
        assert(all == escape(s[0]) + rest);
        if s[0] == '\\' || s[0] == '"' || s[0] == '\n' {
            assert(all.skip(2) =~= rest);
        } else {
            assert(all.drop_first() =~= rest);
        }
        assert(unescaped(all) =~= s);
    } else {
        assert(unescaped(escaped(s)) =~= s);
    }
}

/// A label value holds no line break.
pub proof fn law_label_value_is_one_line(s: Seq<char>)
    ensures
        forall|i: int| 0 <= i < escaped(s).len() ==> #[trigger] escaped(s)[i] != '\n',
    decreases s.len(),
{
    if s.len() > 0 {
        let front = escaped(s.drop_last());
        law_label_value_is_one_line(s.drop_last());
        assert forall|i: int| 0 <= i < escaped(s).len() implies #[trigger] escaped(s)[i]
            != '\n' by {
            if i < front.len() {
                assert(escaped(s)[i] == front[i]);
            } else {
                assert(escaped(s)[i] == escape(s.last())[i - front.len()]);
            }
        }
    }
}

/// The sample lines of a metric, one for each image.
pub open spec fn samples(name: Seq<char>, items: Seq<Count>) -> Seq<char>
    decreases items.len(),
{
    if items.len() == 0 {
        seq![]
    } else {
        samples(name, items.drop_last()) + name + "{image=\""@ + escaped(items.last().0@) + "\"} "@
            + text::decimal(items.last().1 as nat) + "\n"@
    }
}

/// Appends the sample lines of a metric.
fn push_samples(out: &mut String, name: &str, items: &Vec<Count>)
    ensures
        final(out)@ == old(out)@ + samples(name@, items@),
{
    let ghost start = out@;
    let mut i: usize = 0;
    assert(items@.take(0) =~= Seq::<Count>::empty());
    assert(start + samples(name@, items@.take(0)) =~= start);
    while i < items.len()
        invariant
            i <= items@.len(),
            out@ == start + samples(name@, items@.take(i as int)),
        decreases items@.len() - i,
    {
        let ghost next = items@.take(i + 1);
        assert(next.drop_last() =~= items@.take(i as int));
        assert(next.last() == items@[i as int]);
        out.append(name);
        out.append("{image=\"");
        let label = escape_label_value(items[i].0.as_str());
        out.append(label.as_str());
        out.append("\"} ");
        text::push_decimal(out, items[i].1);
        out.append("\n");
        assert(out@ =~= start + samples(name@, next));
        i = i + 1;
    }
    assert(items@.take(items@.len() as int) =~= items@);
}

/// `head`, followed by the metrics on images: those that were asked for most, and
/// how many are tracked.
pub open spec fn with_images(
    head: Seq<char>,
    manifests: Seq<Count>,
    blobs: Seq<Count>,
    tracked_manifests: nat,
    tracked_blobs: nat,
) -> Seq<char> {
    head
        + "\n# HELP harbor_router_top_manifest_images Top requested images by manifest pulls\n"@
        + "# TYPE harbor_router_top_manifest_images gauge\n"@ + samples(
        "harbor_router_top_manifest_images"@,
        manifests,
    ) + "\n# HELP harbor_router_top_blob_images Top requested images by blob pulls\n"@
        + "# TYPE harbor_router_top_blob_images gauge\n"@ + samples(
        "harbor_router_top_blob_images"@,
        blobs,
    )
        + "\n# HELP harbor_router_tracked_images_total Number of unique images being tracked\n"@
        + "# TYPE harbor_router_tracked_images_total gauge\n"@
        + "harbor_router_tracked_images_total{type=\"manifest\"} "@ + text::decimal(
        tracked_manifests,
    ) + "\n"@ + "harbor_router_tracked_images_total{type=\"blob\"} "@ + text::decimal(tracked_blobs)
        + "\n"@
}

/// Appends the metrics on images to `head`.
pub fn append_images(
    head: String,
    manifests: &Vec<Count>,
    blobs: &Vec<Count>,
    tracked_manifests: usize,
    tracked_blobs: usize,
) -> (r: String)
    ensures
        r@ == with_images(
            head@,
            manifests@,
            blobs@,
            tracked_manifests as nat,
            tracked_blobs as nat,
        ),
{
    let mut r = head;
    r.append(
        "\n# HELP harbor_router_top_manifest_images Top requested images by manifest pulls\n",
    );
    r.append("# TYPE harbor_router_top_manifest_images gauge\n");
    push_samples(&mut r, "harbor_router_top_manifest_images", manifests);
    r.append("\n# HELP harbor_router_top_blob_images Top requested images by blob pulls\n");
    r.append("# TYPE harbor_router_top_blob_images gauge\n");
    push_samples(&mut r, "harbor_router_top_blob_images", blobs);
    r.append(
        "\n# HELP harbor_router_tracked_images_total Number of unique images being tracked\n",
    );
    r.append("# TYPE harbor_router_tracked_images_total gauge\n");
    r.append("harbor_router_tracked_images_total{type=\"manifest\"} ");
    text::push_decimal(&mut r, tracked_manifests as u64);
    r.append("\n");
    r.append("harbor_router_tracked_images_total{type=\"blob\"} ");
    text::push_decimal(&mut r, tracked_blobs as u64);
    r.append("\n");
    r
}

/// `prometheus::Error`, opaque to the proofs.
#[verifier::external_type_specification]
#[verifier::external_body]
pub struct ExPrometheusError(prometheus::Error);

/// `prometheus::gather`, written out by `TextEncoder::encode_utf8`: the metrics
/// that the process has registered, as they stand. What they are at that moment is
/// left unsaid.
#[verifier::external_body]
fn registered_metrics() -> (r: Result<String, prometheus::Error>) {
    let mut out = String::new();
    TextEncoder::new().encode_utf8(&prometheus::gather(), &mut out)?;
    Ok(out)
}

/// `r` is the text of the metrics, after `head` for those that the process has
/// registered.
pub open spec fn is_rendering_after(
    r: Seq<char>,
    head: Seq<char>,
    manifests: Map<Seq<char>, u64>,
    blobs: Map<Seq<char>, u64>,
) -> bool {
    exists|top_manifests: Seq<Count>, top_blobs: Seq<Count>|
        {
            &&& is_top(top_manifests, manifests, TOP_N_IMAGES as nat)
            &&& is_top(top_blobs, blobs, TOP_N_IMAGES as nat)
            &&& r == #[trigger] with_images(
                head,
                top_manifests,
                top_blobs,
                manifests.dom().len(),
                blobs.dom().len(),
            )
        }
}

/// `r` is the text of the metrics, after whatever the process has registered.
pub open spec fn is_rendering(
    r: Seq<char>,
    manifests: Map<Seq<char>, u64>,
    blobs: Map<Seq<char>, u64>,
) -> bool {
    exists|head: Seq<char>| #[trigger] is_rendering_after(r, head, manifests, blobs)
}

/// The text of all metrics, given that of the registered ones: the metrics on
/// images come behind it. Where the registered ones could not be written out, that
/// error is the result.
pub fn render_after(metrics: &Metrics, registered: Result<String, prometheus::Error>) -> (r: Result<
    String,
    prometheus::Error,
>)
    ensures
        match registered {
            Ok(head) => r matches Ok(out) && is_rendering_after(
                out@,
                head@,
                metrics.manifests(),
                metrics.blobs(),
            ),
            Err(e) => r == Err::<String, prometheus::Error>(e),
        },
{
    match registered {
        Err(e) => Err(e),
        Ok(head) => {
            let ghost start = head@;
            let manifests = metrics.top_manifest_images(TOP_N_IMAGES);
            let blobs = metrics.top_blob_images(TOP_N_IMAGES);
            let out = append_images(
                head,
                &manifests,
                &blobs,
                counts::key_count(&metrics.manifest_requests),
                counts::key_count(&metrics.blob_requests),
            );
            assert(out@ == with_images(
                start,
                manifests@,
                blobs@,
                metrics.manifests().dom().len(),
                metrics.blobs().dom().len(),
            ));
            Ok(out)
        },
    }
}

/// The text of all metrics, with those on images behind the registered ones.
/// Whether the registered ones can be written out rests on what the process has
/// registered, so that is left unsaid.
pub fn render(metrics: &Metrics) -> (r: Result<String, prometheus::Error>)
    ensures
        r matches Ok(out) ==> is_rendering(out@, metrics.manifests(), metrics.blobs()),
{
    render_after(metrics, registered_metrics())
}

} // verus!
