//! Leaving out projects that keep failing.
//!
//! A project that fails several times in a row is not asked for a while: its
//! circuit is open. When the time is up it is asked again, and its answer decides
//! whether the circuit closes or opens once more. Times are in milliseconds.

use dashmap::DashMap;
use vstd::prelude::*;
use vstd::string::*;

use crate::counts;
use crate::resolver::Outcome;
use crate::text;

verus! {

/// What is known of the failures of projects.
pub struct Failures {
    /// How often a project has failed in a row.
    pub in_a_row: Map<Seq<char>, u64>,
    /// When the circuit of a project opened last.
    pub opened: Map<Seq<char>, u64>,
}

/// One more failure in a row.
pub open spec fn one_more(in_a_row: Map<Seq<char>, u64>, project: Seq<char>) -> u64 {
    if !in_a_row.contains_key(project) {
        1
    } else if in_a_row[project] == u64::MAX {
        u64::MAX
    } else {
        (in_a_row[project] + 1) as u64
    }
}

/// What is known once `project` has answered, or failed, at `now`: an answer ends
/// the row, and a failure opens the circuit where the row has reached `threshold`.
pub open spec fn recorded(
    known: Failures,
    threshold: u32,
    project: Seq<char>,
    ok: bool,
    now: u64,
) -> Failures {
    if ok {
        Failures {
            in_a_row: known.in_a_row.remove(project),
            opened: known.opened.remove(project),
        }
    } else {
        let count = one_more(known.in_a_row, project);
        Failures {
            in_a_row: known.in_a_row.insert(project, count),
            opened: if count >= threshold {
                known.opened.insert(project, now)
            } else {
                known.opened
            },
        }
    }
}

/// The circuit of `project` is open at `now`: less than `timeout` has passed since
/// it opened.
pub open spec fn is_open(known: Failures, timeout: u64, project: Seq<char>, now: u64) -> bool {
    known.opened.contains_key(project) && now < known.opened[project] + timeout
}

/// The projects whose circuit is not open at `now`, in order.
pub open spec fn closed_of(
    known: Failures,
    timeout: u64,
    projects: Seq<Seq<char>>,
    now: u64,
) -> Seq<Seq<char>>
    decreases projects.len(),
{
    if projects.len() == 0 {
        seq![]
    } else {
        let rest = closed_of(known, timeout, projects.drop_last(), now);
        if is_open(known, timeout, projects.last(), now) {
            rest
        } else {
            rest.push(projects.last())
        }
    }
}

/// Keeps count of the failures of projects.
pub struct Breaker {
    threshold: u32,
    timeout_ms: u64,
    in_a_row: DashMap<String, u64>,
    opened: DashMap<String, u64>,
}

impl Breaker {
    /// What is known of the failures of projects.
    pub closed spec fn known(&self) -> Failures {
        Failures {
            in_a_row: counts::entries_of(self.in_a_row),
            opened: counts::entries_of(self.opened),
        }
    }

    /// The number of failures in a row that open a circuit, and how long it stays
    /// open.
    pub closed spec fn limits(&self) -> (u32, u64) {
        (self.threshold, self.timeout_ms)
    }

    /// The circuits open after `threshold` failures in a row, and stay open for
    /// `timeout_ms`.
    pub fn new(threshold: u32, timeout_ms: u64) -> (r: Breaker)
        ensures
            r.limits() == (threshold, timeout_ms),
            r.known().in_a_row == counts::no_entries(),
            r.known().opened == counts::no_entries(),
    {
        Breaker {
            threshold,
            timeout_ms,
            in_a_row: counts::new_map(1_000),
            opened: counts::new_map(1_000),
        }
    }

    /// Takes in that `project` answered, or failed, at `now_ms`.
    pub fn record(&mut self, project: &str, ok: bool, now_ms: u64)
        ensures
            final(self).known() == recorded(
                old(self).known(),
                old(self).limits().0,
                project@,
                ok,
                now_ms,
            ),
            final(self).limits() == old(self).limits(),
    {
        if ok {
            let _ = counts::remove_key(&mut self.in_a_row, project);
            let _ = counts::remove_key(&mut self.opened, project);
            return;
        }
        let count: u64 = match counts::number_at(&self.in_a_row, project) {
            None => 1,
            Some(n) => if n == u64::MAX {
                n
            } else {
                n + 1
            },
        };
        put(&mut self.in_a_row, project, count);
        if count >= self.threshold as u64 {
            put(&mut self.opened, project, now_ms);
        }
    }

    /// Takes in what the request to `project` came to: it failed where it brought
    /// no response.
    pub fn record_outcome(&mut self, project: &str, outcome: &Outcome, now_ms: u64)
        ensures
            final(self).known() == recorded(
                old(self).known(),
                old(self).limits().0,
                project@,
                *outcome is Ok,
                now_ms,
            ),
            final(self).limits() == old(self).limits(),
    {
        self.record(project, outcome.is_ok(), now_ms);
    }

    /// Whether the circuit of `project` is open at `now_ms`.
    pub fn is_open(&self, project: &str, now_ms: u64) -> (r: bool)
        ensures
            r == is_open(self.known(), self.limits().1, project@, now_ms),
    {
        match counts::number_at(&self.opened, project) {
            Some(at) => now_ms < at || now_ms - at < self.timeout_ms,
            None => false,
        }
    }

    /// The projects whose circuit is not open at `now_ms`, in order.
    pub fn closed(&self, projects: &Vec<String>, now_ms: u64) -> (r: Vec<String>)
        ensures
            text::views(r@) == closed_of(
                self.known(),
                self.limits().1,
                text::views(projects@),
                now_ms,
            ),
            r@.len() <= projects@.len(),
    {
        let ghost all = text::views(projects@);
        let mut r: Vec<String> = Vec::new();
        let mut i: usize = 0;
        assert(all.take(0) =~= Seq::<Seq<char>>::empty());
        assert(text::views(r@) =~= Seq::<Seq<char>>::empty());
        while i < projects.len()
            invariant
                i <= projects@.len(),
                all == text::views(projects@),
                r@.len() <= i,
                text::views(r@) == closed_of(
                    self.known(),
                    self.limits().1,
                    all.take(i as int),
                    now_ms,
                ),
            decreases projects@.len() - i,
        {
            let ghost next = all.take(i + 1);
            assert(next.drop_last() =~= all.take(i as int));
            assert(next.last() == projects@[i as int]@);
            let ghost before = r@;
            if !self.is_open(projects[i].as_str(), now_ms) {
                r.push(projects[i].clone());
                assert(text::views(r@) =~= text::views(before).push(projects@[i as int]@));
            }
            i = i + 1;
        }
        assert(all.take(all.len() as int) =~= all);
        r
    }
}

/// Sets the number under `key`.
fn put(map: &mut DashMap<String, u64>, key: &str, value: u64)
    ensures
        counts::entries_of(*final(map)) == counts::entries_of(*old(map)).insert(key@, value),
{
    let ghost before = counts::entries_of(*map);
    let _ = counts::remove_key(map, key);
    let _ = counts::claim(map, key.to_owned(), value);
    assert(counts::entries_of(*map) =~= before.insert(key@, value));
}

/// What is known once `project` has failed at each of the times, one after the
/// other.
pub open spec fn after_failures(
    known: Failures,
    threshold: u32,
    project: Seq<char>,
    times: Seq<u64>,
) -> Failures
    decreases times.len(),
{
    if times.len() == 0 {
        known
    } else {
        recorded(
            after_failures(known, threshold, project, times.drop_last()),
            threshold,
            project,
            false,
            times.last(),
        )
    }
}

proof fn lemma_row_grows(known: Failures, threshold: u32, project: Seq<char>, times: Seq<u64>)
    ensures
        times.len() > 0 ==> {
            let row = after_failures(known, threshold, project, times).in_a_row;
            row.contains_key(project) && (row[project] >= times.len() || row[project] >= u32::MAX)
        },
    decreases times.len(),
{
    if times.len() > 0 {
        lemma_row_grows(known, threshold, project, times.drop_last());
    }
}

/// A project that has failed as often in a row as it takes is left out until the
/// time is up, and asked again then, whatever was known before.
pub proof fn law_failing_project_is_left_out(
    known: Failures,
    threshold: u32,
    timeout: u64,
    project: Seq<char>,
    times: Seq<u64>,
    now: u64,
)
    requires
        times.len() > 0,
        times.len() >= threshold,
    ensures
        is_open(after_failures(known, threshold, project, times), timeout, project, now) <==> now
            < times.last() + timeout,
{
    lemma_row_grows(known, threshold, project, times);
}

/// A project that answers is asked again at once, and the failures before it count
/// no longer.
pub proof fn law_answer_closes_the_circuit(
    known: Failures,
    threshold: u32,
    timeout: u64,
    project: Seq<char>,
    at: u64,
    now: u64,
)
    ensures
        !is_open(recorded(known, threshold, project, true, at), timeout, project, now),
        !recorded(known, threshold, project, true, at).in_a_row.contains_key(project),
{
}

/// What becomes of one project does not bear on another.
pub proof fn law_circuits_are_independent(
    known: Failures,
    threshold: u32,
    timeout: u64,
    project: Seq<char>,
    ok: bool,
    at: u64,
    other: Seq<char>,
    now: u64,
)
    requires
        other != project,
    ensures
        is_open(recorded(known, threshold, project, ok, at), timeout, other, now) <==> is_open(
            known,
            timeout,
            other,
            now,
        ),
{
}

/// Exactly the projects whose circuit is open are left out.
pub proof fn law_only_open_circuits_are_left_out(
    known: Failures,
    timeout: u64,
    projects: Seq<Seq<char>>,
    now: u64,
    project: Seq<char>,
)
    ensures
        closed_of(known, timeout, projects, now).contains(project) <==> projects.contains(project)
            && !is_open(known, timeout, project, now),
    decreases projects.len(),
{
    if projects.len() > 0 {
        let front = projects.drop_last();
        let rest = closed_of(known, timeout, front, now);
        let all = closed_of(known, timeout, projects, now);
        law_only_open_circuits_are_left_out(known, timeout, front, now, project);
        if rest.contains(project) {
            let k = choose|k: int| 0 <= k < rest.len() && rest[k] == project;
            assert(all[k] == project);
        }
        if front.contains(project) {
            let k = choose|k: int| 0 <= k < front.len() && front[k] == project;
            assert(projects[k] == project);
        }
        if projects.last() == project && !is_open(known, timeout, project, now) {
            assert(all[all.len() - 1] == project);
            assert(projects[projects.len() - 1] == project);
        }
        if projects.contains(project) {
            let k = choose|k: int| 0 <= k < projects.len() && projects[k] == project;
            if k < front.len() {
                assert(front[k] == project);
            }
        }
        if all.contains(project) {
            let k = choose|k: int| 0 <= k < all.len() && all[k] == project;
            if k < rest.len() {
                assert(rest[k] == project);
            } else {
                assert(projects[projects.len() - 1] == project);
            }
        }
    }
}

} // verus!
