//! Leaving out projects that keep failing.

use vstd::prelude::*;

use crate::breaker::Breaker;
use crate::laws::resolver::are_the_closed;
use crate::resolver::Outcome;
use crate::text;

verus! {

/// What was recorded of a project: whether it answered, and when.
pub struct Recorded {
    pub project: Seq<char>,
    pub ok: bool,
    pub now_ms: u64,
}

/// How often a project has failed since it answered last, going by the first `n` records.
pub open spec fn row(records: Seq<Recorded>, n: int, project: Seq<char>) -> nat
    decreases n,
{
    if n <= 0 {
        0
    } else if records[n - 1].project != project {
        row(records, n - 1, project)
    } else if records[n - 1].ok {
        0
    } else {
        row(records, n - 1, project) + 1
    }
}

/// When a project was recorded last, going by the first `n` records.
pub open spec fn last_at(records: Seq<Recorded>, n: int, project: Seq<char>) -> u64
    decreases n,
{
    if n <= 0 {
        0
    } else if records[n - 1].project == project {
        records[n - 1].now_ms
    } else {
        last_at(records, n - 1, project)
    }
}

/// Whatever was recorded of whichever projects, a project is left out exactly where it
/// has failed since it answered last, as often as the threshold says, and only until the
/// timeout has passed since its last failure.
pub proof fn law_circuit_opens_with_the_threshold(
    threshold: u32,
    timeout: u64,
    states: Seq<Breaker>,
    records: Seq<Recorded>,
    project: &str,
    now: u64,
    r: bool,
)
    requires
        states.len() == records.len() + 1,
        call_ensures(Breaker::new, (threshold, timeout), states[0]),
        forall|i: int|
            #![trigger records[i]]
            0 <= i < records.len() ==> exists|b: &mut Breaker, p: &str|
                *b == states[i] && *final(b) == states[i + 1] && p@ == records[i].project
                    && #[trigger] call_ensures(
                    Breaker::record,
                    (b, p, records[i].ok, records[i].now_ms),
                    (),
                ),
        call_ensures(Breaker::is_open, (&states.last(), project, now), r),
    ensures
        ({
            let n = records.len() as int;
            let failed = row(records, n, project@);
            r <==> failed > 0 && failed >= threshold && now < last_at(records, n, project@)
                + timeout
        }),
{
    assert forall|i: int|
        #![trigger records[i]]
        0 <= i < records.len() implies is_record(states[i], records[i], states[i + 1]) by {}
    lemma_row(threshold, timeout, states, records, project@, records.len() as int);
}

spec fn is_record(before: Breaker, record: Recorded, after: Breaker) -> bool {
    &&& after.limits() == before.limits()
    &&& after.known() == crate::breaker::recorded(
        before.known(),
        before.limits().0,
        record.project,
        record.ok,
        record.now_ms,
    )
}

proof fn lemma_row(
    threshold: u32,
    timeout: u64,
    states: Seq<Breaker>,
    records: Seq<Recorded>,
    project: Seq<char>,
    n: int,
)
    requires
        states.len() == records.len() + 1,
        0 <= n <= records.len(),
        states[0].limits() == (threshold, timeout),
        !states[0].known().in_a_row.contains_key(project),
        !states[0].known().opened.contains_key(project),
        forall|i: int|
            #![trigger records[i]]
            0 <= i < records.len() ==> is_record(states[i], records[i], states[i + 1]),
    ensures
        states[n].limits() == (threshold, timeout),
        ({
            let known = states[n].known();
            let failed = row(records, n, project);
            &&& known.in_a_row.contains_key(project) <==> failed > 0
            &&& failed > 0 ==> (known.in_a_row[project] == failed || (known.in_a_row[project]
                == u64::MAX && failed > u64::MAX))
            &&& known.opened.contains_key(project) <==> failed > 0 && failed >= threshold
            &&& known.opened.contains_key(project) ==> known.opened[project] == last_at(
                records,
                n,
                project,
            )
        }),
    decreases n,
{
    if n > 0 {
        lemma_row(threshold, timeout, states, records, project, n - 1);
        let last = records[n - 1];
        assert(states[n - 1 + 1] == states[n]);
    }
}

/// What becomes of one project does not bear on another.
pub proof fn law_other_circuits_stay(
    before: Breaker,
    project: &str,
    ok: bool,
    at: u64,
    after: Breaker,
    other: &str,
    now: u64,
    was: bool,
    is: bool,
)
    requires
        exists|b: &mut Breaker|
            *b == before && *final(b) == after && #[trigger] call_ensures(
                Breaker::record,
                (b, project, ok, at),
                (),
            ),
        other@ != project@,
        call_ensures(Breaker::is_open, (&before, other, now), was),
        call_ensures(Breaker::is_open, (&after, other, now), is),
    ensures
        was == is,
        after.limits() == before.limits(),
{
}

/// A request that brought a response counts as answered, whatever its status, and one
/// that brought none as failed.
pub proof fn law_only_a_missing_response_is_a_failure(
    before: Breaker,
    project: &str,
    outcome: Outcome,
    now: u64,
    after: Breaker,
    same: Breaker,
)
    requires
        exists|b: &mut Breaker|
            *b == before && *final(b) == after && #[trigger] call_ensures(
                Breaker::record_outcome,
                (b, project, &outcome, now),
                (),
            ),
        exists|b: &mut Breaker|
            *b == before && *final(b) == same && #[trigger] call_ensures(
                Breaker::record,
                (b, project, outcome is Ok, now),
                (),
            ),
    ensures
        after.known() == same.known(),
        after.limits() == same.limits(),
{
}

/// The projects whose circuit is closed are listed, all of them, in their order.
pub proof fn law_closed_circuits_are_listed_in_order(
    breaker: Breaker,
    projects: Vec<String>,
    now: u64,
    r: Vec<String>,
    open: spec_fn(Seq<char>) -> bool,
)
    requires
        call_ensures(Breaker::closed, (&breaker, &projects, now), r),
        forall|p: Seq<char>| #[trigger]
            open(p) == crate::breaker::is_open(breaker.known(), breaker.limits().1, p, now),
    ensures
        are_the_closed(text::views(r@), projects@, open),
{
    crate::laws::resolver::lemma_are_the_closed(
        breaker.known(),
        breaker.limits().1,
        projects@,
        now,
        open,
    );
}

} // verus!
