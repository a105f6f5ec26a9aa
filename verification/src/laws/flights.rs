//! Sharing one fan-out among the requests that ask for the same.

use vstd::prelude::*;

use crate::flights::{Flights, Role};

verus! {

/// Nothing is under way at first.
pub proof fn law_no_flights_at_first(flights: Flights, key: Seq<char>, flight: u64)
    requires
        call_ensures(Flights::new, (), flights),
    ensures
        !flights.board().under_way.contains_key(key),
        !flights.board().waiting.contains_key(flight),
{
}

/// A request leads where nothing is under way for its key, and follows what is under
/// way otherwise. A leader's flight is under way from then on, with nobody waiting; a
/// follower waits behind those that came before it. Nothing else changes.
pub proof fn law_joining_leads_or_follows(
    before: Flights,
    key: &str,
    ticket: u64,
    after: Flights,
    role: Role,
)
    requires
        exists|f: &mut Flights|
            *f == before && *final(f) == after && #[trigger] call_ensures(
                Flights::join,
                (f, key, ticket),
                role,
            ),
    ensures
        role is Leader <==> !before.board().under_way.contains_key(key@),
        role is Leader ==> after.board().under_way == before.board().under_way.insert(key@, ticket)
            && after.board().waiting == before.board().waiting.insert(ticket, seq![]),
        role matches Role::Follower(flight) ==> {
            &&& before.board().under_way[key@] == flight
            &&& after.board().under_way == before.board().under_way
            &&& after.board().waiting.dom() == before.board().waiting.dom().insert(flight)
            &&& forall|other: u64|
                other != flight && #[trigger] before.board().waiting.contains_key(other)
                    ==> after.board().waiting[other] == before.board().waiting[other]
            &&& before.board().waiting.contains_key(flight) ==> after.board().waiting[flight]
                == before.board().waiting[flight].push(ticket)
            &&& !before.board().waiting.contains_key(flight) ==> after.board().waiting[flight]
                == seq![ticket]
        },
{
    if let Role::Follower(flight) = role {
        assert(after.board().waiting.dom() =~= before.board().waiting.dom().insert(flight));
        assert(Seq::<u64>::empty().push(ticket) =~= seq![ticket]);
    }
}

/// Landing ends the flight of the key and names exactly those that waited for it, in
/// the order in which they came. Nothing else changes.
pub proof fn law_landing_names_those_that_waited(
    before: Flights,
    key: &str,
    after: Flights,
    woken: Vec<u64>,
)
    requires
        exists|f: &mut Flights|
            *f == before && *final(f) == after && #[trigger] call_ensures(
                Flights::land,
                (f, key),
                woken,
            ),
    ensures
        after.board().under_way == before.board().under_way.remove(key@),
        before.board().under_way.contains_key(key@) ==> {
            let flight = before.board().under_way[key@];
            &&& after.board().waiting == before.board().waiting.remove(flight)
            &&& before.board().waiting.contains_key(flight) ==> woken@
                == before.board().waiting[flight]
            &&& !before.board().waiting.contains_key(flight) ==> woken@.len() == 0
        },
        !before.board().under_way.contains_key(key@) ==> woken@.len() == 0
            && after.board().waiting == before.board().waiting,
{
    if !before.board().under_way.contains_key(key@) {
        assert(after.board().under_way =~= before.board().under_way.remove(key@));
    }
}

} // verus!
