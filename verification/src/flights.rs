//! Sharing one fan-out among the requests that ask for the same.
//!
//! The first request for a key leads: it does the work. Those that come meanwhile
//! follow: they wait until the leader lands, with a result or because it was given
//! up, and landing names all of them, so that none is left waiting. Each request
//! brings a ticket of its own, and the ticket of a leader names its flight.

use dashmap::DashMap;
use std::collections::HashMap;
use vstd::prelude::*;

use crate::counts;

verus! {

/// What a request joins that is under way for its key.
pub enum Role {
    /// Nothing was under way: this request does the work.
    Leader,
    /// This flight is under way: the request waits for it.
    Follower(u64),
}

/// What is under way, and who waits for it.
pub struct Board {
    /// Under each key the flight that is under way for it.
    pub under_way: Map<Seq<char>, u64>,
    /// The tickets that wait for each flight, in the order in which they came.
    pub waiting: Map<u64, Seq<u64>>,
}

/// The board with nothing under way.
pub open spec fn empty_board() -> Board {
    Board { under_way: Map::empty(), waiting: Map::empty() }
}

/// The tickets that wait for a flight.
pub open spec fn waiting_for(board: Board, flight: u64) -> Seq<u64> {
    if board.waiting.contains_key(flight) {
        board.waiting[flight]
    } else {
        seq![]
    }
}

/// What joining comes to: the role, and the board afterwards. A request leads where
/// nothing is under way for its key, and waits for what is under way otherwise.
pub open spec fn joined(board: Board, key: Seq<char>, ticket: u64) -> (Role, Board) {
    if board.under_way.contains_key(key) {
        let flight = board.under_way[key];
        (
            Role::Follower(flight),
            Board {
                under_way: board.under_way,
                waiting: board.waiting.insert(flight, waiting_for(board, flight).push(ticket)),
            },
        )
    } else {
        (
            Role::Leader,
            Board {
                under_way: board.under_way.insert(key, ticket),
                waiting: board.waiting.insert(ticket, seq![]),
            },
        )
    }
}

/// What landing comes to: the tickets to wake, and the board afterwards, without the
/// flight and without those that waited for it.
pub open spec fn landed(board: Board, key: Seq<char>) -> (Seq<u64>, Board) {
    if board.under_way.contains_key(key) {
        let flight = board.under_way[key];
        (
            waiting_for(board, flight),
            Board {
                under_way: board.under_way.remove(key),
                waiting: board.waiting.remove(flight),
            },
        )
    } else {
        (seq![], board)
    }
}

/// The fan-outs under way, and who waits for them.
pub struct Flights {
    inner: DashMap<String, u64>,
    waiting: HashMap<u64, Vec<u64>>,
}

/// The tickets in each list.
spec fn tickets_in(waiting: Map<u64, Vec<u64>>) -> Map<u64, Seq<u64>> {
    waiting.map_values(|list: Vec<u64>| list@)
}

impl Flights {
    /// What is under way, and who waits for it.
    pub closed spec fn board(&self) -> Board {
        Board {
            under_way: counts::entries_of(self.inner),
            waiting: tickets_in(self.waiting@),
        }
    }

    /// No flights.
    pub fn new() -> (r: Flights)
        ensures
            r.board() == empty_board(),
    {
        let r = Flights { inner: counts::new_map(10_000), waiting: HashMap::new() };
        assert(r.board().waiting =~= Map::empty());
        r
    }

    /// Joins the flight under way for `key`; where there is none, leads it.
    pub fn join(&mut self, key: &str, ticket: u64) -> (role: Role)
        ensures
            (role, final(self).board()) == joined(old(self).board(), key@, ticket),
    {
        let ghost before = self.board();
        match counts::claim(&mut self.inner, key.to_owned(), ticket) {
            Some(flight) => {
                let mut list: Vec<u64> = match self.waiting.remove(&flight) {
                    Some(list) => list,
                    None => Vec::new(),
                };
                assert(list@ =~= waiting_for(before, flight));
                list.push(ticket);
                self.waiting.insert(flight, list);
                assert(self.board().waiting =~= before.waiting.insert(
                    flight,
                    waiting_for(before, flight).push(ticket),
                ));
                Role::Follower(flight)
            },
            None => {
                let nobody: Vec<u64> = Vec::new();
                assert(nobody@ =~= Seq::<u64>::empty());
                self.waiting.insert(ticket, nobody);
                assert(self.board().waiting =~= before.waiting.insert(ticket, seq![]));
                Role::Leader
            },
        }
    }

    /// Ends the flight under way for `key`, and names those that waited for it.
    pub fn land(&mut self, key: &str) -> (woken: Vec<u64>)
        ensures
            (woken@, final(self).board()) == landed(old(self).board(), key@),
    {
        let ghost before = self.board();
        let nobody: Vec<u64> = Vec::new();
        assert(nobody@ =~= Seq::<u64>::empty());
        match counts::remove_key(&mut self.inner, key) {
            Some(flight) => {
                let woken = match self.waiting.remove(&flight) {
                    Some(list) => list,
                    None => nobody,
                };
                assert(woken@ =~= waiting_for(before, flight));
                assert(self.board().waiting =~= before.waiting.remove(flight));
                woken
            },
            None => {
                assert(self.board().under_way =~= before.under_way);
                nobody
            },
        }
    }
}

/// `Leader` where nothing is under way for the key; a follower waits for the
/// flight under way. As long as it has not landed, no second request leads, and
/// once it has landed the next request leads. What is under way for other keys does
/// not change.
pub proof fn law_one_leader_at_a_time(
    board: Board,
    key: Seq<char>,
    ticket: u64,
    late: u64,
    other: Seq<char>,
)
    requires
        !board.under_way.contains_key(key),
    ensures
        ({
            let led = joined(board, key, ticket);
            &&& led.0 == Role::Leader
            &&& joined(led.1, key, late).0 == Role::Follower(ticket)
            &&& joined(led.1, key, late).1.under_way == led.1.under_way
            &&& landed(led.1, key).1.under_way == board.under_way
            &&& joined(landed(led.1, key).1, key, late).0 == Role::Leader
            &&& other != key ==> led.1.under_way.contains_key(other)
                == board.under_way.contains_key(other)
        }),
{
    assert(landed(joined(board, key, ticket).1, key).1.under_way =~= board.under_way);
}

/// Something that happens to the flights.
pub enum Moment {
    /// A request joins with its ticket.
    Join { key: Seq<char>, ticket: u64 },
    /// The flight for a key lands.
    Land { key: Seq<char> },
}

/// The board after what happened, from an empty one on.
pub open spec fn board_after(moments: Seq<Moment>) -> Board
    decreases moments.len(),
{
    if moments.len() == 0 {
        empty_board()
    } else {
        let before = board_after(moments.drop_last());
        match moments.last() {
            Moment::Join { key, ticket } => joined(before, key, ticket).1,
            Moment::Land { key } => landed(before, key).1,
        }
    }
}

/// The ticket was brought by a request.
pub open spec fn used(moments: Seq<Moment>, ticket: u64) -> bool {
    exists|k: int|
        0 <= k < moments.len() && (#[trigger] moments[k] matches Moment::Join { ticket: t, .. } && t
            == ticket)
}

/// Each request brings a ticket of its own.
pub open spec fn own_tickets(moments: Seq<Moment>) -> bool {
    forall|a: int, b: int|
        0 <= a < b < moments.len() && #[trigger] moments[a] is Join && #[trigger] moments[b] is Join
            ==> moments[a]->ticket != moments[b]->ticket
}

/// A board that requests with tickets of their own have led to: whoever waits, waits
/// for one flight that is under way, once.
spec fn in_order(board: Board, moments: Seq<Moment>) -> bool {
    &&& forall|key: Seq<char>| #[trigger]
        board.under_way.contains_key(key) ==> board.waiting.contains_key(board.under_way[key])
            && used(moments, board.under_way[key])
    &&& forall|a: Seq<char>, b: Seq<char>| #[trigger]
        board.under_way.contains_key(a) && #[trigger] board.under_way.contains_key(b)
            && board.under_way[a] == board.under_way[b] ==> a == b
    &&& forall|flight: u64| #[trigger]
        board.waiting.contains_key(flight) ==> board.under_way.contains_value(flight)
    &&& forall|flight: u64, a: int|
        board.waiting.contains_key(flight) && 0 <= a < board.waiting[flight].len() ==> used(
            moments,
            #[trigger] board.waiting[flight][a],
        )
    &&& forall|f: u64, g: u64, a: int, b: int|
        board.waiting.contains_key(f) && board.waiting.contains_key(g) && 0 <= a
            < board.waiting[f].len() && 0 <= b < board.waiting[g].len()
            && #[trigger] board.waiting[f][a] == #[trigger] board.waiting[g][b] ==> f == g && a == b
}

proof fn lemma_used_stays(moments: Seq<Moment>, n: int, ticket: u64)
    requires
        0 < n <= moments.len(),
        used(moments.take(n - 1), ticket),
    ensures
        used(moments.take(n), ticket),
{
    let few = moments.take(n - 1);
    let k = choose|k: int|
        0 <= k < few.len() && (#[trigger] few[k] matches Moment::Join { ticket: t, .. } && t
            == ticket);
    assert(moments.take(n)[k] == few[k]);
}

proof fn lemma_own_ticket_is_new(moments: Seq<Moment>, n: int)
    requires
        0 <= n < moments.len(),
        own_tickets(moments),
        moments[n] is Join,
    ensures
        !used(moments.take(n), moments[n]->ticket),
        used(moments.take(n + 1), moments[n]->ticket),
{
    let few = moments.take(n);
    let ticket = moments[n]->ticket;
    if used(few, ticket) {
        let k = choose|k: int|
            0 <= k < few.len() && (#[trigger] few[k] matches Moment::Join { ticket: t, .. } && t
                == ticket);
        assert(few[k] == moments[k]);
    }
    assert(moments.take(n + 1)[n] == moments[n]);
}

proof fn lemma_in_order(moments: Seq<Moment>, n: int)
    requires
        0 <= n <= moments.len(),
        own_tickets(moments),
    ensures
        in_order(board_after(moments.take(n)), moments.take(n)),
    decreases n,
{
    if n > 0 {
        let few = moments.take(n - 1);
        let some = moments.take(n);
        assert(some.drop_last() =~= few);
        assert(some.last() == moments[n - 1]);
        lemma_in_order(moments, n - 1);
        let before = board_after(few);
        let after = board_after(some);
        assert forall|ticket: u64| used(few, ticket) implies #[trigger] used(some, ticket) by {
            lemma_used_stays(moments, n, ticket);
        }
        match moments[n - 1] {
            Moment::Join { key, ticket } => {
                lemma_own_ticket_is_new(moments, n - 1);
                if before.under_way.contains_key(key) {
                    lemma_follower_keeps_order(before, few, some, key, ticket);
                } else {
                    lemma_leader_keeps_order(before, few, some, key, ticket);
                }
            },
            Moment::Land { key } => {
                if before.under_way.contains_key(key) {
                    lemma_landing_keeps_order(before, few, some, key);
                }
            },
        }
    }
}

proof fn lemma_follower_keeps_order(
    before: Board,
    few: Seq<Moment>,
    some: Seq<Moment>,
    key: Seq<char>,
    ticket: u64,
)
    requires
        in_order(before, few),
        before.under_way.contains_key(key),
        !used(few, ticket),
        used(some, ticket),
        forall|t: u64| used(few, t) ==> #[trigger] used(some, t),
    ensures
        in_order(joined(before, key, ticket).1, some),
{
    let after = joined(before, key, ticket).1;
    let flight = before.under_way[key];
    let old_list = waiting_for(before, flight);
    assert forall|f: u64, a: int|
        after.waiting.contains_key(f) && 0 <= a < after.waiting[f].len() implies used(
        some,
        #[trigger] after.waiting[f][a],
    ) by {
        if f == flight && a == old_list.len() {
        } else {
            assert(after.waiting[f][a] == before.waiting[f][a]);
        }
    }
    assert forall|f: u64, g: u64, a: int, b: int|
        after.waiting.contains_key(f) && after.waiting.contains_key(g) && 0 <= a
            < after.waiting[f].len() && 0 <= b < after.waiting[g].len()
            && #[trigger] after.waiting[f][a] == #[trigger] after.waiting[g][b] implies f == g && a
        == b by {
        if !(f == flight && a == old_list.len()) {
            assert(after.waiting[f][a] == before.waiting[f][a]);
        }
        if !(g == flight && b == old_list.len()) {
            assert(after.waiting[g][b] == before.waiting[g][b]);
        }
    }
}

proof fn lemma_leader_keeps_order(
    before: Board,
    few: Seq<Moment>,
    some: Seq<Moment>,
    key: Seq<char>,
    ticket: u64,
)
    requires
        in_order(before, few),
        !before.under_way.contains_key(key),
        !used(few, ticket),
        used(some, ticket),
        forall|t: u64| used(few, t) ==> #[trigger] used(some, t),
    ensures
        in_order(joined(before, key, ticket).1, some),
{
    let after = joined(before, key, ticket).1;
    assert forall|f: u64| #[trigger]
        after.waiting.contains_key(f) implies after.under_way.contains_value(f) by {
        if f == ticket {
            assert(after.under_way.contains_key(key) && after.under_way[key] == f);
        } else {
            assert(before.waiting.contains_key(f));
            let k = choose|k: Seq<char>| #[trigger]
                before.under_way.contains_key(k) && before.under_way[k] == f;
            assert(after.under_way.contains_key(k) && after.under_way[k] == f);
        }
    }
    assert forall|f: u64, a: int|
        after.waiting.contains_key(f) && 0 <= a < after.waiting[f].len() implies used(
        some,
        #[trigger] after.waiting[f][a],
    ) by {
        assert(after.waiting[f][a] == before.waiting[f][a]);
    }
    assert forall|f: u64, g: u64, a: int, b: int|
        after.waiting.contains_key(f) && after.waiting.contains_key(g) && 0 <= a
            < after.waiting[f].len() && 0 <= b < after.waiting[g].len()
            && #[trigger] after.waiting[f][a] == #[trigger] after.waiting[g][b] implies f == g && a
        == b by {
        assert(after.waiting[f][a] == before.waiting[f][a]);
        assert(after.waiting[g][b] == before.waiting[g][b]);
    }
}

proof fn lemma_landing_keeps_order(
    before: Board,
    few: Seq<Moment>,
    some: Seq<Moment>,
    key: Seq<char>,
)
    requires
        in_order(before, few),
        before.under_way.contains_key(key),
        forall|t: u64| used(few, t) ==> #[trigger] used(some, t),
    ensures
        in_order(landed(before, key).1, some),
{
    let after = landed(before, key).1;
    let flight = before.under_way[key];
    assert forall|f: u64| #[trigger]
        after.waiting.contains_key(f) implies after.under_way.contains_value(f) by {
        assert(before.waiting.contains_key(f));
        let k = choose|k: Seq<char>| #[trigger]
            before.under_way.contains_key(k) && before.under_way[k] == f;
        assert(after.under_way.contains_key(k) && after.under_way[k] == f);
    }
    assert forall|f: u64, a: int|
        after.waiting.contains_key(f) && 0 <= a < after.waiting[f].len() implies used(
        some,
        #[trigger] after.waiting[f][a],
    ) by {
        assert(after.waiting[f][a] == before.waiting[f][a]);
    }
    assert forall|f: u64, g: u64, a: int, b: int|
        after.waiting.contains_key(f) && after.waiting.contains_key(g) && 0 <= a
            < after.waiting[f].len() && 0 <= b < after.waiting[g].len()
            && #[trigger] after.waiting[f][a] == #[trigger] after.waiting[g][b] implies f == g && a
        == b by {
        assert(after.waiting[f][a] == before.waiting[f][a]);
        assert(after.waiting[g][b] == before.waiting[g][b]);
    }
}

/// Whatever has happened, whoever waits, waits for a flight that is under way: it has
/// a leader that has not landed yet.
pub proof fn law_whoever_waits_has_a_leader(moments: Seq<Moment>, flight: u64)
    requires
        own_tickets(moments),
        waiting_for(board_after(moments), flight).len() > 0,
    ensures
        exists|key: Seq<char>| #[trigger]
            board_after(moments).under_way.contains_key(key) && board_after(moments).under_way[key]
                == flight,
{
    assert(moments.take(moments.len() as int) =~= moments);
    lemma_in_order(moments, moments.len() as int);
    let board = board_after(moments);
    assert(board.under_way.contains_value(flight));
}

proof fn lemma_still_waiting(moments: Seq<Moment>, key: Seq<char>, ticket: u64, i: int, n: int)
    requires
        own_tickets(moments),
        0 <= i < n <= moments.len(),
        moments[i] == (Moment::Join { key, ticket }),
        board_after(moments.take(i)).under_way.contains_key(key),
        forall|k: int| i < k < n ==> #[trigger] moments[k] != (Moment::Land { key }),
    ensures
        ({
            let board = board_after(moments.take(n));
            board.under_way.contains_key(key) && waiting_for(board, board.under_way[key]).contains(
                ticket,
            )
        }),
    decreases n,
{
    let few = moments.take(n - 1);
    let some = moments.take(n);
    assert(some.drop_last() =~= few);
    assert(some.last() == moments[n - 1]);
    let before = board_after(few);
    let after = board_after(some);
    lemma_in_order(moments, n - 1);
    if n - 1 == i {
        let list = waiting_for(after, after.under_way[key]);
        assert(list[list.len() - 1] == ticket);
    } else {
        lemma_still_waiting(moments, key, ticket, i, n - 1);
        let flight = before.under_way[key];
        let list = waiting_for(before, flight);
        let at = choose|at: int| 0 <= at < list.len() && list[at] == ticket;
        if moments[n - 1] is Join {
            lemma_own_ticket_is_new(moments, n - 1);
        }
        assert(after.under_way.contains_key(key) && after.under_way[key] == flight);
        assert(waiting_for(after, flight)[at] == ticket);
    }
}

/// No follower waits forever: a request that found a flight under way for its key, and
/// waits for it with its ticket, is named by the next landing for that key, whatever
/// happened in between and whatever the landing brings. After that it waits no more.
pub proof fn law_every_follower_is_woken(
    moments: Seq<Moment>,
    key: Seq<char>,
    ticket: u64,
    i: int,
    j: int,
)
    requires
        own_tickets(moments),
        0 <= i < j < moments.len(),
        moments[i] == (Moment::Join { key, ticket }),
        board_after(moments.take(i)).under_way.contains_key(key),
        moments[j] == (Moment::Land { key }),
        forall|k: int| i < k < j ==> #[trigger] moments[k] != (Moment::Land { key }),
    ensures
        landed(board_after(moments.take(j)), key).0.contains(ticket),
        landed(board_after(moments.take(j)), key).0.no_duplicates(),
        forall|flight: u64|
            !(#[trigger] waiting_for(board_after(moments.take(j + 1)), flight)).contains(ticket),
{
    lemma_still_waiting(moments, key, ticket, i, j);
    lemma_in_order(moments, j);
    let before = board_after(moments.take(j));
    let flight = before.under_way[key];
    let list = waiting_for(before, flight);
    assert(moments.take(j + 1).drop_last() =~= moments.take(j));
    assert(moments.take(j + 1).last() == moments[j]);
    let after = board_after(moments.take(j + 1));
    let at = choose|at: int| 0 <= at < list.len() && list[at] == ticket;
    assert(before.waiting.contains_key(flight));
    assert forall|a: int, b: int|
        0 <= a < list.len() && 0 <= b < list.len() && a != b implies list[a] != list[b] by {
        assert(before.waiting[flight][a] == list[a]);
        assert(before.waiting[flight][b] == list[b]);
    }
    assert forall|other: u64| !(#[trigger] waiting_for(after, other)).contains(ticket) by {
        if waiting_for(after, other).contains(ticket) {
            let rest = waiting_for(after, other);
            let b = choose|b: int| 0 <= b < rest.len() && rest[b] == ticket;
            assert(before.waiting[other][b] == ticket);
            assert(before.waiting[flight][at] == ticket);
        }
    }
}

proof fn lemma_flight_was_joined(moments: Seq<Moment>, n: int, key: Seq<char>)
    requires
        0 <= n <= moments.len(),
        board_after(moments.take(n)).under_way.contains_key(key),
    ensures
        exists|i: int|
            0 <= i < n && #[trigger] moments[i] == (Moment::Join {
                key,
                ticket: board_after(moments.take(n)).under_way[key],
            }),
    decreases n,
{
    let some = moments.take(n);
    if n > 0 {
        assert(some.drop_last() =~= moments.take(n - 1));
        assert(some.last() == moments[n - 1]);
        let before = board_after(moments.take(n - 1));
        if before.under_way.contains_key(key) {
            lemma_flight_was_joined(moments, n - 1, key);
            let i = choose|i: int|
                0 <= i < n - 1 && #[trigger] moments[i] == (Moment::Join {
                    key,
                    ticket: before.under_way[key],
                });
            assert(moments[i] == (Moment::Join {
                key,
                ticket: board_after(some).under_way[key],
            }));
        } else {
            assert(moments[n - 1] == (Moment::Join {
                key,
                ticket: board_after(some).under_way[key],
            }));
        }
    }
}

/// The flight that a request follows was led by an earlier request with the same key.
pub proof fn law_follower_joined_its_leaders_key(moments: Seq<Moment>, j: int)
    requires
        0 <= j < moments.len(),
        moments[j] is Join,
    ensures
        ({
            let key = moments[j]->Join_key;
            let role = joined(board_after(moments.take(j)), key, moments[j]->ticket).0;
            role matches Role::Follower(flight) ==> exists|i: int|
                0 <= i < j && #[trigger] moments[i] == (Moment::Join { key, ticket: flight })
        }),
{
    let key = moments[j]->Join_key;
    if board_after(moments.take(j)).under_way.contains_key(key) {
        lemma_flight_was_joined(moments, j, key);
    }
}

/// A follower waits until its own flight lands, whatever else joins or lands, and the
/// landing of another flight does not name it.
pub proof fn law_follower_waits_for_its_own_flight(
    moments: Seq<Moment>,
    key: Seq<char>,
    ticket: u64,
    i: int,
    n: int,
    other: Seq<char>,
)
    requires
        own_tickets(moments),
        0 <= i < n <= moments.len(),
        moments[i] == (Moment::Join { key, ticket }),
        board_after(moments.take(i)).under_way.contains_key(key),
        forall|k: int| i < k < n ==> #[trigger] moments[k] != (Moment::Land { key }),
        other != key,
    ensures
        ({
            let board = board_after(moments.take(n));
            &&& board.under_way.contains_key(key)
            &&& board.waiting.contains_key(board.under_way[key])
            &&& board.waiting[board.under_way[key]].contains(ticket)
            &&& !landed(board, other).0.contains(ticket)
            &&& landed(board, other).1.under_way.contains_key(key)
        }),
{
    lemma_still_waiting(moments, key, ticket, i, n);
    lemma_in_order(moments, n);
    let board = board_after(moments.take(n));
    let flight = board.under_way[key];
    let named = landed(board, other).0;
    let at = choose|at: int| 0 <= at < board.waiting[flight].len() && board.waiting[flight][at] == ticket;
    if named.contains(ticket) {
        let b = choose|b: int| 0 <= b < named.len() && named[b] == ticket;
        let f = board.under_way[other];
        assert(board.waiting[f][b] == ticket);
        assert(board.waiting[flight][at] == ticket);
    }
}

} // verus!
