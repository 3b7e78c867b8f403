//! When connections time out, and who is told when they are gone.

use crate::quic_multiplexer::multiplexer::Connection;
use vstd::prelude::*;

verus! {

/// A connection that is given `duration` from `now` on times out neither earlier nor later: up to
/// `at` it has exactly where `at` is no earlier than the sum, or, where the sum cannot be counted,
/// where `at` is the last point in time that can. The others time out as they would have.
pub proof fn law_a_connection_times_out_in_time(
    deadlines: Map<Seq<u8>, u128>,
    id: Seq<u8>,
    now: u128,
    duration: u128,
    at: u128,
    other: Seq<u8>,
)
    ensures
        ({
            let set = deadlines.insert(
                id,
                crate::quic_multiplexer::multiplexer::time_after(now, duration),
            );
            &&& crate::quic_multiplexer::multiplexer::expired(set, at).contains(id) <==> at >= now
                + duration || at == u128::MAX
            &&& now <= at < now + duration && at < u128::MAX
                ==> !crate::quic_multiplexer::multiplexer::expired(set, at).contains(id)
            &&& now + duration <= at ==> crate::quic_multiplexer::multiplexer::expired(
                set,
                at,
            ).contains(id)
            &&& other != id ==> (crate::quic_multiplexer::multiplexer::expired(set, at).contains(
                other,
            ) <==> crate::quic_multiplexer::multiplexer::expired(deadlines, at).contains(other))
        }),
{
}

/// A connection has timed out where it has a deadline that has come; one without never does.
pub proof fn law_when_a_connection_has_timed_out(
    deadlines: Map<Seq<u8>, u128>,
    id: Seq<u8>,
    at: u128,
)
    ensures
        deadlines.dom().contains(id) ==> (crate::quic_multiplexer::multiplexer::expired(
            deadlines,
            at,
        ).contains(id) <==> at >= deadlines[id]),
        !deadlines.dom().contains(id) ==> !crate::quic_multiplexer::multiplexer::expired(
            deadlines,
            at,
        ).contains(id),
{
}

/// The earliest deadline is one of them, and none lies before it; where there are none, there is
/// no earliest.
pub proof fn law_what_the_earliest_deadline_is(
    deadlines: Map<Seq<u8>, u128>,
    closest: Option<u128>,
    id: Seq<u8>,
)
    requires
        crate::quic_multiplexer::multiplexer::is_earliest(deadlines, closest),
    ensures
        deadlines.dom().contains(id) ==> closest is Some && closest->Some_0 <= deadlines[id],
        closest is Some ==> exists|first: Seq<u8>| #[trigger]
            deadlines.dom().contains(first) && deadlines[first] == closest->Some_0,
{
}

/// Whatever has timed out, the multiplexer has stopped waiting by then.
pub proof fn law_no_deadline_is_missed(
    deadlines: Map<Seq<u8>, u128>,
    closest: Option<u128>,
    id: Seq<u8>,
    at: u128,
)
    requires
        crate::quic_multiplexer::multiplexer::none_before(deadlines, closest),
        deadlines.dom().contains(id),
        deadlines[id] <= at,
    ensures
        closest is Some,
        closest->Some_0 <= at,
{
}

/// An ID is in a list exactly where it stands somewhere in it; IDs that are distinct stand in one
/// place each.
pub proof fn law_where_ids_stand(ids: Seq<Vec<u8>>, id: Seq<u8>, i: int, j: int)
    ensures
        crate::quic_multiplexer::multiplexer::id_set(ids).contains(id) <==> exists|k: int|
            0 <= k < ids.len() && #[trigger] ids[k]@ == id,
        crate::quic_multiplexer::multiplexer::distinct_ids(ids) && 0 <= i < ids.len() && 0 <= j
            < ids.len() && ids[i]@ == ids[j]@ ==> i == j,
{
    if crate::quic_multiplexer::multiplexer::distinct_ids(ids) && 0 <= i < ids.len() && 0 <= j
        < ids.len() && i != j {
        if i < j {
            assert(ids[i]@ != ids[j]@);
        } else {
            assert(ids[j]@ != ids[i]@);
        }
    }
}

/// When connections are closed, the sockets of those that are established are told, in the order
/// of the list, and nobody else is.
pub proof fn law_who_is_told_of_closed_connections<Q, M, T>(
    connections: Map<Seq<u8>, Connection<Q, M, T>>,
    closed: Seq<Vec<u8>>,
)
    requires
        crate::quic_multiplexer::multiplexer::distinct_ids(closed),
    ensures
        crate::quic_multiplexer::multiplexer::sockets_of(connections, closed) == closed.filter(
            |id: Vec<u8>|
                connections.dom().contains(id@) && connections[id@] is Established,
        ).map_values(|id: Vec<u8>| connections[id@]->socket_tx),
    decreases closed.len(),
{
    reveal(Seq::filter);
    if closed.len() > 0 {
        let shorter = closed.drop_last();
        let last = closed.last();
        assert forall|i: int, j: int| 0 <= i < j < shorter.len() implies #[trigger] shorter[i]@
            != #[trigger] shorter[j]@ by {
            assert(closed[i]@ != closed[j]@);
        }
        law_who_is_told_of_closed_connections(connections, shorter);
        assert(!crate::quic_multiplexer::multiplexer::id_set(shorter).contains(last@)) by {
            if crate::quic_multiplexer::multiplexer::id_set(shorter).contains(last@) {
                let i = choose|i: int| 0 <= i < shorter.len() && #[trigger] shorter[i]@ == last@;
                assert(closed[i]@ != closed[closed.len() - 1]@);
            }
        }
    }
    assert(crate::quic_multiplexer::multiplexer::sockets_of(connections, closed) =~= closed.filter(
        |id: Vec<u8>| connections.dom().contains(id@) && connections[id@] is Established,
    ).map_values(|id: Vec<u8>| connections[id@]->socket_tx));
}

/// A connection that is listed as closed once more is closed already: nobody is told again.
pub proof fn law_nobody_is_told_twice<Q, M, T>(
    connections: Map<Seq<u8>, Connection<Q, M, T>>,
    closed: Seq<Vec<u8>>,
    again: Vec<u8>,
    i: int,
)
    requires
        0 <= i < closed.len(),
        closed[i]@ == again@,
    ensures
        crate::quic_multiplexer::multiplexer::sockets_of(connections, closed.push(again))
            == crate::quic_multiplexer::multiplexer::sockets_of(connections, closed),
{
    assert(closed.push(again).drop_last() =~= closed);
    assert(crate::quic_multiplexer::multiplexer::id_set(closed).contains(again@));
}

/// A connection that is listed as closed for the first time is told of where it is established,
/// behind those before it. Where no connection is closed, nobody is told.
pub proof fn law_each_closed_connection_is_told_of<Q, M, T>(
    connections: Map<Seq<u8>, Connection<Q, M, T>>,
    closed: Seq<Vec<u8>>,
    id: Vec<u8>,
)
    requires
        forall|i: int| 0 <= i < closed.len() ==> #[trigger] closed[i]@ != id@,
    ensures
        crate::quic_multiplexer::multiplexer::sockets_of(
            connections,
            Seq::<Vec<u8>>::empty(),
        ).len() == 0,
        ({
            let told = crate::quic_multiplexer::multiplexer::sockets_of(connections, closed);
            crate::quic_multiplexer::multiplexer::sockets_of(connections, closed.push(id)) == if
            connections.dom().contains(id@) && connections[id@] is Established {
                told.push(connections[id@]->socket_tx)
            } else {
                told
            }
        }),
{
    assert(closed.push(id).drop_last() =~= closed);
    assert(!crate::quic_multiplexer::multiplexer::id_set(closed).contains(id@));
}

/// What is said of the QUIC connection is said of the one that is held, in the handshake and after
/// it.
pub proof fn law_one_quic_connection<Q, M, T>(connection: Connection<Q, M, T>)
    ensures
        connection matches Connection::Handshake { quic_conn, .. } ==> connection.quic()
            == quic_conn,
        connection matches Connection::Established { quic_conn, .. } ==> connection.quic()
            == quic_conn,
{
}

} // verus!
