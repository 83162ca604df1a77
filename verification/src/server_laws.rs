//! What holds of the server however hosts come and go.

use crate::address::Address;
use crate::connection::{sender_channel, Connection, ConnectionControl, Event};
use crate::server::{
    control_outcome, distinct_peers, has_peer, interrupt_outcome, is_first, link_of, open_entries,
    served_connection, server_outcome, with_interrupt_sent, ConnectionData, InterruptOutcome, Link,
    ServerAction, ServerEvent, ServerStop,
};
use vstd::prelude::*;

verus! {

/// The connections after a control channel was opened, where a new connection would
/// be reached through `channel`.
pub open spec fn links_after_control(
    before: Seq<Link>,
    closed: Seq<bool>,
    peer: Address,
    channel: int,
) -> Seq<Link> {
    let kept = open_entries(before, closed);
    if has_peer(kept, peer) {
        kept
    } else {
        kept.push(Link { peer, sent_interrupt: false, channel })
    }
}

/// The positions that are not marked as closed, in their order.
spec fn open_positions(closed: Seq<bool>) -> Seq<int>
    decreases closed.len(),
{
    if closed.len() == 0 {
        seq![]
    } else if closed.last() {
        open_positions(closed.drop_last())
    } else {
        open_positions(closed.drop_last()).push(closed.len() - 1)
    }
}

/// Where each entry of the open ones comes from.
proof fn lemma_open_entries_origin<T>(entries: Seq<T>, closed: Seq<bool>) -> (origin: Seq<int>)
    requires
        entries.len() == closed.len(),
    ensures
        origin == open_positions(closed),
        origin.len() == open_entries(entries, closed).len(),
        forall|i: int|
            0 <= i < origin.len() ==> 0 <= #[trigger] origin[i] < entries.len()
                && !closed[origin[i]] && open_entries(entries, closed)[i] == entries[origin[i]],
        forall|i: int, j: int|
            0 <= i < j < origin.len() ==> #[trigger] origin[i] < #[trigger] origin[j],
        forall|k: int|
            0 <= k < entries.len() && !(#[trigger] closed[k]) ==> exists|i: int|
                0 <= i < origin.len() && #[trigger] origin[i] == k,
    decreases entries.len(),
{
    if entries.len() == 0 {
        seq![]
    } else {
        let earlier = lemma_open_entries_origin(entries.drop_last(), closed.drop_last());
        let origin = if closed.last() {
            earlier
        } else {
            earlier.push(entries.len() - 1)
        };
        assert forall|k: int| 0 <= k < entries.len() && !(#[trigger] closed[k]) implies exists|
            i: int,
        |
            0 <= i < origin.len() && #[trigger] origin[i] == k by {
            if k < entries.len() - 1 {
                assert(!closed.drop_last()[k]);
                let i = choose|i: int| 0 <= i < earlier.len() && #[trigger] earlier[i] == k;
                assert(origin[i] == k);
            } else {
                assert(origin[origin.len() - 1] == k);
            }
        }
        assert forall|i: int| 0 <= i < origin.len() implies 0 <= #[trigger] origin[i]
            < entries.len() && !closed[origin[i]] && open_entries(entries, closed)[i]
            == entries[origin[i]] by {
            if i < earlier.len() {
                assert(origin[i] == earlier[i]);
                assert(entries.drop_last()[earlier[i]] == entries[earlier[i]]);
                assert(closed.drop_last()[earlier[i]] == closed[earlier[i]]);
            }
        }
        origin
    }
}

/// No two connections are ever to the same host: a control channel keeps it so.
pub proof fn law_control_keeps_peers_distinct(
    before: Seq<Link>,
    closed: Seq<bool>,
    peer: Address,
    channel: int,
)
    requires
        before.len() == closed.len(),
    ensures
        distinct_peers(before) ==> distinct_peers(open_entries(before, closed)),
        distinct_peers(before) ==> distinct_peers(
            links_after_control(before, closed, peer, channel),
        ),
{
    let kept = open_entries(before, closed);
    let origin = lemma_open_entries_origin(before, closed);
    if distinct_peers(before) {
        assert forall|i: int, j: int| 0 <= i < j < kept.len() implies (#[trigger] kept[i]).peer
            != (#[trigger] kept[j]).peer by {
            assert(origin[i] < origin[j]);
            assert(before[origin[i]].peer != before[origin[j]].peer);
        }
    }
}

/// Whether an interrupt channel of the host would be made known to a connection.
pub open spec fn forwards(links: Seq<Link>, peer: Address) -> bool {
    exists|i: int| #[trigger] is_first(links, peer, i) && !links[i].sent_interrupt
}

/// The connections after an interrupt channel was opened.
pub open spec fn links_after_interrupt(before: Seq<Link>, peer: Address) -> Seq<Link> {
    if forwards(before, peer) {
        with_interrupt_sent(before, choose|i: int| is_first(before, peer, i))
    } else {
        before
    }
}

/// Where there is a connection to the host, there is a first one.
proof fn lemma_first_exists(links: Seq<Link>, peer: Address, index: int) -> (first: int)
    requires
        0 <= index < links.len(),
        links[index].peer == peer,
    ensures
        is_first(links, peer, first),
        first <= index,
    decreases index,
{
    if exists|i: int| 0 <= i < index && (#[trigger] links[i]).peer == peer {
        let i = choose|i: int| 0 <= i < index && (#[trigger] links[i]).peer == peer;
        lemma_first_exists(links, peer, i)
    } else {
        assert(is_first(links, peer, index));
        index
    }
}

/// A control channel leaves the server with the connections that it found open, and
/// with a new one exactly where none of these is to the host.
pub proof fn law_control_outcome_is_determined<C>(
    before: Seq<Link>,
    closed: Seq<bool>,
    peer: Address,
    control: C,
    after: Seq<Link>,
    connection: Option<Connection<C>>,
)
    requires
        control_outcome(before, closed, peer, control, after, connection),
    ensures
        connection is None <==> has_peer(open_entries(before, closed), peer),
        after == links_after_control(
            before,
            closed,
            peer,
            match connection {
                Some(new) => new.event_channel(),
                None => 0,
            },
        ),
{
}

/// What comes of an interrupt channel is determined by the connections: it is made
/// known, a duplicate, or dangling, and only in the first case does anything change.
pub proof fn law_interrupt_outcome_is_determined<S>(
    before: Seq<Link>,
    peer: Address,
    interrupt: S,
    after: Seq<Link>,
    outcome: InterruptOutcome<S>,
)
    requires
        interrupt_outcome(before, peer, interrupt, after, outcome),
    ensures
        outcome is Dangling <==> !has_peer(before, peer),
        outcome is Forward <==> forwards(before, peer),
        outcome is Duplicate <==> has_peer(before, peer) && !forwards(before, peer),
        after == links_after_interrupt(before, peer),
        !(outcome is Forward) ==> after == before,
{
}

/// No two connections are ever to the same host: an interrupt channel keeps it so.
pub proof fn law_interrupt_keeps_peers_distinct(before: Seq<Link>, peer: Address)
    requires
        distinct_peers(before),
    ensures
        distinct_peers(links_after_interrupt(before, peer)),
{
    let after = links_after_interrupt(before, peer);
    assert forall|i: int, j: int| 0 <= i < j < after.len() implies (#[trigger] after[i]).peer != (
    #[trigger] after[j]).peer by {
        assert(before[i].peer != before[j].peer);
    }
}

/// While a host has a connection that has not ended, it gets no other.
pub proof fn law_open_connection_is_the_only_one(
    before: Seq<Link>,
    closed: Seq<bool>,
    index: int,
)
    requires
        before.len() == closed.len(),
        0 <= index < before.len(),
        !closed[index],
    ensures
        has_peer(open_entries(before, closed), before[index].peer),
{
    let origin = lemma_open_entries_origin(before, closed);
    let i = choose|i: int| 0 <= i < origin.len() && #[trigger] origin[i] == index;
    assert(open_entries(before, closed)[i].peer == before[index].peer);
}

/// Once all its connections have ended, a host can connect again.
pub proof fn law_ended_connections_make_room(before: Seq<Link>, closed: Seq<bool>, peer: Address)
    requires
        before.len() == closed.len(),
        forall|i: int| 0 <= i < before.len() && (#[trigger] before[i]).peer == peer ==> closed[i],
    ensures
        !has_peer(open_entries(before, closed), peer),
{
    let kept = open_entries(before, closed);
    let origin = lemma_open_entries_origin(before, closed);
    if has_peer(kept, peer) {
        let i = choose|i: int| 0 <= i < kept.len() && (#[trigger] kept[i]).peer == peer;
        assert(before[origin[i]].peer == peer);
    }
}

/// A control channel is refused exactly where a connection to the host answered that it
/// has not ended.
pub proof fn law_refused_exactly_by_open_connection<C>(
    before: Seq<Link>,
    closed: Seq<bool>,
    peer: Address,
    control: C,
    after: Seq<Link>,
    connection: Option<Connection<C>>,
)
    requires
        before.len() == closed.len(),
        control_outcome(before, closed, peer, control, after, connection),
    ensures
        connection is None <==> exists|i: int|
            0 <= i < before.len() && (#[trigger] before[i]).peer == peer && !closed[i],
{
    if exists|i: int| 0 <= i < before.len() && (#[trigger] before[i]).peer == peer && !closed[i] {
        let i = choose|i: int|
            0 <= i < before.len() && (#[trigger] before[i]).peer == peer && !closed[i];
        law_open_connection_is_the_only_one(before, closed, i);
    } else {
        law_ended_connections_make_room(before, closed, peer);
    }
}

/// A host that has just opened a control channel has a connection. If that one is
/// new, the host's interrupt channel is made known to it, through its own channel.
pub proof fn law_interrupt_follows_control(
    before: Seq<Link>,
    closed: Seq<bool>,
    peer: Address,
    channel: int,
)
    ensures
        ({
            let kept = open_entries(before, closed);
            let after = links_after_control(before, closed, peer, channel);
            &&& has_peer(after, peer)
            &&& !has_peer(kept, peer) ==> {
                &&& is_first(after, peer, kept.len() as int)
                &&& after[kept.len() as int].channel == channel
                &&& forwards(after, peer)
            }
        }),
{
    let kept = open_entries(before, closed);
    let after = links_after_control(before, closed, peer, channel);
    if !has_peer(kept, peer) {
        assert(after[kept.len() as int].peer == peer);
        assert forall|i: int| 0 <= i < kept.len() implies (#[trigger] after[i]).peer != peer by {
            assert(after[i] == kept[i]);
        }
        assert(is_first(after, peer, kept.len() as int));
    }
}

/// Once an interrupt channel of the host has been made known, the next one is a
/// duplicate.
pub proof fn law_second_interrupt_is_duplicate(before: Seq<Link>, peer: Address)
    requires
        forwards(before, peer),
    ensures
        has_peer(links_after_interrupt(before, peer), peer),
        !forwards(links_after_interrupt(before, peer), peer),
        links_after_interrupt(links_after_interrupt(before, peer), peer) == links_after_interrupt(
            before,
            peer,
        ),
{
    let first = choose|i: int| is_first(before, peer, i);
    let after = links_after_interrupt(before, peer);
    assert(is_first(before, peer, first));
    assert(after[first].peer == peer);
    if forwards(after, peer) {
        let i = choose|i: int| #[trigger] is_first(after, peer, i) && !after[i].sent_interrupt;
        assert(i == first);
    }
}

/// A channel that a host opens.
pub enum Arrival {
    /// A control channel: `closed` marks the connections that have ended by then, and
    /// a new connection would be reached through `channel`.
    Control { peer: Address, closed: Seq<bool>, channel: int },
    /// An interrupt channel.
    Interrupt { peer: Address },
}

/// The connections after the arrival.
pub open spec fn links_after(before: Seq<Link>, arrival: Arrival) -> Seq<Link> {
    match arrival {
        Arrival::Control { peer, closed, channel } => links_after_control(
            before,
            closed,
            peer,
            channel,
        ),
        Arrival::Interrupt { peer } => links_after_interrupt(before, peer),
    }
}

/// The connections after the arrivals, at a server that starts with none.
pub open spec fn links_run(arrivals: Seq<Arrival>) -> Seq<Link>
    decreases arrivals.len(),
{
    if arrivals.len() == 0 {
        seq![]
    } else {
        links_after(links_run(arrivals.drop_last()), arrivals.last())
    }
}

/// Each control channel finds each connection either ended or not.
pub open spec fn arrivals_fit(arrivals: Seq<Arrival>) -> bool
    decreases arrivals.len(),
{
    arrivals.len() > 0 ==> {
        &&& arrivals_fit(arrivals.drop_last())
        &&& arrivals.last() matches Arrival::Control { closed, .. } ==> closed.len() == links_run(
            arrivals.drop_last(),
        ).len()
    }
}

/// How many connections the host has been granted.
pub open spec fn connections_granted(arrivals: Seq<Arrival>, host: Address) -> nat
    decreases arrivals.len(),
{
    if arrivals.len() == 0 {
        0
    } else {
        let before = links_run(arrivals.drop_last());
        connections_granted(arrivals.drop_last(), host) + match arrivals.last() {
            Arrival::Control { peer, closed, .. } => if peer == host && !has_peer(
                open_entries(before, closed),
                host,
            ) {
                1nat
            } else {
                0nat
            },
            Arrival::Interrupt { .. } => 0nat,
        }
    }
}

/// How many of the host's interrupt channels have been made known to a connection.
pub open spec fn interrupts_forwarded(arrivals: Seq<Arrival>, host: Address) -> nat
    decreases arrivals.len(),
{
    if arrivals.len() == 0 {
        0
    } else {
        let before = links_run(arrivals.drop_last());
        interrupts_forwarded(arrivals.drop_last(), host) + match arrivals.last() {
            Arrival::Control { .. } => 0nat,
            Arrival::Interrupt { peer } => if peer == host && forwards(before, host) {
                1nat
            } else {
                0nat
            },
        }
    }
}

/// However hosts come and go, no two connections are to the same host.
pub proof fn law_peers_stay_distinct(arrivals: Seq<Arrival>)
    requires
        arrivals_fit(arrivals),
    ensures
        distinct_peers(links_run(arrivals)),
    decreases arrivals.len(),
{
    if arrivals.len() > 0 {
        let before = links_run(arrivals.drop_last());
        law_peers_stay_distinct(arrivals.drop_last());
        match arrivals.last() {
            Arrival::Control { peer, closed, channel } => {
                law_control_keeps_peers_distinct(before, closed, peer, channel);
            },
            Arrival::Interrupt { peer } => {
                law_interrupt_keeps_peers_distinct(before, peer);
            },
        }
    }
}

/// However hosts come and go, no more interrupt channels of a host are made known than
/// connections to it were granted.
pub proof fn law_interrupts_need_connections(arrivals: Seq<Arrival>, host: Address)
    requires
        arrivals_fit(arrivals),
    ensures
        interrupts_forwarded(arrivals, host) <= connections_granted(arrivals, host),
{
    lemma_interrupts_forwarded(arrivals, host);
}

/// One more connection was granted than interrupt channels were made known where the
/// host has a connection that still waits for one.
proof fn lemma_interrupts_forwarded(arrivals: Seq<Arrival>, host: Address)
    requires
        arrivals_fit(arrivals),
    ensures
        interrupts_forwarded(arrivals, host) + (if forwards(links_run(arrivals), host) {
            1nat
        } else {
            0nat
        }) <= connections_granted(arrivals, host),
    decreases arrivals.len(),
{
    if arrivals.len() > 0 {
        let before = links_run(arrivals.drop_last());
        let after = links_run(arrivals);
        lemma_interrupts_forwarded(arrivals.drop_last(), host);
        law_peers_stay_distinct(arrivals.drop_last());
        match arrivals.last() {
            Arrival::Control { peer, closed, channel } => {
                let kept = open_entries(before, closed);
                let origin = lemma_open_entries_origin(before, closed);
                if forwards(after, host) && !(peer == host && !has_peer(kept, host)) {
                    let i = choose|i: int| #[trigger]
                        is_first(after, host, i) && !after[i].sent_interrupt;
                    assert(after[i] == kept[i]);
                    let first = lemma_first_exists(before, host, origin[i]);
                    if first < origin[i] {
                        assert(before[first].peer != before[origin[i]].peer);
                    }
                    assert(forwards(before, host));
                }
            },
            Arrival::Interrupt { peer } => {
                if peer == host {
                    if forwards(before, host) {
                        law_second_interrupt_is_duplicate(before, host);
                    }
                } else if forwards(after, host) {
                    let i = choose|i: int| #[trigger]
                        is_first(after, host, i) && !after[i].sent_interrupt;
                    assert(before[i].peer == host);
                    assert forall|j: int| 0 <= j < i implies (#[trigger] before[j]).peer
                        != host by {
                        assert(after[j].peer != host);
                    }
                    assert(is_first(before, host, i));
                }
            },
        }
    }
}

/// Once the connection to a host has been told of an interrupt channel, it is not told
/// of another while it lasts: whichever channel arrives next, the host still has a
/// connection, and its interrupt channels are duplicates.
pub proof fn law_told_stays_told(
    before: Seq<Link>,
    arrival: Arrival,
    host: Address,
    index: int,
)
    requires
        distinct_peers(before),
        is_first(before, host, index),
        before[index].sent_interrupt,
        arrival matches Arrival::Control { closed, .. } ==> closed.len() == before.len()
            && !closed[index],
    ensures
        has_peer(links_after(before, arrival), host),
        !forwards(links_after(before, arrival), host),
{
    let after = links_after(before, arrival);
    match arrival {
        Arrival::Control { peer, closed, channel } => {
            let kept = open_entries(before, closed);
            let origin = lemma_open_entries_origin(before, closed);
            let k = choose|k: int| 0 <= k < origin.len() && #[trigger] origin[k] == index;
            assert(after[k] == kept[k] && kept[k] == before[index]);
            if forwards(after, host) {
                let i = choose|i: int| #[trigger]
                    is_first(after, host, i) && !after[i].sent_interrupt;
                assert(i <= k);
                if i < k {
                    assert(after[i] == kept[i] && kept[i] == before[origin[i]]);
                    assert(origin[i] < origin[k]);
                }
            }
        },
        Arrival::Interrupt { peer } => {
            assert(after[index].peer == host);
            if forwards(after, host) {
                let i = choose|i: int| #[trigger]
                    is_first(after, host, i) && !after[i].sent_interrupt;
                assert(before[i].peer == host);
                assert(i == index);
            }
        },
    }
}

/// For each of the connections that the server knows, the number of the arrival that it
/// was granted at. No two connections have the same number.
pub open spec fn granted_at(arrivals: Seq<Arrival>) -> Seq<int>
    decreases arrivals.len(),
{
    if arrivals.len() == 0 {
        seq![]
    } else {
        let links = links_run(arrivals.drop_last());
        let earlier = granted_at(arrivals.drop_last());
        match arrivals.last() {
            Arrival::Control { peer, closed, .. } => {
                let kept = open_entries(earlier, closed);
                if has_peer(open_entries(links, closed), peer) {
                    kept
                } else {
                    kept.push(arrivals.len() - 1)
                }
            },
            Arrival::Interrupt { .. } => earlier,
        }
    }
}

/// Whether the last of the arrivals is an interrupt channel that is made known to the
/// connection that was granted at the given arrival.
pub open spec fn tells(arrivals: Seq<Arrival>, connection: int) -> bool {
    let links = links_run(arrivals.drop_last());
    let numbers = granted_at(arrivals.drop_last());
    match arrivals.last() {
        Arrival::Control { .. } => false,
        Arrival::Interrupt { peer } => exists|i: int| #[trigger]
            is_first(links, peer, i) && !links[i].sent_interrupt && numbers[i] == connection,
    }
}

/// How often the connection that was granted at the given arrival has been told of an
/// interrupt channel.
pub open spec fn times_told(arrivals: Seq<Arrival>, connection: int) -> nat
    decreases arrivals.len(),
{
    if arrivals.len() == 0 {
        0
    } else {
        times_told(arrivals.drop_last(), connection) + if tells(arrivals, connection) {
            1nat
        } else {
            0nat
        }
    }
}

/// However hosts come and go, each connection is told of an interrupt channel at most
/// once.
pub proof fn law_one_interrupt_per_connection(arrivals: Seq<Arrival>, connection: int)
    requires
        arrivals_fit(arrivals),
    ensures
        times_told(arrivals, connection) <= 1,
{
    lemma_times_told(arrivals);
}

/// The numbers of the connections are different, and belong to arrivals that have been;
/// a known connection has been told once or never, as it is noted; and so has every
/// other.
proof fn lemma_times_told(arrivals: Seq<Arrival>)
    requires
        arrivals_fit(arrivals),
    ensures
        granted_at(arrivals).len() == links_run(arrivals).len(),
        forall|i: int|
            0 <= i < granted_at(arrivals).len() ==> 0 <= #[trigger] granted_at(arrivals)[i]
                < arrivals.len(),
        forall|i: int, j: int|
            0 <= i < j < granted_at(arrivals).len() ==> #[trigger] granted_at(arrivals)[i]
                != #[trigger] granted_at(arrivals)[j],
        forall|i: int|
            0 <= i < links_run(arrivals).len() ==> times_told(
                arrivals,
                #[trigger] granted_at(arrivals)[i],
            ) == (if links_run(arrivals)[i].sent_interrupt {
                1nat
            } else {
                0nat
            }),
        forall|k: int| #[trigger] times_told(arrivals, k) <= 1,
        forall|k: int| k >= arrivals.len() ==> #[trigger] times_told(arrivals, k) == 0,
    decreases arrivals.len(),
{
    if arrivals.len() > 0 {
        let earlier = arrivals.drop_last();
        let before = links_run(earlier);
        let after = links_run(arrivals);
        let numbers = granted_at(earlier);
        let numbers_after = granted_at(arrivals);
        lemma_times_told(earlier);
        match arrivals.last() {
            Arrival::Control { peer, closed, channel } => {
                let kept = open_entries(before, closed);
                let origin = lemma_open_entries_origin(before, closed);
                let kept_numbers = open_entries(numbers, closed);
                lemma_open_entries_origin(numbers, closed);
                assert forall|k: int| #[trigger]
                    times_told(arrivals, k) == times_told(earlier, k) by {}
                assert forall|i: int| 0 <= i < numbers_after.len() implies 0
                    <= #[trigger] numbers_after[i] < arrivals.len() by {
                    if i < kept_numbers.len() {
                        assert(numbers_after[i] == numbers[origin[i]]);
                    }
                }
                assert forall|i: int, j: int| 0 <= i < j < numbers_after.len() implies
                    #[trigger] numbers_after[i] != #[trigger] numbers_after[j] by {
                    assert(numbers_after[i] == numbers[origin[i]]);
                    if j < kept_numbers.len() {
                        assert(numbers_after[j] == numbers[origin[j]]);
                        assert(origin[i] < origin[j]);
                    }
                }
                assert forall|i: int| 0 <= i < after.len() implies times_told(
                    arrivals,
                    #[trigger] numbers_after[i],
                ) == (if after[i].sent_interrupt {
                    1nat
                } else {
                    0nat
                }) by {
                    if i < kept.len() {
                        assert(after[i] == before[origin[i]]);
                        assert(numbers_after[i] == numbers[origin[i]]);
                    }
                }
            },
            Arrival::Interrupt { peer } => {
                if forwards(before, peer) {
                    let first = choose|i: int| is_first(before, peer, i);
                    assert(is_first(before, peer, first));
                    assert(!before[first].sent_interrupt);
                    assert(times_told(earlier, numbers[first]) == 0);
                    assert forall|k: int| #[trigger] times_told(arrivals, k) == times_told(
                        earlier,
                        k,
                    ) + (if k == numbers[first] {
                        1nat
                    } else {
                        0nat
                    }) by {}
                } else {
                    assert forall|k: int| #[trigger]
                        times_told(arrivals, k) == times_told(earlier, k) by {}
                }
            },
        }
    }
}

/// What the server knows of a connection is what its controller holds.
pub proof fn law_link_is_its_controller(control: ConnectionControl<ConnectionData>)
    ensures
        link_of(control).peer == control.peer_address,
        link_of(control).sent_interrupt == control.data.sent_interrupt,
        link_of(control).channel == sender_channel(control.event_tx),
{
}

/// Exactly the entries that are marked as closed are dropped, and the others keep their
/// order: there is a rising list of their positions.
pub proof fn law_forgets_exactly_the_ended<T>(entries: Seq<T>, closed: Seq<bool>)
    requires
        entries.len() == closed.len(),
    ensures
        exists|positions: Seq<int>|
            {
                &&& #[trigger] positions.len() == open_entries(entries, closed).len()
                &&& forall|i: int|
                    0 <= i < positions.len() ==> 0 <= #[trigger] positions[i] < entries.len()
                        && !closed[positions[i]] && open_entries(entries, closed)[i]
                        == entries[positions[i]]
                &&& forall|i: int, j: int|
                    0 <= i < j < positions.len() ==> #[trigger] positions[i]
                        < #[trigger] positions[j]
                &&& forall|k: int|
                    0 <= k < entries.len() && !(#[trigger] closed[k]) ==> exists|i: int|
                        0 <= i < positions.len() && #[trigger] positions[i] == k
            },
{
    let positions = lemma_open_entries_origin(entries, closed);
    assert(positions.len() == open_entries(entries, closed).len());
}

/// A connection that is granted is to the host that asked for it, over the channel that
/// it opened, with no interrupt channel yet, and takes its events from its own channel,
/// which holds sixteen. The server notes it behind the connections that have not ended,
/// as not told of anything, under that channel; and those stay as they were.
pub proof fn law_granted_connection_is_noted<C>(
    before: Seq<Link>,
    closed: Seq<bool>,
    peer: Address,
    control: C,
    after: Seq<Link>,
    new: Connection<C>,
)
    requires
        control_outcome(before, closed, peer, control, after, Some(new)),
    ensures
        new.peer() == peer,
        new.control() == control,
        new.interrupt() is None,
        new.event_channel() == new.received_channel(),
        new.event_capacity() == 16,
        after.len() == open_entries(before, closed).len() + 1,
        after.last().peer == peer,
        after.last().channel == new.event_channel(),
        !after.last().sent_interrupt,
        forall|i: int|
            0 <= i < after.len() - 1 ==> #[trigger] after[i] == open_entries(before, closed)[i],
        forall|i: int| 0 <= i < after.len() - 1 ==> (#[trigger] after[i]).peer != peer,
{
    assert forall|i: int| 0 <= i < after.len() - 1 implies (#[trigger] after[i]).peer != peer by {
        assert(after[i] == open_entries(before, closed)[i]);
    }
}

/// A control channel that is refused leaves exactly the connections that have not ended.
pub proof fn law_refusal_leaves_the_open_ones<C>(
    before: Seq<Link>,
    closed: Seq<bool>,
    peer: Address,
    control: C,
    after: Seq<Link>,
)
    requires
        control_outcome(before, closed, peer, control, after, None),
    ensures
        after.len() == open_entries(before, closed).len(),
        forall|i: int|
            0 <= i < after.len() ==> #[trigger] after[i] == open_entries(before, closed)[i],
        exists|i: int| 0 <= i < after.len() && (#[trigger] after[i]).peer == peer,
{
}

/// Of what comes of an interrupt channel. It dangles exactly where no connection is to
/// the host. Otherwise the first connection to the host decides: if it has been told, the
/// channel is a duplicate, and if not, the channel goes, as an event, to the very channel
/// of that connection, which is noted as told, while every other connection and all else
/// that is known of this one stays. Unless the channel is passed on, nothing changes.
pub proof fn law_interrupt_goes_to_its_own_host<S>(
    before: Seq<Link>,
    peer: Address,
    interrupt: S,
    after: Seq<Link>,
    outcome: InterruptOutcome<S>,
    index: int,
)
    requires
        interrupt_outcome(before, peer, interrupt, after, outcome),
    ensures
        outcome is Dangling <==> (forall|i: int|
            0 <= i < before.len() ==> (#[trigger] before[i]).peer != peer),
        !(outcome is Forward) ==> after == before,
        ({
            &&& 0 <= index < before.len()
            &&& before[index].peer == peer
            &&& forall|i: int| 0 <= i < index ==> (#[trigger] before[i]).peer != peer
        }) ==> {
            &&& before[index].sent_interrupt ==> outcome is Duplicate
            &&& !before[index].sent_interrupt ==> {
                &&& outcome matches InterruptOutcome::Forward(event_tx, event)
                &&& sender_channel(event_tx) == before[index].channel
                &&& event == Event::InterruptEstablished(interrupt)
                &&& after.len() == before.len()
                &&& after[index].sent_interrupt
                &&& after[index].peer == peer
                &&& after[index].channel == before[index].channel
                &&& forall|i: int|
                    0 <= i < before.len() && i != index ==> #[trigger] after[i] == before[i]
            }
        },
        outcome is Forward ==> exists|i: int|
            {
                &&& 0 <= i < before.len()
                &&& (#[trigger] before[i]).peer == peer
                &&& !before[i].sent_interrupt
                &&& sender_channel(outcome->Forward_0) == before[i].channel
            },
{
    if 0 <= index < before.len() && before[index].peer == peer && (forall|i: int|
        0 <= i < index ==> (#[trigger] before[i]).peer != peer) {
        assert(is_first(before, peer, index));
    }
}

/// A host that has just been granted a connection and opens its interrupt channel reaches
/// that connection: the event goes into the connection's own channel.
pub proof fn law_control_then_interrupt<C, S>(
    before: Seq<Link>,
    closed: Seq<bool>,
    peer: Address,
    control: C,
    middle: Seq<Link>,
    new: Connection<C>,
    interrupt: S,
    after: Seq<Link>,
    outcome: InterruptOutcome<S>,
)
    requires
        control_outcome(before, closed, peer, control, middle, Some(new)),
        interrupt_outcome(middle, peer, interrupt, after, outcome),
    ensures
        outcome is Forward,
        sender_channel(outcome->Forward_0) == new.received_channel(),
        outcome->Forward_1 == Event::InterruptEstablished(interrupt),
{
    law_granted_connection_is_noted(before, closed, peer, control, middle, new);
    law_interrupt_goes_to_its_own_host(
        middle,
        peer,
        interrupt,
        after,
        outcome,
        middle.len() - 1,
    );
}

/// Of two interrupt channels that a host opens one after the other, the second is never
/// passed on, and changes nothing.
pub proof fn law_interrupt_then_interrupt<S>(
    before: Seq<Link>,
    peer: Address,
    first: S,
    middle: Seq<Link>,
    first_outcome: InterruptOutcome<S>,
    second: S,
    after: Seq<Link>,
    second_outcome: InterruptOutcome<S>,
)
    requires
        interrupt_outcome(before, peer, first, middle, first_outcome),
        interrupt_outcome(middle, peer, second, after, second_outcome),
    ensures
        first_outcome is Dangling ==> second_outcome is Dangling,
        !(first_outcome is Dangling) ==> second_outcome is Duplicate,
        after == middle,
{
    if exists|i: int| 0 <= i < before.len() && (#[trigger] before[i]).peer == peer {
        let i = choose|i: int| 0 <= i < before.len() && (#[trigger] before[i]).peer == peer;
        let index = lemma_first_exists(before, peer, i);
        law_interrupt_goes_to_its_own_host(before, peer, first, middle, first_outcome, index);
        assert forall|i: int| 0 <= i < index implies (#[trigger] middle[i]).peer != peer by {
            assert(before[i].peer != peer);
        }
        law_interrupt_goes_to_its_own_host(middle, peer, second, after, second_outcome, index);
    } else {
        law_interrupt_goes_to_its_own_host(before, peer, first, middle, first_outcome, 0);
        law_interrupt_goes_to_its_own_host(middle, peer, second, after, second_outcome, 0);
    }
}

/// An interrupt channel of one host changes nothing for another: what comes of the other
/// host's interrupt channel, and where it goes, is the same before and after.
pub proof fn law_hosts_do_not_disturb_each_other<S>(
    before: Seq<Link>,
    one: Address,
    one_interrupt: S,
    middle: Seq<Link>,
    one_outcome: InterruptOutcome<S>,
    other: Address,
    index: int,
)
    requires
        interrupt_outcome(before, one, one_interrupt, middle, one_outcome),
        one != other,
    ensures
        middle.len() == before.len(),
        0 <= index < before.len() && before[index].peer == other ==> middle[index]
            == before[index],
{
    if exists|i: int| 0 <= i < before.len() && (#[trigger] before[i]).peer == one {
        let i = choose|i: int| 0 <= i < before.len() && (#[trigger] before[i]).peer == one;
        let first = lemma_first_exists(before, one, i);
        law_interrupt_goes_to_its_own_host(
            before,
            one,
            one_interrupt,
            middle,
            one_outcome,
            first,
        );
    }
}

/// A host that was granted a connection is refused another as long as nobody has ended,
/// and the server knows the same connections as before.
pub proof fn law_granted_then_refused<C>(
    before: Seq<Link>,
    closed: Seq<bool>,
    peer: Address,
    control: C,
    middle: Seq<Link>,
    new: Connection<C>,
    none_closed: Seq<bool>,
    second: C,
    after: Seq<Link>,
    connection: Option<Connection<C>>,
)
    requires
        control_outcome(before, closed, peer, control, middle, Some(new)),
        none_closed.len() == middle.len(),
        forall|i: int| 0 <= i < none_closed.len() ==> !(#[trigger] none_closed[i]),
        control_outcome(middle, none_closed, peer, second, after, connection),
    ensures
        connection is None,
        after == middle,
{
    law_granted_connection_is_noted(before, closed, peer, control, middle, new);
    law_refused_exactly_by_open_connection(
        middle,
        none_closed,
        peer,
        second,
        after,
        connection,
    );
    assert(middle[middle.len() - 1].peer == peer && !none_closed[middle.len() - 1]);
    lemma_nothing_closed(middle, none_closed);
}

/// Where nothing is marked as closed, nothing is dropped.
proof fn lemma_nothing_closed<T>(entries: Seq<T>, closed: Seq<bool>)
    requires
        entries.len() == closed.len(),
        forall|i: int| 0 <= i < closed.len() ==> !(#[trigger] closed[i]),
    ensures
        open_entries(entries, closed) == entries,
    decreases entries.len(),
{
    if entries.len() > 0 {
        lemma_nothing_closed(entries.drop_last(), closed.drop_last());
    }
    assert(open_entries(entries, closed) =~= entries);
}

/// A host whose connections have all ended is granted a new one, whether or not these had
/// been told of an interrupt channel.
pub proof fn law_host_returns_after_its_end<C>(
    before: Seq<Link>,
    closed: Seq<bool>,
    peer: Address,
    control: C,
    after: Seq<Link>,
    connection: Option<Connection<C>>,
)
    requires
        before.len() == closed.len(),
        forall|i: int| 0 <= i < before.len() && (#[trigger] before[i]).peer == peer ==> closed[i],
        control_outcome(before, closed, peer, control, after, connection),
    ensures
        connection is Some,
        connection->0.peer() == peer,
        connection->0.control() == control,
{
    law_refused_exactly_by_open_connection(before, closed, peer, control, after, connection);
}

/// Whatever connections the server knows, it stops exactly where a listener fails or the
/// user ends the program, each with its own reason, and goes on without a change where
/// the user enters something.
pub proof fn law_server_stops_exactly_at_its_end<C, S>(
    before: Seq<Link>,
    event: ServerEvent<C, S>,
    after: Seq<Link>,
    action: ServerAction<C, S>,
)
    requires
        server_outcome(before, event, after, action),
    ensures
        action is Stop <==> {
            ||| event matches ServerEvent::Control(None)
            ||| event matches ServerEvent::Interrupt(None)
            ||| event matches ServerEvent::UserInput(false)
        },
        event matches ServerEvent::Control(None) ==> action == ServerAction::<C, S>::Stop(
            ServerStop::ControlFailed,
        ),
        event matches ServerEvent::Interrupt(None) ==> action == ServerAction::<C, S>::Stop(
            ServerStop::InterruptFailed,
        ),
        event matches ServerEvent::UserInput(false) ==> action == ServerAction::<C, S>::Stop(
            ServerStop::UserExit,
        ),
        event matches ServerEvent::UserInput(true) <==> action is Continue,
        action is Stop || action is Continue ==> after == before,
{
}

/// Each channel that a host opens is answered in kind: a control channel with a
/// connection to serve, to that host and over that channel, or with a refusal; an
/// interrupt channel with what comes of it.
pub proof fn law_channels_are_answered_in_kind<C, S>(
    before: Seq<Link>,
    event: ServerEvent<C, S>,
    after: Seq<Link>,
    action: ServerAction<C, S>,
)
    requires
        server_outcome(before, event, after, action),
    ensures
        action is Serve || action is DuplicateControl <==> (event matches ServerEvent::Control(
            Some(_),
        )),
        action is Interrupt <==> (event matches ServerEvent::Interrupt(Some(_))),
        event matches ServerEvent::Control(Some((peer, control))) ==> {
            &&& action matches ServerAction::Serve(new) ==> new.peer() == peer && new.control()
                == control && after.len() > 0 && after.last().peer == peer && after.last().channel
                == new.received_channel()
            &&& action is DuplicateControl ==> exists|i: int|
                0 <= i < after.len() && (#[trigger] after[i]).peer == peer
            &&& (forall|i: int| 0 <= i < before.len() ==> (#[trigger] before[i]).peer != peer)
                ==> action is Serve
        },
        event matches ServerEvent::Interrupt(Some((peer, interrupt))) ==> interrupt_outcome(
            before,
            peer,
            interrupt,
            after,
            action->Interrupt_0,
        ),
        action is Serve ==> served_connection(action) == Some(action->Serve_0),
        !(action is Serve) ==> served_connection(action) is None,
{
    match event {
        ServerEvent::Control(Some((peer, control))) => {
            let closed = choose|closed: Seq<bool>|
                closed.len() == before.len() && #[trigger] control_outcome(
                    before,
                    closed,
                    peer,
                    control,
                    after,
                    served_connection(action),
                );
            law_refused_exactly_by_open_connection(
                before,
                closed,
                peer,
                control,
                after,
                served_connection(action),
            );
        },
        _ => {},
    }
}

/// The connections after the arrivals, at a server that starts with the given ones.
pub open spec fn links_from(start: Seq<Link>, arrivals: Seq<Arrival>) -> Seq<Link>
    decreases arrivals.len(),
{
    if arrivals.len() == 0 {
        start
    } else {
        links_after(links_from(start, arrivals.drop_last()), arrivals.last())
    }
}

/// While the arrivals come, no connection to the host ends, and the host opens no
/// interrupt channel. Other hosts may come and go.
pub open spec fn waits_through(start: Seq<Link>, arrivals: Seq<Arrival>, host: Address) -> bool
    decreases arrivals.len(),
{
    arrivals.len() > 0 ==> {
        let links = links_from(start, arrivals.drop_last());
        &&& waits_through(start, arrivals.drop_last(), host)
        &&& match arrivals.last() {
            Arrival::Control { closed, .. } => closed.len() == links.len() && forall|i: int|
                0 <= i < links.len() && (#[trigger] links[i]).peer == host ==> !closed[i],
            Arrival::Interrupt { peer } => peer != host,
        }
    }
}

/// A connection that waits for its interrupt channel gets it, however many hosts come and
/// go meanwhile: when its host opens one, the event goes into that connection's channel.
pub proof fn law_waiting_connection_is_reached<S>(
    start: Seq<Link>,
    index: int,
    arrivals: Seq<Arrival>,
    interrupt: S,
    after: Seq<Link>,
    outcome: InterruptOutcome<S>,
)
    requires
        distinct_peers(start),
        0 <= index < start.len(),
        !start[index].sent_interrupt,
        waits_through(start, arrivals, start[index].peer),
        interrupt_outcome(
            links_from(start, arrivals),
            start[index].peer,
            interrupt,
            after,
            outcome,
        ),
    ensures
        outcome is Forward,
        sender_channel(outcome->Forward_0) == start[index].channel,
        outcome->Forward_1 == Event::InterruptEstablished(interrupt),
{
    let host = start[index].peer;
    let links = links_from(start, arrivals);
    let position = lemma_waiting_connection_stays(start, index, arrivals);
    let first = lemma_first_exists(links, host, position);
    if first < position {
        assert(links[first].peer != links[position].peer);
    }
    law_interrupt_goes_to_its_own_host(links, host, interrupt, after, outcome, first);
}

/// A connection that waits for its interrupt channel stays as it is, somewhere among the
/// others, which are to other hosts.
proof fn lemma_waiting_connection_stays(
    start: Seq<Link>,
    index: int,
    arrivals: Seq<Arrival>,
) -> (position: int)
    requires
        distinct_peers(start),
        0 <= index < start.len(),
        !start[index].sent_interrupt,
        waits_through(start, arrivals, start[index].peer),
    ensures
        distinct_peers(links_from(start, arrivals)),
        0 <= position < links_from(start, arrivals).len(),
        links_from(start, arrivals)[position] == start[index],
    decreases arrivals.len(),
{
    if arrivals.len() == 0 {
        index
    } else {
        let before = links_from(start, arrivals.drop_last());
        let after = links_from(start, arrivals);
        let earlier = lemma_waiting_connection_stays(start, index, arrivals.drop_last());
        match arrivals.last() {
            Arrival::Control { peer, closed, channel } => {
                law_control_keeps_peers_distinct(before, closed, peer, channel);
                let origin = lemma_open_entries_origin(before, closed);
                assert(before[earlier].peer == start[index].peer && !closed[earlier]);
                let k = choose|k: int| 0 <= k < origin.len() && #[trigger] origin[k] == earlier;
                assert(open_entries(before, closed)[k] == before[earlier]);
                k
            },
            Arrival::Interrupt { peer } => {
                law_interrupt_keeps_peers_distinct(before, peer);
                assert(after[earlier] == before[earlier]);
                earlier
            },
        }
    }
}

/// If no two connections are to the same host, this is still so after a control channel,
/// granted or refused, and after an interrupt channel, whatever came of it.
pub proof fn law_one_connection_for_each_host<C, S>(
    before: Seq<Link>,
    closed: Seq<bool>,
    peer: Address,
    control: C,
    middle: Seq<Link>,
    connection: Option<Connection<C>>,
    host: Address,
    interrupt: S,
    after: Seq<Link>,
    outcome: InterruptOutcome<S>,
)
    requires
        before.len() == closed.len(),
        forall|i: int, j: int|
            0 <= i < j < before.len() ==> (#[trigger] before[i]).peer != (#[trigger] before[j]).peer,
        control_outcome(before, closed, peer, control, middle, connection),
        interrupt_outcome(middle, host, interrupt, after, outcome),
    ensures
        forall|i: int, j: int|
            0 <= i < j < middle.len() ==> (#[trigger] middle[i]).peer != (#[trigger] middle[j]).peer,
        forall|i: int, j: int|
            0 <= i < j < after.len() ==> (#[trigger] after[i]).peer != (#[trigger] after[j]).peer,
{
    assert(distinct_peers(before));
    law_control_outcome_is_determined(before, closed, peer, control, middle, connection);
    law_control_keeps_peers_distinct(
        before,
        closed,
        peer,
        match connection {
            Some(new) => new.event_channel(),
            None => 0,
        },
    );
    law_interrupt_outcome_is_determined(middle, host, interrupt, after, outcome);
    law_interrupt_keeps_peers_distinct(middle, host);
}

} // verus!
