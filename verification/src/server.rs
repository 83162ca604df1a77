//! Who may connect: at most one connection for each host, and one interrupt channel
//! for each connection.

use crate::address::Address;
use crate::connection::{
    clone_sender, law_report_is_the_senders_own, reported_closed, sender_channel,
    sender_is_closed, Connection, ConnectionControl, Event, EVENT_CAPACITY,
};
use crate::server_laws::{
    law_control_keeps_peers_distinct, law_refused_exactly_by_open_connection,
};
use tokio::sync::mpsc;
use vstd::prelude::*;

verus! {

/// What the server notes about a connection.
#[derive(Clone, Copy, Debug, PartialEq, Eq, Structural)]
pub struct ConnectionData {
    /// Whether the connection has been told of an interrupt channel.
    pub sent_interrupt: bool,
}

impl Default for ConnectionData {
    /// Nothing has been told yet.
    fn default() -> (data: Self)
        ensures
            data == (ConnectionData { sent_interrupt: false }),
    {
        ConnectionData { sent_interrupt: false }
    }
}

/// A connection as the server knows it.
pub struct Link {
    /// The address of the host.
    pub peer: Address,
    /// Whether the connection has been told of an interrupt channel.
    pub sent_interrupt: bool,
    /// The number of the channel that leads to the connection.
    pub channel: int,
}

/// The connection that a controller stands for.
pub open spec fn link_of(control: ConnectionControl<ConnectionData>) -> Link {
    Link {
        peer: control.peer_address,
        sent_interrupt: control.data.sent_interrupt,
        channel: sender_channel(control.event_tx),
    }
}

/// The entries that are not marked as closed, in their order.
pub open spec fn open_entries<T>(entries: Seq<T>, closed: Seq<bool>) -> Seq<T>
    recommends
        entries.len() == closed.len(),
    decreases entries.len(),
{
    if entries.len() == 0 {
        seq![]
    } else {
        let earlier = open_entries(entries.drop_last(), closed.drop_last());
        if closed.last() {
            earlier
        } else {
            earlier.push(entries.last())
        }
    }
}

/// Whether one of the connections is to the host.
pub open spec fn has_peer(links: Seq<Link>, peer: Address) -> bool {
    exists|i: int| 0 <= i < links.len() && (#[trigger] links[i]).peer == peer
}

/// Whether the connection at the index is the first to the host.
pub open spec fn is_first(links: Seq<Link>, peer: Address, index: int) -> bool {
    &&& 0 <= index < links.len()
    &&& links[index].peer == peer
    &&& forall|i: int| 0 <= i < index ==> (#[trigger] links[i]).peer != peer
}

/// The connections with the one at the index told of an interrupt channel.
pub open spec fn with_interrupt_sent(links: Seq<Link>, index: int) -> Seq<Link> {
    links.update(index, Link { sent_interrupt: true, ..links[index] })
}

/// No two connections are to the same host.
pub open spec fn distinct_peers(links: Seq<Link>) -> bool {
    forall|i: int, j: int|
        0 <= i < j < links.len() ==> (#[trigger] links[i]).peer != (#[trigger] links[j]).peer
}

/// What comes of a control channel that a host has opened, where `closed` marks the
/// connections that have ended. These are forgotten. If a connection to the host is
/// left, the new channel is refused. Otherwise there is a new connection over it,
/// noted behind the others.
pub open spec fn control_outcome<C>(
    before: Seq<Link>,
    closed: Seq<bool>,
    peer: Address,
    control: C,
    after: Seq<Link>,
    connection: Option<Connection<C>>,
) -> bool {
    let kept = open_entries(before, closed);
    match connection {
        None => has_peer(kept, peer) && after == kept,
        Some(new) => {
            &&& !has_peer(kept, peer)
            &&& new.wf()
            &&& new.peer() == peer
            &&& new.control() == control
            &&& new.interrupt() is None
            &&& new.event_capacity() == EVENT_CAPACITY
            &&& after == kept.push(
                Link { peer, sent_interrupt: false, channel: new.event_channel() },
            )
        },
    }
}

/// What comes of an interrupt channel that a host has opened.
pub enum InterruptOutcome<S> {
    /// The connection to the host is to be told of it: the event goes to the sender.
    Forward(mpsc::Sender<Event>, Event<S>),
    /// The connection to the host has been told of one before.
    Duplicate,
    /// There is no connection to the host.
    Dangling,
}

/// What comes of an interrupt channel that a host has opened: the first connection
/// to the host is told of it, unless it has been told of one before.
pub open spec fn interrupt_outcome<S>(
    before: Seq<Link>,
    peer: Address,
    interrupt: S,
    after: Seq<Link>,
    outcome: InterruptOutcome<S>,
) -> bool {
    match outcome {
        InterruptOutcome::Dangling => !has_peer(before, peer) && after == before,
        InterruptOutcome::Duplicate => exists|i: int| #[trigger]
            is_first(before, peer, i) && before[i].sent_interrupt && after == before,
        InterruptOutcome::Forward(event_tx, event) => exists|i: int|
            {
                &&& #[trigger] is_first(before, peer, i)
                &&& !before[i].sent_interrupt
                &&& after == with_interrupt_sent(before, i)
                &&& sender_channel(event_tx) == before[i].channel
                &&& event == Event::InterruptEstablished(interrupt)
            },
    }
}

/// What the server waits for.
pub enum ServerEvent<C, S> {
    /// A host has opened a control channel, or none can be opened any more.
    Control(Option<(Address, C)>),
    /// A host has opened an interrupt channel, or none can be opened any more.
    Interrupt(Option<(Address, S)>),
    /// The user has entered something, or has ended the program.
    UserInput(bool),
}

/// Why the server stops.
#[derive(Clone, Copy, Debug, PartialEq, Eq, Structural)]
pub enum ServerStop {
    /// No control channel can be accepted any more.
    ControlFailed,
    /// No interrupt channel can be accepted any more.
    InterruptFailed,
    /// The user has ended the program.
    UserExit,
}

/// What the server does next.
pub enum ServerAction<C, S> {
    /// Wait again.
    Continue,
    /// Serve a new connection.
    Serve(Connection<C>),
    /// Nothing: the host has a connection, and the new control channel is closed.
    DuplicateControl,
    /// What came of an interrupt channel.
    Interrupt(InterruptOutcome<S>),
    /// Stop.
    Stop(ServerStop),
}

/// The connection that is to be served, where the action asks for that.
pub open spec fn served_connection<C, S>(action: ServerAction<C, S>) -> Option<Connection<C>> {
    match action {
        ServerAction::Serve(connection) => Some(connection),
        _ => None,
    }
}

/// What comes of an event. Channels that hosts have opened are sorted out; the server
/// stops where none can be opened any more, or the user ends the program; and nothing
/// but a channel changes what the server knows.
pub open spec fn server_outcome<C, S>(
    before: Seq<Link>,
    event: ServerEvent<C, S>,
    after: Seq<Link>,
    action: ServerAction<C, S>,
) -> bool {
    match event {
        ServerEvent::Control(Some((peer, control))) => {
            &&& action is Serve || action is DuplicateControl
            &&& exists|closed: Seq<bool>|
                closed.len() == before.len() && #[trigger] control_outcome(
                    before,
                    closed,
                    peer,
                    control,
                    after,
                    served_connection(action),
                )
        },
        ServerEvent::Control(None) => {
            &&& action == ServerAction::<C, S>::Stop(ServerStop::ControlFailed)
            &&& after == before
        },
        ServerEvent::Interrupt(Some((peer, interrupt))) => {
            &&& action is Interrupt
            &&& interrupt_outcome(before, peer, interrupt, after, action->Interrupt_0)
        },
        ServerEvent::Interrupt(None) => {
            &&& action == ServerAction::<C, S>::Stop(ServerStop::InterruptFailed)
            &&& after == before
        },
        ServerEvent::UserInput(open) => {
            &&& action == (if open {
                ServerAction::<C, S>::Continue
            } else {
                ServerAction::Stop(ServerStop::UserExit)
            })
            &&& after == before
        },
    }
}

/// The connections that the server knows.
pub struct Server {
    connections: Vec<ConnectionControl<ConnectionData>>,
}

impl View for Server {
    type V = Seq<Link>;

    closed spec fn view(&self) -> Seq<Link> {
        self.connections@.map_values(|control: ConnectionControl<ConnectionData>| link_of(control))
    }
}

impl Server {
    /// No two connections are to the same host.
    pub open spec fn wf(self) -> bool {
        distinct_peers(self@)
    }

    /// Whether the connection at the index can have given the answer when it was asked
    /// whether it has ended.
    pub closed spec fn answered(self, index: int, closed: bool) -> bool {
        call_ensures(sender_is_closed, (&self.connections@[index].event_tx,), closed)
    }

    /// Where events for the connection at the index go.
    pub closed spec fn event_sender(self, index: int) -> mpsc::Sender<Event> {
        self.connections@[index].event_tx
    }

    /// Each connection was asked whether it has ended, and gave the answer at its index.
    pub open spec fn answers(self, closed: Seq<bool>) -> bool {
        &&& closed.len() == self@.len()
        &&& forall|i: int| 0 <= i < closed.len() ==> self.answered(i, #[trigger] closed[i])
    }

    /// A server that knows no connection.
    pub fn new() -> (server: Self)
        ensures
            server@ == Seq::<Link>::empty(),
            server.wf(),
    {
        let server = Server { connections: Vec::new() };
        assert(server@ =~= Seq::<Link>::empty());
        server
    }

    /// Asks of each connection whether it has ended.
    fn closed_connections(&self) -> (closed: Vec<bool>)
        ensures
            self.answers(closed@),
            closed@.len() == self.connections@.len(),
            forall|i: int|
                0 <= i < closed@.len() ==> call_ensures(
                    sender_is_closed,
                    (&self.connections@[i].event_tx,),
                    #[trigger] closed@[i],
                ),
    {
        let mut closed: Vec<bool> = Vec::new();
        let mut i: usize = 0;
        while i < self.connections.len()
            invariant
                i <= self.connections.len(),
                closed@.len() == i,
                forall|j: int| 0 <= j < i ==> self.answered(j, #[trigger] closed@[j]),
                forall|j: int|
                    0 <= j < i ==> call_ensures(
                        sender_is_closed,
                        (&self.connections@[j].event_tx,),
                        #[trigger] closed@[j],
                    ),
            decreases self.connections.len() - i,
        {
            closed.push(sender_is_closed(&self.connections[i].event_tx));
            i += 1;
        }
        closed
    }

    /// Forgets the connections that are marked as closed.
    fn clear_closed(&mut self, closed: &Vec<bool>)
        requires
            closed@.len() == old(self)@.len(),
        ensures
            final(self)@ == open_entries(old(self)@, closed@),
    {
        let ghost before = self.connections@;
        let mut kept: usize = 0;
        let mut i: usize = 0;
        while i < closed.len()
            invariant
                kept <= i <= closed@.len() == before.len(),
                self.connections@ == open_entries(before.take(i as int), closed@.take(i as int))
                    + before.skip(i as int),
                kept == open_entries(before.take(i as int), closed@.take(i as int)).len(),
            decreases closed.len() - i,
        {
            let ghost earlier = open_entries(before.take(i as int), closed@.take(i as int));
            assert(before.take(i + 1).drop_last() =~= before.take(i as int));
            assert(closed@.take(i + 1).drop_last() =~= closed@.take(i as int));
            assert(before.skip(i as int)[0] == before[i as int]);
            assert(self.connections@[kept as int] == before[i as int]);
            if closed[i] {
                self.connections.remove(kept);
                assert(self.connections@ =~= earlier + before.skip(i + 1));
            } else {
                kept += 1;
                assert(self.connections@ =~= earlier.push(before[i as int]) + before.skip(i + 1));
            }
            i += 1;
        }
        proof {
            assert(before.take(i as int) =~= before);
            assert(closed@.take(i as int) =~= closed@);
            assert(self.connections@ =~= open_entries(before, closed@));
            lemma_open_entries_map(before, closed@);
        }
    }

    /// The index of the first connection to the host.
    fn find(&self, peer: Address) -> (index: Option<usize>)
        ensures
            match index {
                Some(i) => is_first(self@, peer, i as int),
                None => !has_peer(self@, peer),
            },
    {
        let mut i: usize = 0;
        while i < self.connections.len()
            invariant
                i <= self.connections.len(),
                forall|j: int| 0 <= j < i ==> (#[trigger] self@[j]).peer != peer,
            decreases self.connections.len() - i,
        {
            assert(self@[i as int].peer == self.connections@[i as int].peer_address);
            if self.connections[i].peer_address == peer {
                return Some(i);
            }
            i += 1;
        }
        None
    }

    /// Takes a control channel that a host has opened, where `closed` marks the
    /// connections that have ended. Returns the new connection, or nothing where the
    /// host has one already.
    pub fn admit_control<C>(&mut self, closed: &Vec<bool>, peer: Address, control: C) -> (connection:
        Option<Connection<C>>)
        requires
            closed@.len() == old(self)@.len(),
        ensures
            control_outcome(old(self)@, closed@, peer, control, final(self)@, connection),
            connection is None <==> exists|i: int|
                0 <= i < closed@.len() && (#[trigger] old(self)@[i]).peer == peer && !closed@[i],
            connection matches Some(new) ==> new.peer() == peer && new.control() == control,
            old(self).wf() ==> final(self).wf(),
    {
        // Clear dead connections
        self.clear_closed(closed);
        let ghost kept = self@;
        proof {
            law_control_keeps_peers_distinct(old(self)@, closed@, peer, 0);
        }
        // Find existing (live) connections.
        match self.find(peer) {
            Some(_) => {
                proof {
                    law_refused_exactly_by_open_connection(
                        old(self)@,
                        closed@,
                        peer,
                        control,
                        kept,
                        None,
                    );
                }
                None
            },
            None => {
                let new_connection = Connection::new(peer, control);
                let new_controller = new_connection.new_controller(ConnectionData::default());
                self.connections.push(new_controller);
                proof {
                    law_control_keeps_peers_distinct(
                        old(self)@,
                        closed@,
                        peer,
                        new_connection.event_channel(),
                    );
                }
                assert(self@ =~= kept.push(
                    Link {
                        peer,
                        sent_interrupt: false,
                        channel: new_connection.event_channel(),
                    },
                ));
                proof {
                    law_refused_exactly_by_open_connection(
                        old(self)@,
                        closed@,
                        peer,
                        control,
                        self@,
                        Some(new_connection),
                    );
                }
                Some(new_connection)
            },
        }
    }

    /// Takes a control channel that a host has opened. Each connection is asked whether
    /// it has ended, and the answers decide which connections are left.
    pub fn accept_control<C>(&mut self, peer: Address, control: C) -> (connection: Option<
        Connection<C>,
    >)
        ensures
            exists|closed: Seq<bool>|
                {
                    &&& old(self).answers(closed)
                    &&& closed.len() == old(self)@.len()
                    &&& forall|i: int|
                        0 <= i < closed.len() ==> reported_closed(
                            old(self).event_sender(i),
                            #[trigger] closed[i],
                        )
                    &&& #[trigger] control_outcome(
                        old(self)@,
                        closed,
                        peer,
                        control,
                        final(self)@,
                        connection,
                    )
                    &&& connection is None <==> exists|i: int|
                        0 <= i < closed.len() && (#[trigger] old(self)@[i]).peer == peer
                            && !closed[i]
                },
            connection matches Some(new) ==> new.peer() == peer && new.control() == control,
            old(self).wf() ==> final(self).wf(),
    {
        let closed = self.closed_connections();
        proof {
            law_server_shows_its_table(*self);
            assert forall|i: int| 0 <= i < closed@.len() implies reported_closed(
                self.event_sender(i),
                #[trigger] closed@[i],
            ) by {
                law_report_is_the_senders_own(self.event_sender(i), closed@[i]);
            }
        }
        let connection = self.admit_control(&closed, peer, control);
        proof {
            law_refused_exactly_by_open_connection(
                old(self)@,
                closed@,
                peer,
                control,
                self@,
                connection,
            );
        }
        connection
    }

    /// Takes an interrupt channel that a host has opened.
    pub fn accept_interrupt<S>(&mut self, peer: Address, interrupt: S) -> (outcome:
        InterruptOutcome<S>)
        ensures
            interrupt_outcome(old(self)@, peer, interrupt, final(self)@, outcome),
            outcome is Dangling <==> (forall|i: int|
                0 <= i < old(self)@.len() ==> (#[trigger] old(self)@[i]).peer != peer),
            !(outcome is Forward) ==> final(self)@ == old(self)@,
            outcome matches InterruptOutcome::Forward(event_tx, event) ==> {
                &&& event == Event::InterruptEstablished(interrupt)
                &&& exists|i: int|
                    {
                        &&& 0 <= i < old(self)@.len()
                        &&& (#[trigger] old(self)@[i]).peer == peer
                        &&& !old(self)@[i].sent_interrupt
                        &&& sender_channel(event_tx) == old(self)@[i].channel
                        &&& final(self)@[i].sent_interrupt
                    }
            },
            old(self).wf() ==> final(self).wf(),
    {
        match self.find(peer) {
            Some(i) => {
                assert(self@[i as int] == link_of(self.connections@[i as int]));
                if self.connections[i].data.sent_interrupt {
                    InterruptOutcome::Duplicate
                } else {
                    let event_tx = clone_sender(&self.connections[i].event_tx);
                    self.connections[i].data.sent_interrupt = true;
                    assert(self@ =~= with_interrupt_sent(old(self)@, i as int));
                    InterruptOutcome::Forward(event_tx, Event::InterruptEstablished(interrupt))
                }
            },
            None => InterruptOutcome::Dangling,
        }
    }

    /// Takes note of one event, and returns what is to be done about it.
    pub fn step<C, S>(&mut self, event: ServerEvent<C, S>) -> (action: ServerAction<C, S>)
        ensures
            server_outcome(old(self)@, event, final(self)@, action),
            event matches ServerEvent::Control(Some((peer, control))) ==> exists|
                closed: Seq<bool>,
            |
                old(self).answers(closed) && #[trigger] control_outcome(
                    old(self)@,
                    closed,
                    peer,
                    control,
                    final(self)@,
                    served_connection(action),
                ) && (forall|i: int|
                    0 <= i < closed.len() ==> reported_closed(
                        old(self).event_sender(i),
                        #[trigger] closed[i],
                    )) && (action is DuplicateControl <==> exists|i: int|
                    0 <= i < closed.len() && (#[trigger] old(self)@[i]).peer == peer
                        && !closed[i]),
            event matches ServerEvent::Control(Some(_)) <==> action is Serve || action
                is DuplicateControl,
            event matches ServerEvent::Interrupt(Some(_)) <==> action is Interrupt,
            action == ServerAction::<C, S>::Stop(ServerStop::ControlFailed) <==> (event
                matches ServerEvent::Control(None)),
            action == ServerAction::<C, S>::Stop(ServerStop::InterruptFailed) <==> (event
                matches ServerEvent::Interrupt(None)),
            action == ServerAction::<C, S>::Stop(ServerStop::UserExit) <==> (event
                matches ServerEvent::UserInput(false)),
            action is Continue <==> (event matches ServerEvent::UserInput(true)),
            action is Stop || action is Continue ==> final(self)@ == old(self)@,
            old(self).wf() ==> final(self).wf(),
    {
        match event {
            ServerEvent::Control(Some((peer, control))) => match self.accept_control(
                peer,
                control,
            ) {
                Some(connection) => ServerAction::Serve(connection),
                None => ServerAction::DuplicateControl,
            },
            // If we could not receive the control connection, exit.
            ServerEvent::Control(None) => ServerAction::Stop(ServerStop::ControlFailed),
            ServerEvent::Interrupt(Some((peer, interrupt))) => ServerAction::Interrupt(
                self.accept_interrupt(peer, interrupt),
            ),
            // If we could not receive the interrupt connection, exit.
            ServerEvent::Interrupt(None) => ServerAction::Stop(ServerStop::InterruptFailed),
            ServerEvent::UserInput(open) => {
                if open {
                    // No events currently.
                    ServerAction::Continue
                } else {
                    ServerAction::Stop(ServerStop::UserExit)
                }
            },
        }
    }
}

/// To sort out the closed entries and to look at each entry's link can be done in
/// either order.
proof fn lemma_open_entries_map(
    entries: Seq<ConnectionControl<ConnectionData>>,
    closed: Seq<bool>,
)
    requires
        entries.len() == closed.len(),
    ensures
        open_entries(entries, closed).map_values(
            |control: ConnectionControl<ConnectionData>| link_of(control),
        ) == open_entries(
            entries.map_values(|control: ConnectionControl<ConnectionData>| link_of(control)),
            closed,
        ),
    decreases entries.len(),
{
    let f = |control: ConnectionControl<ConnectionData>| link_of(control);
    if entries.len() > 0 {
        lemma_open_entries_map(entries.drop_last(), closed.drop_last());
        assert(entries.map_values(f).drop_last() =~= entries.drop_last().map_values(f));
    }
    assert(open_entries(entries, closed).map_values(f) =~= open_entries(
        entries.map_values(f),
        closed,
    ));
}

/// What the server knows is its table, entry for entry; and an answer of a connection is
/// what tokio says of that connection's own sender, whatever else is noted of it.
proof fn law_server_shows_its_table(server: Server)
    ensures
        server@.len() == server.connections@.len(),
        forall|i: int|
            0 <= i < server@.len() ==> {
                let control = server.connections@[i];
                &&& (#[trigger] server@[i]).peer == control.peer_address
                &&& server@[i].sent_interrupt == control.data.sent_interrupt
                &&& server@[i].channel == sender_channel(control.event_tx)
                &&& server.event_sender(i) == control.event_tx
            },
        forall|i: int, closed: bool| #[trigger]
            server.answered(i, closed) <==> call_ensures(
                sender_is_closed,
                (&server.connections@[i].event_tx,),
                closed,
            ),
{
}

/// The sender that the server holds for a connection belongs to that connection's
/// channel, and what the connection answers depends on that sender alone.
pub proof fn law_answers_are_the_senders_own(server: Server, index: int, closed: bool)
    requires
        0 <= index < server@.len(),
    ensures
        sender_channel(server.event_sender(index)) == server@[index].channel,
        server.answered(index, closed) <==> reported_closed(server.event_sender(index), closed),
{
    law_server_shows_its_table(server);
    law_report_is_the_senders_own(server.event_sender(index), closed);
}

} // verus!
