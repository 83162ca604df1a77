//! A connection to a host, and what the server keeps of it.

use crate::address::Address;
use crate::io_option::IOOption;
use bluer::l2cap::Stream;
use tokio::sync::mpsc;
use vstd::prelude::*;

verus! {

/// How many events may wait for a connection.
pub const EVENT_CAPACITY: usize = 16;

/// The sending half of a tokio channel (`tokio::sync::mpsc::Sender`).
#[verifier::external_type_specification]
#[verifier::external_body]
#[verifier::reject_recursive_types(T)]
pub struct ExSender<T>(mpsc::Sender<T>);

/// The receiving half of a tokio channel (`tokio::sync::mpsc::Receiver`).
#[verifier::external_type_specification]
#[verifier::external_body]
#[verifier::reject_recursive_types(T)]
pub struct ExReceiver<T>(mpsc::Receiver<T>);

/// A connected L2CAP socket (`bluer::l2cap::Stream`), which the library only carries.
#[verifier::external_type_specification]
#[verifier::external_body]
pub struct ExStream(Stream);

/// A number for the channel that the sender puts its events into: two senders have
/// the same number where they belong to one channel.
pub uninterp spec fn sender_channel(event_tx: mpsc::Sender<Event>) -> int;

/// A number for the channel that the receiver takes its events from.
pub uninterp spec fn receiver_channel(event_rx: mpsc::Receiver<Event>) -> int;

/// How many events the sender's channel was made to hold.
pub uninterp spec fn sender_capacity(event_tx: mpsc::Sender<Event>) -> nat;

/// Calls `tokio::sync::mpsc::channel`. The two halves belong to one channel, which
/// holds `capacity` events. The function panics where `capacity` is zero or more
/// than tokio's semaphores count. That the channel is a new one, and empty, is not
/// stated.
#[verifier::external_body]
fn event_channel(capacity: usize) -> (halves: (mpsc::Sender<Event>, mpsc::Receiver<Event>))
    requires
        0 < capacity <= usize::MAX / 8,
    ensures
        sender_channel(halves.0) == receiver_channel(halves.1),
        sender_capacity(halves.0) == capacity,
{
    mpsc::channel(capacity)
}

/// Calls `Clone::clone` of `tokio::sync::mpsc::Sender`. The clone belongs to the
/// same channel.
#[verifier::external_body]
pub(crate) fn clone_sender(event_tx: &mpsc::Sender<Event>) -> (clone: mpsc::Sender<Event>)
    ensures
        sender_channel(clone) == sender_channel(*event_tx),
        sender_capacity(clone) == sender_capacity(*event_tx),
{
    event_tx.clone()
}

/// Calls `tokio::sync::mpsc::Sender::is_closed`: whether the receiver has been
/// dropped or has stopped receiving. The answer depends on what other tasks have
/// done until now, so nothing is stated of it.
#[verifier::external_body]
pub(crate) fn sender_is_closed(event_tx: &mpsc::Sender<Event>) -> (closed: bool) {
    event_tx.is_closed()
}

/// Whether the sender's channel can have answered `closed` when it was asked whether it
/// is closed.
pub closed spec fn reported_closed(event_tx: mpsc::Sender<Event>, closed: bool) -> bool {
    call_ensures(sender_is_closed, (&event_tx,), closed)
}

/// What a sender's channel answers is what tokio says of that sender, and nothing else.
pub(crate) proof fn law_report_is_the_senders_own(event_tx: mpsc::Sender<Event>, closed: bool)
    ensures
        reported_closed(event_tx, closed) <==> call_ensures(
            sender_is_closed,
            (&event_tx,),
            closed,
        ),
{
}

/// What the server tells a connection.
pub enum Event<S = Stream> {
    /// Single-time event for when an interrupt channel is opened.
    InterruptEstablished(S),
}

/// A connection to a host, as the task that serves it holds it.
///
/// The fields drop in the order in which they stand, so the interrupt channel
/// closes before the control channel.
#[derive(Debug)]
pub struct Connection<C = Stream> {
    peer_address: Address,
    /// The interrupt channel, once the host has opened it.
    pub interrupt_socket: IOOption<Stream>,
    /// The control channel.
    pub control_socket: C,
    /// Where the server's events arrive.
    pub event_rx: mpsc::Receiver<Event>,
    event_tx: mpsc::Sender<Event>,
}

/// What the server keeps to control a connection. It does not contain the
/// connection: events reach the task that serves it.
pub struct ConnectionControl<T> {
    /// The address of the connection's peer.
    pub peer_address: Address,
    /// What else the server knows of the connection.
    pub data: T,
    /// Where events for the connection go.
    pub event_tx: mpsc::Sender<Event>,
}

impl<C> Connection<C> {
    /// The address of the connection's peer.
    pub closed spec fn peer(self) -> Address {
        self.peer_address
    }

    /// The control channel.
    pub closed spec fn control(self) -> C {
        self.control_socket
    }

    /// The interrupt channel, where the host has opened it.
    pub closed spec fn interrupt(self) -> Option<Stream> {
        self.interrupt_socket@
    }

    /// The number of the channel that events for this connection go into.
    pub closed spec fn event_channel(self) -> int {
        sender_channel(self.event_tx)
    }

    /// The number of the channel that this connection takes its events from.
    pub closed spec fn received_channel(self) -> int {
        receiver_channel(self.event_rx)
    }

    /// How many events may wait for this connection.
    pub closed spec fn event_capacity(self) -> nat {
        sender_capacity(self.event_tx)
    }

    /// Events sent to this connection arrive at its own receiver.
    pub open spec fn wf(self) -> bool {
        self.event_channel() == self.received_channel()
    }

    /// A connection to the peer over the control channel, with no interrupt channel
    /// yet.
    pub fn new(peer_address: Address, control_socket: C) -> (connection: Self)
        ensures
            connection.wf(),
            connection.peer() == peer_address,
            connection.control() == control_socket,
            connection.interrupt() is None,
            connection.event_capacity() == EVENT_CAPACITY,
            connection.event_capacity() == 16,
            connection.event_channel() == connection.received_channel(),
    {
        let (event_tx, event_rx) = event_channel(EVENT_CAPACITY);
        let connection = Connection {
            peer_address,
            interrupt_socket: IOOption::new_none(),
            control_socket,
            event_rx,
            event_tx,
        };
        proof {
            law_connection_shows_its_fields(connection);
        }
        connection
    }

    /// Returns the address of this connection's peer.
    pub fn peer_address(&self) -> (address: Address)
        ensures
            address == self.peer(),
    {
        self.peer_address
    }

    /// Returns a clone of the event sender: what is sent to it goes to this
    /// connection.
    pub fn clone_event_sender(&self) -> (event_tx: mpsc::Sender<Event>)
        ensures
            sender_channel(event_tx) == self.event_channel(),
            sender_capacity(event_tx) == self.event_capacity(),
    {
        clone_sender(&self.event_tx)
    }

    /// Creates a controller for this connection, with the specified data.
    pub fn new_controller<T>(&self, data: T) -> (controller: ConnectionControl<T>)
        ensures
            controller.peer_address == self.peer(),
            controller.data == data,
            sender_channel(controller.event_tx) == self.event_channel(),
            sender_capacity(controller.event_tx) == self.event_capacity(),
    {
        ConnectionControl {
            peer_address: self.peer_address,
            data,
            event_tx: self.clone_event_sender(),
        }
    }
}

/// A write to one of a connection's public fields.
pub enum FieldWrite<C> {
    /// A write to the interrupt channel's field.
    InterruptSocket(IOOption<Stream>),
    /// A write to the control channel's field.
    ControlSocket(C),
    /// A write to the event receiver's field.
    EventReceiver(mpsc::Receiver<Event>),
}

impl<C> Connection<C> {
    /// The connection after the write.
    pub closed spec fn after_write(self, write: FieldWrite<C>) -> Self {
        match write {
            FieldWrite::InterruptSocket(interrupt_socket) => Connection {
                interrupt_socket,
                ..self
            },
            FieldWrite::ControlSocket(control_socket) => Connection { control_socket, ..self },
            FieldWrite::EventReceiver(event_rx) => Connection { event_rx, ..self },
        }
    }

    /// The connection after the writes.
    pub open spec fn after_writes(self, writes: Seq<FieldWrite<C>>) -> Self
        decreases writes.len(),
    {
        if writes.len() == 0 {
            self
        } else {
            self.after_writes(writes.drop_last()).after_write(writes.last())
        }
    }
}

/// A write to a public field of a connection changes that field, and nothing else of
/// the connection.
pub proof fn law_write_changes_one_field<C>(connection: Connection<C>, write: FieldWrite<C>)
    ensures
        ({
            let after = connection.after_write(write);
            &&& after.peer() == connection.peer()
            &&& after.event_channel() == connection.event_channel()
            &&& after.event_capacity() == connection.event_capacity()
            &&& after.interrupt() == (match write {
                FieldWrite::InterruptSocket(interrupt_socket) => interrupt_socket@,
                _ => connection.interrupt(),
            })
            &&& after.control() == (match write {
                FieldWrite::ControlSocket(control_socket) => control_socket,
                _ => connection.control(),
            })
            &&& after.received_channel() == (match write {
                FieldWrite::EventReceiver(event_rx) => receiver_channel(event_rx),
                _ => connection.received_channel(),
            })
        }),
{
}

/// Whatever is written to its public fields, a connection keeps its peer, and its
/// controllers keep reaching the channel that it was made with.
pub proof fn law_writes_keep_peer<C>(connection: Connection<C>, writes: Seq<FieldWrite<C>>)
    ensures
        connection.after_writes(writes).peer() == connection.peer(),
        connection.after_writes(writes).event_channel() == connection.event_channel(),
        connection.after_writes(writes).event_capacity() == connection.event_capacity(),
    decreases writes.len(),
{
    if writes.len() > 0 {
        law_writes_keep_peer(connection, writes.drop_last());
    }
}

/// What is said of a connection is what its fields hold.
proof fn law_connection_shows_its_fields<C>(connection: Connection<C>)
    ensures
        connection.peer() == connection.peer_address,
        connection.control() == connection.control_socket,
        connection.interrupt() == connection.interrupt_socket@,
        connection.event_channel() == sender_channel(connection.event_tx),
        connection.event_capacity() == sender_capacity(connection.event_tx),
        connection.received_channel() == receiver_channel(connection.event_rx),
        connection.wf() <==> sender_channel(connection.event_tx) == receiver_channel(
            connection.event_rx,
        ),
{
}

} // verus!
