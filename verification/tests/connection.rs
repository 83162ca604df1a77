use bluetooth_mouse::address::Address;
use bluetooth_mouse::connection::Connection;
use bluetooth_mouse::io_option::IOOption;
use tokio::sync::mpsc::error::TryRecvError;

const HOST: Address = Address([10, 20, 30, 40, 50, 60]);

#[test]
fn starts_without_an_interrupt_channel() {
    let mut connection = Connection::new(HOST, "control");
    assert_eq!(connection.peer_address(), HOST);
    assert_eq!(connection.control_socket, "control");
    assert!(connection.interrupt_socket.is_none());
    assert_eq!(connection.event_rx.try_recv().err(), Some(TryRecvError::Empty));
    assert_eq!(connection.clone_event_sender().max_capacity(), 16);
}

#[test]
fn controllers_reach_their_own_connection() {
    let first = Connection::new(HOST, 1u8);
    let second = Connection::new(HOST, 2u8);
    let controller = first.new_controller("data");
    assert_eq!(controller.peer_address, HOST);
    assert_eq!(controller.data, "data");
    assert!(controller.event_tx.same_channel(&first.clone_event_sender()));
    assert!(!controller.event_tx.same_channel(&second.clone_event_sender()));
}

#[test]
fn receivers_belong_to_the_senders_of_their_connection() {
    let mut connection = Connection::new(HOST, ());
    let controller = connection.new_controller(());
    let sender = connection.clone_event_sender();
    assert!(!controller.event_tx.is_closed());
    connection.event_rx.close();
    assert!(controller.event_tx.is_closed());
    assert!(sender.is_closed());
}

#[test]
fn writes_to_fields_keep_the_peer() {
    let mut connection = Connection::new(HOST, 1u8);
    let mut other = Connection::new(Address([0; 6]), 2u8);
    let sender = connection.clone_event_sender();
    connection.control_socket = 3;
    connection.interrupt_socket = IOOption::new_none();
    std::mem::swap(&mut connection.event_rx, &mut other.event_rx);
    assert_eq!(connection.peer_address(), HOST);
    assert_eq!(connection.control_socket, 3);
    assert!(connection.interrupt_socket.is_none());
    assert!(connection.clone_event_sender().same_channel(&sender));
    assert_eq!(connection.new_controller(()).peer_address, HOST);
    assert_eq!(other.peer_address(), Address([0; 6]));
}
