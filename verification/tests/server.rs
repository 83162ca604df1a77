use bluetooth_mouse::address::Address;
use bluetooth_mouse::connection::{Connection, Event};
use bluetooth_mouse::server::{
    ConnectionData, InterruptOutcome, Server, ServerAction, ServerEvent, ServerStop,
};

const HOST: Address = Address([1, 0, 0, 0, 0, 1]);
const OTHER: Address = Address([1, 0, 0, 0, 0, 2]);

fn connect(server: &mut Server, peer: Address) -> Option<Connection<u8>> {
    server.accept_control(peer, 7u8)
}

#[test]
fn starts_with_nothing_sent() {
    assert_eq!(ConnectionData::default(), ConnectionData { sent_interrupt: false });
}

#[test]
fn grants_one_connection_to_each_host() {
    let mut server = Server::new();
    let first = connect(&mut server, HOST).unwrap();
    assert_eq!(first.peer_address(), HOST);
    assert_eq!(first.control_socket, 7);
    assert!(connect(&mut server, HOST).is_none());
    let second = connect(&mut server, OTHER).unwrap();
    assert_eq!(second.peer_address(), OTHER);
    assert!(connect(&mut server, HOST).is_none());
    assert!(connect(&mut server, OTHER).is_none());
}

#[test]
fn ended_connections_make_room() {
    let mut server = Server::new();
    let first = connect(&mut server, HOST).unwrap();
    let _second = connect(&mut server, OTHER).unwrap();
    drop(first);
    assert!(connect(&mut server, OTHER).is_none());
    assert!(matches!(server.accept_interrupt(HOST, 1u8), InterruptOutcome::Dangling));
    let again = connect(&mut server, HOST).unwrap();
    assert!(matches!(server.accept_interrupt(HOST, 1u8), InterruptOutcome::Forward(_, _)));
    assert_eq!(again.peer_address(), HOST);
}

#[test]
fn given_marks_decide_which_connections_are_left() {
    let mut server = Server::new();
    let _first = server.admit_control(&vec![], HOST, ()).unwrap();
    let _second = server.admit_control(&vec![false], OTHER, ()).unwrap();
    assert!(server.admit_control(&vec![false, true], HOST, ()).is_none());
    assert!(matches!(server.accept_interrupt(OTHER, 1u8), InterruptOutcome::Dangling));
    assert!(server.admit_control(&vec![true], HOST, ()).is_some());
}

#[test]
fn tells_a_connection_of_its_interrupt_channel_once() {
    let mut server = Server::new();
    let first = connect(&mut server, HOST).unwrap();
    let second = connect(&mut server, OTHER).unwrap();
    match server.accept_interrupt(OTHER, 42u8) {
        InterruptOutcome::Forward(event_tx, Event::InterruptEstablished(stream)) => {
            assert_eq!(stream, 42);
            assert!(event_tx.same_channel(&second.clone_event_sender()));
            assert!(!event_tx.same_channel(&first.clone_event_sender()));
        }
        _ => panic!("the interrupt channel was refused"),
    }
    assert!(matches!(server.accept_interrupt(OTHER, 43u8), InterruptOutcome::Duplicate));
    assert!(matches!(server.accept_interrupt(HOST, 44u8), InterruptOutcome::Forward(_, _)));
    assert!(matches!(server.accept_interrupt(HOST, 45u8), InterruptOutcome::Duplicate));
}

#[test]
fn an_untold_connection_leaves_nothing_to_the_next() {
    let mut server = Server::new();
    let untold = connect(&mut server, HOST).unwrap();
    drop(untold);
    let told = connect(&mut server, HOST).unwrap();
    match server.accept_interrupt(HOST, 1u8) {
        InterruptOutcome::Forward(event_tx, _) => {
            assert!(event_tx.same_channel(&told.clone_event_sender()));
        }
        _ => panic!("the interrupt channel was refused"),
    }
    assert!(connect(&mut server, HOST).is_none());
    let _other = connect(&mut server, OTHER).unwrap();
    assert!(matches!(server.accept_interrupt(HOST, 2u8), InterruptOutcome::Duplicate));
}

#[test]
fn refuses_dangling_interrupt_channels() {
    let mut server = Server::new();
    assert!(matches!(server.accept_interrupt(HOST, 1u8), InterruptOutcome::Dangling));
    let _other = connect(&mut server, OTHER).unwrap();
    assert!(matches!(server.accept_interrupt(HOST, 1u8), InterruptOutcome::Dangling));
}

#[test]
fn serves_what_arrives() {
    let mut server = Server::new();
    let control: ServerEvent<u8, u8> = ServerEvent::Control(Some((HOST, 3)));
    let connection = match server.step(control) {
        ServerAction::Serve(connection) => connection,
        _ => panic!("the connection was refused"),
    };
    assert_eq!(connection.control_socket, 3);
    let again: ServerEvent<u8, u8> = ServerEvent::Control(Some((HOST, 4)));
    assert!(matches!(server.step(again), ServerAction::DuplicateControl));
    let interrupt: ServerEvent<u8, u8> = ServerEvent::Interrupt(Some((HOST, 5)));
    assert!(matches!(
        server.step(interrupt),
        ServerAction::Interrupt(InterruptOutcome::Forward(_, Event::InterruptEstablished(5)))
    ));
    let typed: ServerEvent<u8, u8> = ServerEvent::UserInput(true);
    assert!(matches!(server.step(typed), ServerAction::Continue));
}

#[test]
fn stops_when_nothing_can_arrive() {
    let mut server = Server::new();
    let control: ServerEvent<u8, u8> = ServerEvent::Control(None);
    assert!(matches!(server.step(control), ServerAction::Stop(ServerStop::ControlFailed)));
    let interrupt: ServerEvent<u8, u8> = ServerEvent::Interrupt(None);
    assert!(matches!(server.step(interrupt), ServerAction::Stop(ServerStop::InterruptFailed)));
    let exit: ServerEvent<u8, u8> = ServerEvent::UserInput(false);
    assert!(matches!(server.step(exit), ServerAction::Stop(ServerStop::UserExit)));
}
