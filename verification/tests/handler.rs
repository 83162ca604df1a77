use bluetooth_mouse::connection::Event;
use bluetooth_mouse::handler::{
    ControlMessage, ControlRead, HandlerAction, HandlerInput, HandshakeReply, MouseHandler,
    MouseReport, ProtocolParameter, ReportProtocol, StopReason, BUF_SIZE, TICK_MILLIS,
};
use bluetooth_mouse::io_option::IOOption;

fn report_of(action: HandlerAction) -> MouseReport {
    match action {
        HandlerAction::Report(report) => report,
        other => panic!("no report but {:?}", other),
    }
}

fn reply_of(action: HandlerAction) -> HandshakeReply {
    match action {
        HandlerAction::Reply(reply) => reply,
        other => panic!("no reply but {:?}", other),
    }
}

fn stop_of(action: HandlerAction) -> StopReason {
    match action {
        HandlerAction::Stop(reason) => reason,
        other => panic!("no stop but {:?}", other),
    }
}

fn message(message: ControlMessage) -> HandlerInput<u32> {
    HandlerInput::Control(ControlRead::Message(message))
}

#[test]
fn twitches_to_the_left_and_back() {
    let mut handler = MouseHandler::new();
    assert_eq!(handler.tick(), [0, 0, 0, -10, 0]);
    assert_eq!(handler.tick(), [0, 0, 0, 10, 0]);
    assert_eq!(handler.tick(), [0, 0, 0, -10, 0]);
}

#[test]
fn pointer_returns_when_the_frame_wraps() {
    let mut handler = MouseHandler::new();
    let mut offset = 0;
    for count in 1..=1000 {
        let fields = handler.tick();
        offset += fields[3];
        assert_eq!(offset, if count % 2 == 0 { 0 } else { -10 });
    }
}

#[test]
fn sends_reports_once_there_is_an_interrupt_channel() {
    let mut handler = MouseHandler::new();
    let mut socket = IOOption::new_none();
    let report = report_of(handler.step(&mut socket, HandlerInput::Timer));
    assert!(!report.deliver);
    assert_eq!(report.fields, [0, 0, 0, -10, 0]);
    assert_eq!(report.protocol, ReportProtocol::Report);
    let established = HandlerInput::Event(Some(Event::InterruptEstablished(5u32)));
    assert!(matches!(handler.step(&mut socket, established), HandlerAction::Continue));
    assert_eq!(*socket.inner_ref(), Some(5));
    let report = report_of(handler.step(&mut socket, HandlerInput::Timer));
    assert!(report.deliver);
    assert_eq!(report.fields, [0, 0, 0, 10, 0]);
    let newer = HandlerInput::Event(Some(Event::InterruptEstablished(6u32)));
    assert!(matches!(handler.step(&mut socket, newer), HandlerAction::Continue));
    assert_eq!(*socket.inner_ref(), Some(6));
}

#[test]
fn switches_protocols_on_request() {
    let mut handler = MouseHandler::new();
    let mut socket = IOOption::new_none();
    assert_eq!(handler.protocol(), ReportProtocol::Report);
    let boot = message(ControlMessage::SetProtocol(ProtocolParameter::Boot));
    assert_eq!(reply_of(handler.step(&mut socket, boot)), HandshakeReply::Successful);
    assert_eq!(handler.protocol(), ReportProtocol::Boot);
    let report = report_of(handler.step(&mut socket, HandlerInput::Timer));
    assert_eq!(report.protocol, ReportProtocol::Boot);
    let back = message(ControlMessage::SetProtocol(ProtocolParameter::Report));
    assert_eq!(reply_of(handler.step(&mut socket, back)), HandshakeReply::Successful);
    assert_eq!(handler.protocol(), ReportProtocol::Report);
}

#[test]
fn refuses_unknown_protocols() {
    let mut handler = MouseHandler::new();
    assert_eq!(handler.set_protocol(ProtocolParameter::Boot), HandshakeReply::Successful);
    assert_eq!(
        handler.set_protocol(ProtocolParameter::Other),
        HandshakeReply::ErrInvalidParameter
    );
    assert_eq!(handler.protocol(), ReportProtocol::Boot);
}

#[test]
fn answers_nothing_else() {
    let mut handler = MouseHandler::new();
    let mut socket = IOOption::new_none();
    let ignored = [
        ControlMessage::Handshake,
        ControlMessage::HidControl,
        ControlMessage::GetReport,
        ControlMessage::SetReport,
        ControlMessage::GetProtocol,
        ControlMessage::Data,
    ];
    for kind in ignored {
        assert!(matches!(handler.step(&mut socket, message(kind)), HandlerAction::Continue));
    }
    let malformed = HandlerInput::Control(ControlRead::Malformed);
    assert!(matches!(handler.step(&mut socket, malformed), HandlerAction::Continue));
    assert!(matches!(
        handler.step(&mut socket, HandlerInput::Interrupt(true)),
        HandlerAction::Continue
    ));
    assert_eq!(handler.protocol(), ReportProtocol::Report);
    assert!(socket.is_none());
}

#[test]
fn stops_when_a_channel_fails() {
    let mut handler = MouseHandler::new();
    let mut socket: IOOption<u32> = IOOption::new_none();
    let failed = HandlerInput::Control(ControlRead::Failed);
    assert_eq!(stop_of(handler.step(&mut socket, failed)), StopReason::ControlFailed);
    let failed = HandlerInput::Interrupt(false);
    assert_eq!(stop_of(handler.step(&mut socket, failed)), StopReason::InterruptFailed);
    let closed = HandlerInput::Event(None);
    assert_eq!(stop_of(handler.step(&mut socket, closed)), StopReason::EventsClosed);
}

#[test]
fn keeps_its_pace_and_its_buffers() {
    assert_eq!(TICK_MILLIS, 100);
    assert_eq!(BUF_SIZE, 1024);
}
