//! How a connected host is served: the mouse twitches, and the host's requests are
//! answered.

use crate::connection::Event;
use crate::io_option::IOOption;
use vstd::prelude::*;

verus! {

/// How many milliseconds pass between two reports.
pub const TICK_MILLIS: u64 = 100;

/// How many bytes of a message are read at most.
pub const BUF_SIZE: usize = 1024;

/// How far the pointer twitches.
pub const TWITCH: i32 = 10;

/// The protocols that a host can ask for.
#[derive(Clone, Copy, Debug, PartialEq, Eq, Structural)]
pub enum ReportProtocol {
    /// Reports in the fixed format that a host understands before it has read the
    /// report descriptor.
    Boot,
    /// Reports in the format of the report descriptor.
    Report,
}

/// The parameter of a request to set the protocol.
#[derive(Clone, Copy, Debug, PartialEq, Eq, Structural)]
pub enum ProtocolParameter {
    /// The boot protocol.
    Boot,
    /// The report protocol.
    Report,
    /// A value that stands for no protocol.
    Other,
}

/// A message on the control channel, as far as it matters to the mouse.
#[derive(Clone, Copy, Debug, PartialEq, Eq, Structural)]
pub enum ControlMessage {
    /// The result of a request.
    Handshake,
    /// A control operation, such as to suspend.
    HidControl,
    /// A request for a report.
    GetReport,
    /// A request to take a report.
    SetReport,
    /// A request for the protocol in force.
    GetProtocol,
    /// A request to change the protocol.
    SetProtocol(ProtocolParameter),
    /// The payload of a report.
    Data,
}

/// What a read from the control channel gave.
#[derive(Clone, Copy, Debug, PartialEq, Eq, Structural)]
pub enum ControlRead {
    /// A message.
    Message(ControlMessage),
    /// Bytes that are no message.
    Malformed,
    /// An error: nothing was read.
    Failed,
}

/// What a connection's task waits for.
pub enum HandlerInput<S> {
    /// The time between two reports has passed.
    Timer,
    /// The control channel was read.
    Control(ControlRead),
    /// The interrupt channel was read: with bytes, or else with an error.
    Interrupt(bool),
    /// The server sent an event, or has closed the connection's event channel.
    Event(Option<Event<S>>),
}

/// The answer to a request.
#[derive(Clone, Copy, Debug, PartialEq, Eq, Structural)]
pub enum HandshakeReply {
    /// The request was carried out.
    Successful,
    /// The request was refused: its parameter is invalid.
    ErrInvalidParameter,
}

/// Why a connection is no longer served.
#[derive(Clone, Copy, Debug, PartialEq, Eq, Structural)]
pub enum StopReason {
    /// The control channel could not be read.
    ControlFailed,
    /// The interrupt channel could not be read.
    InterruptFailed,
    /// The event channel is closed.
    EventsClosed,
}

/// A report to fill in.
#[derive(Clone, Copy, Debug)]
pub struct MouseReport {
    /// The protocol whose format the report has.
    pub protocol: ReportProtocol,
    /// The values of the fields: three buttons, then the movement along two axes.
    pub fields: [i32; 5],
    /// Whether the report is sent; without an interrupt channel it is dropped.
    pub deliver: bool,
}

/// What a connection's task does next.
#[derive(Clone, Copy, Debug)]
pub enum HandlerAction {
    /// Wait again.
    Continue,
    /// Restart the timer, fill in a report and, if it is to be delivered, send it.
    Report(MouseReport),
    /// Answer on the control channel.
    Reply(HandshakeReply),
    /// Stop.
    Stop(StopReason),
}

/// What a connection's task remembers between two inputs, apart from the interrupt
/// channel.
pub struct HandlerState {
    /// The number of ticks so far, modulo 256.
    pub frame: u8,
    /// The protocol in force.
    pub protocol: ReportProtocol,
    /// The buttons that are held.
    pub buttons: [i32; 3],
    /// The movement that is not reported yet.
    pub movement: [i32; 2],
}

/// The state in which a connection starts: the report protocol, no tick yet, no
/// button held and no movement.
pub open spec fn initial_state() -> HandlerState {
    HandlerState {
        frame: 0,
        protocol: ReportProtocol::Report,
        buttons: [0, 0, 0],
        movement: [0, 0],
    }
}

/// The number of the tick that follows the given one: after 255 comes 0.
pub open spec fn next_frame(frame: u8) -> u8 {
    if frame == 255 {
        0
    } else {
        (frame + 1) as u8
    }
}

/// The horizontal movement at a tick: to the right at even ticks, to the left at odd
/// ones.
pub open spec fn twitch(frame: u8) -> i32 {
    if frame % 2 == 0 {
        TWITCH
    } else {
        (-TWITCH) as i32
    }
}

/// The protocol that a request asks for; none where the parameter stands for none.
pub open spec fn protocol_of(parameter: ProtocolParameter) -> Option<ReportProtocol> {
    match parameter {
        ProtocolParameter::Boot => Some(ReportProtocol::Boot),
        ProtocolParameter::Report => Some(ReportProtocol::Report),
        ProtocolParameter::Other => None,
    }
}

/// The parameter of the request to set the protocol that the input is; none where it
/// is something else.
pub open spec fn protocol_request<S>(input: HandlerInput<S>) -> Option<ProtocolParameter> {
    match input {
        HandlerInput::Control(
            ControlRead::Message(ControlMessage::SetProtocol(parameter)),
        ) => Some(parameter),
        _ => None,
    }
}

/// The protocol that the input brings into force; none where it changes nothing.
pub open spec fn granted_protocol<S>(input: HandlerInput<S>) -> Option<ReportProtocol> {
    match protocol_request(input) {
        Some(parameter) => protocol_of(parameter),
        None => None,
    }
}

/// The interrupt channel that the input brings; none where it brings none.
pub open spec fn established_interrupt<S>(input: HandlerInput<S>) -> Option<S> {
    match input {
        HandlerInput::Event(Some(Event::InterruptEstablished(stream))) => Some(stream),
        _ => None,
    }
}

/// Why the input ends the connection; none where the connection goes on.
pub open spec fn stop_reason<S>(input: HandlerInput<S>) -> Option<StopReason> {
    match input {
        HandlerInput::Control(ControlRead::Failed) => Some(StopReason::ControlFailed),
        HandlerInput::Interrupt(false) => Some(StopReason::InterruptFailed),
        HandlerInput::Event(None) => Some(StopReason::EventsClosed),
        _ => None,
    }
}

/// The state after a tick: one tick more, and all movement reported.
pub open spec fn after_tick(state: HandlerState) -> HandlerState {
    HandlerState { frame: next_frame(state.frame), movement: [0, 0], ..state }
}

/// The fields of the report at the next tick: the buttons as they are, and the
/// movement with its horizontal part replaced by the twitch.
pub open spec fn report_fields(state: HandlerState) -> [i32; 5] {
    [
        state.buttons[0],
        state.buttons[1],
        state.buttons[2],
        twitch(next_frame(state.frame)),
        state.movement[1],
    ]
}

/// The answer to a request to set the protocol.
pub open spec fn protocol_reply(parameter: ProtocolParameter) -> HandshakeReply {
    if protocol_of(parameter) is Some {
        HandshakeReply::Successful
    } else {
        HandshakeReply::ErrInvalidParameter
    }
}

/// The state after the input.
pub open spec fn next_state<S>(state: HandlerState, input: HandlerInput<S>) -> HandlerState {
    if input is Timer {
        after_tick(state)
    } else {
        match granted_protocol(input) {
            Some(protocol) => HandlerState { protocol, ..state },
            None => state,
        }
    }
}

/// The interrupt channel after the input: the newest that was established.
pub open spec fn next_interrupt<S>(interrupt: Option<S>, input: HandlerInput<S>) -> Option<S> {
    match established_interrupt(input) {
        Some(stream) => Some(stream),
        None => interrupt,
    }
}

/// What the input asks to be done, in the given state and with the given interrupt
/// channel.
pub open spec fn next_action<S>(
    state: HandlerState,
    interrupt: Option<S>,
    input: HandlerInput<S>,
) -> HandlerAction {
    if input is Timer {
        HandlerAction::Report(
            MouseReport {
                protocol: state.protocol,
                fields: report_fields(state),
                deliver: interrupt is Some,
            },
        )
    } else if let Some(parameter) = protocol_request(input) {
        HandlerAction::Reply(protocol_reply(parameter))
    } else if let Some(reason) = stop_reason(input) {
        HandlerAction::Stop(reason)
    } else {
        HandlerAction::Continue
    }
}

/// What serves a connection, apart from its channels.
#[derive(Clone, Copy, Debug)]
pub struct MouseHandler {
    frame: u8,
    mode: ReportProtocol,
    mouse_button: [i32; 3],
    mouse_rel: [i32; 2],
}

impl View for MouseHandler {
    type V = HandlerState;

    closed spec fn view(&self) -> HandlerState {
        HandlerState {
            frame: self.frame,
            protocol: self.mode,
            buttons: self.mouse_button,
            movement: self.mouse_rel,
        }
    }
}

impl MouseHandler {
    /// A handler for a connection that has just been made.
    pub fn new() -> (handler: Self)
        ensures
            handler@ == initial_state(),
            handler@.frame == 0,
            handler@.protocol == ReportProtocol::Report,
    {
        let handler = MouseHandler {
            frame: 0,
            mode: ReportProtocol::Report,
            mouse_button: [0, 0, 0],
            mouse_rel: [0, 0],
        };
        handler
    }

    /// Returns the protocol in force.
    pub fn protocol(&self) -> (protocol: ReportProtocol)
        ensures
            protocol == self@.protocol,
    {
        self.mode
    }

    /// Advances by one tick, and returns the fields of the report that is due.
    pub fn tick(&mut self) -> (fields: [i32; 5])
        ensures
            final(self)@ == after_tick(old(self)@),
            fields == report_fields(old(self)@),
            final(self)@.frame == (old(self)@.frame + 1) % 256,
            final(self)@.protocol == old(self)@.protocol,
            fields[3] == 10 - 20 * (final(self)@.frame % 2),
    {
        self.frame = self.frame.wrapping_add(1);
        self.mouse_rel[0] = TWITCH - 2 * TWITCH * ((self.frame % 2) as i32);
        let fields = [
            self.mouse_button[0],
            self.mouse_button[1],
            self.mouse_button[2],
            self.mouse_rel[0],
            self.mouse_rel[1],
        ];
        // Reset relative axes.
        self.mouse_rel = [0, 0];
        fields
    }

    /// Carries out a request to set the protocol, and returns the answer to it.
    pub fn set_protocol(&mut self, parameter: ProtocolParameter) -> (reply: HandshakeReply)
        ensures
            final(self)@ == (match protocol_of(parameter) {
                Some(protocol) => HandlerState { protocol, ..old(self)@ },
                None => old(self)@,
            }),
            reply == protocol_reply(parameter),
            reply == HandshakeReply::Successful <==> parameter != ProtocolParameter::Other,
            parameter == ProtocolParameter::Boot ==> final(self)@.protocol == ReportProtocol::Boot,
            parameter == ProtocolParameter::Report ==> final(self)@.protocol
                == ReportProtocol::Report,
            parameter == ProtocolParameter::Other ==> final(self)@ == old(self)@,
            final(self)@.frame == old(self)@.frame,
    {
        match parameter {
            ProtocolParameter::Boot => {
                self.mode = ReportProtocol::Boot;
                HandshakeReply::Successful
            },
            ProtocolParameter::Report => {
                self.mode = ReportProtocol::Report;
                HandshakeReply::Successful
            },
            ProtocolParameter::Other => HandshakeReply::ErrInvalidParameter,
        }
    }

    /// Takes note of one input, and returns what is to be done about it.
    pub fn step<S>(
        &mut self,
        interrupt_socket: &mut IOOption<S>,
        input: HandlerInput<S>,
    ) -> (action: HandlerAction)
        ensures
            final(self)@ == next_state(old(self)@, input),
            final(interrupt_socket)@ == next_interrupt(old(interrupt_socket)@, input),
            action == next_action(old(self)@, old(interrupt_socket)@, input),
            action is Report <==> input is Timer,
            action is Reply <==> (input matches HandlerInput::Control(
                ControlRead::Message(ControlMessage::SetProtocol(_)),
            )),
            action is Stop <==> {
                ||| input matches HandlerInput::Control(ControlRead::Failed)
                ||| input matches HandlerInput::Interrupt(false)
                ||| input matches HandlerInput::Event(None)
            },
            action matches HandlerAction::Report(report) ==> {
                &&& report.protocol == old(self)@.protocol
                &&& report.deliver == (old(interrupt_socket)@ is Some)
                &&& report.fields[3] == 10 - 20 * ((old(self)@.frame + 1) % 2)
            },
    {
        match input {
            HandlerInput::Timer => {
                let protocol = self.mode;
                let fields = self.tick();
                let deliver = interrupt_socket.is_some();
                HandlerAction::Report(MouseReport { protocol, fields, deliver })
            },
            HandlerInput::Control(ControlRead::Message(message)) => match message {
                ControlMessage::Handshake => HandlerAction::Continue,
                ControlMessage::HidControl => HandlerAction::Continue,
                ControlMessage::GetReport => HandlerAction::Continue,
                ControlMessage::SetReport => HandlerAction::Continue,
                ControlMessage::GetProtocol => HandlerAction::Continue,
                ControlMessage::SetProtocol(parameter) => HandlerAction::Reply(
                    self.set_protocol(parameter),
                ),
                ControlMessage::Data => HandlerAction::Continue,
            },
            HandlerInput::Control(ControlRead::Malformed) => HandlerAction::Continue,
            HandlerInput::Control(ControlRead::Failed) => HandlerAction::Stop(
                StopReason::ControlFailed,
            ),
            HandlerInput::Interrupt(ok) => {
                if ok {
                    // Messages from the host are ignored.
                    HandlerAction::Continue
                } else {
                    HandlerAction::Stop(StopReason::InterruptFailed)
                }
            },
            HandlerInput::Event(Some(Event::InterruptEstablished(stream))) => {
                interrupt_socket.replace(stream);
                HandlerAction::Continue
            },
            HandlerInput::Event(None) => HandlerAction::Stop(StopReason::EventsClosed),
        }
    }
}

} // verus!
