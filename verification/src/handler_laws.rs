//! What holds of a connection however its inputs come.

use crate::connection::Event;
use crate::handler::{
    established_interrupt, granted_protocol, initial_state, next_action, next_frame,
    next_interrupt, next_state, protocol_of, protocol_request, stop_reason, twitch,
    ControlMessage, ControlRead, HandlerAction, HandlerInput, HandlerState, HandshakeReply,
    ProtocolParameter, ReportProtocol, StopReason, TWITCH,
};
use crate::report::{fills, law_mouse_report_fields, mouse_items};
use vstd::prelude::*;

verus! {

/// A connection as it is served: what its task remembers, and the interrupt channel.
pub struct Served<S> {
    /// What the task remembers.
    pub state: HandlerState,
    /// The interrupt channel, where there is one.
    pub interrupt: Option<S>,
}

/// A connection that has just been made.
pub open spec fn fresh<S>() -> Served<S> {
    Served { state: initial_state(), interrupt: None }
}

/// The connection after the inputs, from a given start.
pub open spec fn run<S>(start: Served<S>, inputs: Seq<HandlerInput<S>>) -> Served<S>
    decreases inputs.len(),
{
    if inputs.len() == 0 {
        start
    } else {
        let before = run(start, inputs.drop_last());
        Served {
            state: next_state(before.state, inputs.last()),
            interrupt: next_interrupt(before.interrupt, inputs.last()),
        }
    }
}

/// What is done about the last of the inputs.
pub open spec fn last_action<S>(start: Served<S>, inputs: Seq<HandlerInput<S>>) -> HandlerAction
    recommends
        inputs.len() > 0,
{
    let before = run(start, inputs.drop_last());
    next_action(before.state, before.interrupt, inputs.last())
}

/// The number of ticks among the inputs.
pub open spec fn ticks<S>(inputs: Seq<HandlerInput<S>>) -> nat
    decreases inputs.len(),
{
    if inputs.len() == 0 {
        0
    } else {
        ticks(inputs.drop_last()) + if inputs.last() is Timer {
            1nat
        } else {
            0nat
        }
    }
}

/// The protocol that the last granted request among the inputs asked for; the report
/// protocol where none was granted.
pub open spec fn last_granted<S>(inputs: Seq<HandlerInput<S>>) -> ReportProtocol
    decreases inputs.len(),
{
    if inputs.len() == 0 {
        ReportProtocol::Report
    } else {
        match granted_protocol(inputs.last()) {
            Some(protocol) => protocol,
            None => last_granted(inputs.drop_last()),
        }
    }
}

/// Whether one of the inputs brings an interrupt channel.
pub open spec fn interrupt_among<S>(inputs: Seq<HandlerInput<S>>) -> bool {
    exists|i: int| 0 <= i < inputs.len() && established_interrupt(#[trigger] inputs[i]) is Some
}

/// How far the pointer has moved sideways through the reports that were sent.
pub open spec fn pointer_offset<S>(start: Served<S>, inputs: Seq<HandlerInput<S>>) -> int
    decreases inputs.len(),
{
    if inputs.len() == 0 {
        0
    } else {
        pointer_offset(start, inputs.drop_last()) + match last_action(start, inputs) {
            HandlerAction::Report(report) => if report.deliver {
                report.fields[3] as int
            } else {
                0
            },
            _ => 0,
        }
    }
}

/// How many reports were sent.
pub open spec fn reports_sent<S>(start: Served<S>, inputs: Seq<HandlerInput<S>>) -> nat
    decreases inputs.len(),
{
    if inputs.len() == 0 {
        0
    } else {
        reports_sent(start, inputs.drop_last()) + match last_action(start, inputs) {
            HandlerAction::Report(report) => if report.deliver {
                1nat
            } else {
                0nat
            },
            _ => 0nat,
        }
    }
}

/// A request for a protocol that exists is granted: it is answered with success, and
/// that protocol is in force from then on. A request for any other is answered with
/// an error, and nothing changes.
pub proof fn law_protocol_requests_are_answered<S>(
    state: HandlerState,
    interrupt: Option<S>,
    parameter: ProtocolParameter,
)
    ensures
        ({
            let input: HandlerInput<S> = HandlerInput::Control(
                ControlRead::Message(ControlMessage::SetProtocol(parameter)),
            );
            let after = next_state(state, input);
            let action = next_action(state, interrupt, input);
            &&& next_interrupt(interrupt, input) == interrupt
            &&& match protocol_of(parameter) {
                Some(protocol) => {
                    &&& action == HandlerAction::Reply(HandshakeReply::Successful)
                    &&& after == HandlerState { protocol, ..state }
                },
                None => {
                    &&& action == HandlerAction::Reply(HandshakeReply::ErrInvalidParameter)
                    &&& after == state
                },
            }
        }),
{
}

/// Nothing but a request to set the protocol is answered, and nothing else changes
/// the protocol.
pub proof fn law_nothing_else_is_answered<S>(
    state: HandlerState,
    interrupt: Option<S>,
    input: HandlerInput<S>,
)
    requires
        protocol_request(input) is None,
    ensures
        !(next_action(state, interrupt, input) is Reply),
        next_state(state, input).protocol == state.protocol,
{
}

/// A connection ends exactly where one of its channels fails or its event channel is
/// closed, and the input that ends it changes nothing.
pub proof fn law_ends_exactly_on_failure<S>(
    state: HandlerState,
    interrupt: Option<S>,
    input: HandlerInput<S>,
)
    ensures
        next_action(state, interrupt, input) is Stop <==> stop_reason(input) is Some,
        next_action(state, interrupt, input) is Stop ==> next_state(state, input) == state
            && next_interrupt(interrupt, input) == interrupt,
{
}

/// The frame counts the ticks, modulo 256.
pub proof fn law_frame_counts_ticks<S>(inputs: Seq<HandlerInput<S>>)
    ensures
        run(fresh(), inputs).state.frame == ticks(inputs) % 256,
    decreases inputs.len(),
{
    if inputs.len() > 0 {
        law_frame_counts_ticks(inputs.drop_last());
    }
}

/// The protocol in force is the one that the last granted request asked for; before
/// any, the report protocol.
pub proof fn law_protocol_is_last_granted<S>(inputs: Seq<HandlerInput<S>>)
    ensures
        run(fresh(), inputs).state.protocol == last_granted(inputs),
    decreases inputs.len(),
{
    if inputs.len() > 0 {
        law_protocol_is_last_granted(inputs.drop_last());
    }
}

/// There is an interrupt channel exactly where an input has brought one; once there,
/// it stays or makes room for a newer one.
pub proof fn law_interrupt_once_established<S>(inputs: Seq<HandlerInput<S>>)
    ensures
        run(fresh(), inputs).interrupt is Some <==> interrupt_among(inputs),
        inputs.len() > 0 && established_interrupt(inputs.last()) is Some ==> run(
            fresh(),
            inputs,
        ).interrupt == established_interrupt(inputs.last()),
    decreases inputs.len(),
{
    if inputs.len() > 0 {
        let before = inputs.drop_last();
        law_interrupt_once_established(before);
        if interrupt_among(before) {
            let i = choose|i: int|
                0 <= i < before.len() && established_interrupt(#[trigger] before[i]) is Some;
            assert(inputs[i] == before[i]);
        }
        if interrupt_among(inputs) && established_interrupt(inputs.last()) is None {
            let i = choose|i: int|
                0 <= i < inputs.len() && established_interrupt(#[trigger] inputs[i]) is Some;
            assert(before[i] == inputs[i]);
        }
        if established_interrupt(inputs.last()) is Some {
            assert(established_interrupt(inputs[inputs.len() - 1]) is Some);
        }
    }
}

/// Between two inputs no button is held and no movement is left to report.
pub proof fn law_nothing_is_left_over<S>(inputs: Seq<HandlerInput<S>>)
    ensures
        run(fresh(), inputs).state.buttons == [0i32, 0i32, 0i32],
        run(fresh(), inputs).state.movement == [0i32, 0i32],
    decreases inputs.len(),
{
    if inputs.len() > 0 {
        law_nothing_is_left_over(inputs.drop_last());
    }
}

/// At every tick there is a report. Its fields fit the mouse's report descriptor: no
/// button, the twitch of that tick, and no vertical movement. It has the format of
/// the protocol in force, and is sent exactly where an interrupt channel has been
/// established.
pub proof fn law_every_tick_reports<S>(inputs: Seq<HandlerInput<S>>)
    requires
        inputs.len() > 0,
        inputs.last() is Timer,
    ensures
        ({
            let before = inputs.drop_last();
            let report = last_action(fresh(), inputs)->Report_0;
            &&& last_action(fresh(), inputs) is Report
            &&& report.fields@ == seq![
                0i32,
                0i32,
                0i32,
                if ticks(inputs) % 2 == 0 {
                    TWITCH
                } else {
                    (-TWITCH) as i32
                },
                0i32,
            ]
            &&& fills(mouse_items(), report.fields@)
            &&& report.protocol == last_granted(before)
            &&& report.deliver == interrupt_among(before)
        }),
{
    let before = inputs.drop_last();
    let state = run(fresh::<S>(), before).state;
    law_frame_counts_ticks(before);
    law_protocol_is_last_granted(before);
    law_interrupt_once_established(before);
    law_nothing_is_left_over(before);
    law_mouse_report_fields();
    let fields = last_action(fresh(), inputs)->Report_0.fields;
    assert(next_frame(state.frame) == ticks(inputs) % 256);
    assert(fields@ =~= seq![0i32, 0i32, 0i32, twitch(next_frame(state.frame)), 0i32]);
}

/// The pointer never strays: after any number of reports it is within one twitch of
/// where it was, and after an even number it is back where it was.
pub proof fn law_pointer_returns<S>(inputs: Seq<HandlerInput<S>>)
    ensures
        -TWITCH <= pointer_offset(fresh(), inputs) <= TWITCH,
        reports_sent(fresh(), inputs) % 2 == 0 ==> pointer_offset(fresh(), inputs) == 0,
{
    lemma_pointer_offset(inputs);
}

/// While no report was sent the pointer has not moved; after an odd number of reports
/// it is off by the newest twitch.
proof fn lemma_pointer_offset<S>(inputs: Seq<HandlerInput<S>>)
    ensures
        ({
            let served = run(fresh(), inputs);
            let sent = reports_sent(fresh(), inputs);
            let offset = pointer_offset(fresh(), inputs);
            &&& served.interrupt is None ==> sent == 0
            &&& sent % 2 == 0 ==> offset == 0
            &&& sent % 2 == 1 ==> offset == twitch(served.state.frame)
        }),
    decreases inputs.len(),
{
    if inputs.len() > 0 {
        let before = inputs.drop_last();
        lemma_pointer_offset(before);
        let served = run(fresh::<S>(), before);
        assert(twitch(next_frame(served.state.frame)) == -twitch(served.state.frame));
        assert(inputs.last() is Timer ==> last_action(fresh(), inputs)->Report_0.fields[3]
            == twitch(next_frame(served.state.frame)));
    }
}

/// Only a tick asks for a report, only a request to set the protocol for an answer, and
/// only a failed or closed channel for an end, each with its own reason. Whatever else
/// comes, nothing is asked for; so it is in every state, with an interrupt channel and
/// without.
pub proof fn law_inputs_are_told_apart<S>(
    state: HandlerState,
    interrupt: Option<S>,
    input: HandlerInput<S>,
)
    ensures
        next_action(state, interrupt, input) is Report <==> input is Timer,
        next_action(state, interrupt, input) is Reply <==> (input matches HandlerInput::Control(
            ControlRead::Message(ControlMessage::SetProtocol(_)),
        )),
        match input {
            HandlerInput::Timer => next_action(state, interrupt, input) is Report,
            HandlerInput::Control(ControlRead::Failed) => next_action(state, interrupt, input)
                == HandlerAction::Stop(StopReason::ControlFailed),
            HandlerInput::Control(ControlRead::Malformed) => next_action(state, interrupt, input)
                == HandlerAction::Continue,
            HandlerInput::Control(ControlRead::Message(message)) => match message {
                ControlMessage::SetProtocol(ProtocolParameter::Other) => next_action(
                    state,
                    interrupt,
                    input,
                ) == HandlerAction::Reply(HandshakeReply::ErrInvalidParameter),
                ControlMessage::SetProtocol(_) => next_action(state, interrupt, input)
                    == HandlerAction::Reply(HandshakeReply::Successful),
                _ => next_action(state, interrupt, input) == HandlerAction::Continue,
            },
            HandlerInput::Interrupt(true) => next_action(state, interrupt, input)
                == HandlerAction::Continue,
            HandlerInput::Interrupt(false) => next_action(state, interrupt, input)
                == HandlerAction::Stop(StopReason::InterruptFailed),
            HandlerInput::Event(Some(_)) => next_action(state, interrupt, input)
                == HandlerAction::Continue,
            HandlerInput::Event(None) => next_action(state, interrupt, input)
                == HandlerAction::Stop(StopReason::EventsClosed),
        },
{
}

/// In every state, the report at a tick holds the buttons as they are, a step of ten to
/// the left if the tick's number is odd and to the right if it is even, and the vertical
/// movement; it has the format of the protocol in force, and is sent exactly where there
/// is an interrupt channel.
pub proof fn law_reports_say_the_state<S>(state: HandlerState, interrupt: Option<S>)
    ensures
        ({
            let action = next_action(state, interrupt, HandlerInput::Timer);
            let report = action->Report_0;
            &&& action is Report
            &&& report.protocol == state.protocol
            &&& report.deliver == (interrupt is Some)
            &&& forall|i: int| 0 <= i < 3 ==> #[trigger] report.fields@[i] == state.buttons@[i]
            &&& report.fields@[3] == 10 - 20 * ((state.frame + 1) % 2)
            &&& report.fields@[4] == state.movement@[1]
        }),
{
}

/// In every state, a tick raises the frame by one, modulo 256, and uses up the movement;
/// the protocol and the buttons stay. Every other input leaves the frame, the buttons and
/// the movement as they are.
pub proof fn law_only_ticks_advance<S>(state: HandlerState, input: HandlerInput<S>)
    ensures
        next_state(state, input).buttons == state.buttons,
        input is Timer ==> {
            &&& next_state(state, input).frame == (state.frame + 1) % 256
            &&& next_state(state, input).protocol == state.protocol
            &&& next_state(state, input).movement@[0] == 0
            &&& next_state(state, input).movement@[1] == 0
        },
        !(input is Timer) ==> {
            &&& next_state(state, input).frame == state.frame
            &&& next_state(state, input).movement == state.movement
        },
{
}

/// In every state, a request for the boot protocol brings it into force, a request for
/// the report protocol brings that into force, and nothing else changes the protocol.
pub proof fn law_protocol_follows_requests<S>(state: HandlerState, input: HandlerInput<S>)
    ensures
        next_state(state, input).protocol == (match input {
            HandlerInput::Control(
                ControlRead::Message(ControlMessage::SetProtocol(ProtocolParameter::Boot)),
            ) => ReportProtocol::Boot,
            HandlerInput::Control(
                ControlRead::Message(ControlMessage::SetProtocol(ProtocolParameter::Report)),
            ) => ReportProtocol::Report,
            _ => state.protocol,
        }),
{
}

/// Whatever interrupt channel there was, the one that the server announces takes its
/// place, and no other input touches it.
pub proof fn law_interrupt_follows_events<S>(interrupt: Option<S>, input: HandlerInput<S>)
    ensures
        match input {
            HandlerInput::Event(Some(Event::InterruptEstablished(stream))) => next_interrupt(
                interrupt,
                input,
            ) == Some(stream),
            _ => next_interrupt(interrupt, input) == interrupt,
        },
{
}

/// From every state, two ticks in a row move the pointer there and back, whatever came
/// between them.
pub proof fn law_next_tick_undoes_the_last<S>(
    state: HandlerState,
    interrupt: Option<S>,
    later_interrupt: Option<S>,
    between: HandlerInput<S>,
)
    requires
        !(between is Timer),
    ensures
        ({
            let ticked = next_state(state, HandlerInput::<S>::Timer);
            let waited = next_state(ticked, between);
            let first = next_action(state, interrupt, HandlerInput::Timer);
            let second = next_action(waited, later_interrupt, HandlerInput::Timer);
            &&& first->Report_0.fields@[3] + second->Report_0.fields@[3] == 0
            &&& first->Report_0.fields@[3] != 0
        }),
{
}

/// A connection starts with the report protocol, before the first tick, with no button
/// held, no movement and no interrupt channel.
pub proof fn law_starts_at_rest<S>()
    ensures
        fresh::<S>().interrupt is None,
        fresh::<S>().state == initial_state(),
        fresh::<S>().state.frame == 0,
        fresh::<S>().state.protocol == ReportProtocol::Report,
        forall|i: int| 0 <= i < 3 ==> #[trigger] fresh::<S>().state.buttons@[i] == 0,
        forall|i: int| 0 <= i < 2 ==> #[trigger] fresh::<S>().state.movement@[i] == 0,
{
}

} // verus!
