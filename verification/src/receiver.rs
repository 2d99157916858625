//! The task that receives what one downstream sends.
use vstd::prelude::*;
use vstd::string::StringExecFns;

use crate::downstream::Downstream;
use crate::error::{ErrorBranch, PoolError};
use crate::frame::{
    frame_of, incoming_of, lemma_what_is_taken_out, EitherFrame, Incoming, HEADER_SIZE,
};
use crate::message::EncodedMessageView;
use crate::pool::State;

verus! {

/// What the task waits for.
#[derive(Clone, Copy, PartialEq, Eq, Structural, Debug)]
pub enum ReceiverState {
    /// For the connection.
    Starting,
    /// For a frame.
    Receiving,
    /// For the message of a frame to be handled and answered.
    Handling,
    /// For the downstream to be removed from the pool.
    Removing,
    /// For an error to be reported.
    Reporting,
    /// For nothing any more.
    Stopped,
}

/// What has happened.
#[derive(Debug)]
pub enum ReceiverEvent {
    /// The task has, or has not, got hold of the connection; the text says why not.
    Taken(Result<(), String>),
    /// A frame was received.
    Received(EitherFrame),
    /// The connection is closed.
    Closed,
    /// The message was handled and answered, or that failed.
    Handled(Result<(), PoolError>),
    /// The downstream was removed from the pool, or that failed.
    Removed(Result<(), PoolError>),
    /// The error was reported, and this is how to go on.
    Reported(ErrorBranch),
}

/// What is to be done.
#[derive(Debug)]
pub enum ReceiverAction {
    /// Receive a frame.
    Receive,
    /// Handle a message and send the answer.
    Handle(Incoming),
    /// Remove the downstream with this id from the pool.
    Remove(u32),
    /// Report an error.
    Report(PoolError),
    /// Tell of a state, and stop.
    Notify(State),
    /// Stop.
    Stop,
}

/// The task that receives what one downstream sends.
#[derive(Debug)]
pub struct ReceiverTask {
    pub downstream: Downstream,
    pub state: ReceiverState,
}

/// The event is one that the task waits for.
pub open spec fn expects(state: ReceiverState, event: ReceiverEvent) -> bool {
    match event {
        ReceiverEvent::Taken(_) => state == ReceiverState::Starting,
        ReceiverEvent::Received(_) => state == ReceiverState::Receiving,
        ReceiverEvent::Closed => state == ReceiverState::Receiving,
        ReceiverEvent::Handled(_) => state == ReceiverState::Handling,
        ReceiverEvent::Removed(_) => state == ReceiverState::Removing,
        ReceiverEvent::Reported(_) => state == ReceiverState::Reporting,
    }
}

/// What the task waits for after an event.
pub open spec fn next_state(event: ReceiverEvent) -> ReceiverState {
    match event {
        ReceiverEvent::Taken(Ok(_)) => ReceiverState::Receiving,
        ReceiverEvent::Taken(Err(_)) => ReceiverState::Stopped,
        ReceiverEvent::Received(EitherFrame::HandShake(_)) => ReceiverState::Reporting,
        ReceiverEvent::Received(EitherFrame::Sv2(bytes)) => if bytes@.len() < HEADER_SIZE {
            ReceiverState::Reporting
        } else {
            ReceiverState::Handling
        },
        ReceiverEvent::Closed => ReceiverState::Removing,
        ReceiverEvent::Handled(Ok(_)) => ReceiverState::Receiving,
        ReceiverEvent::Handled(Err(_)) => ReceiverState::Reporting,
        ReceiverEvent::Removed(Ok(_)) => ReceiverState::Stopped,
        ReceiverEvent::Removed(Err(_)) => ReceiverState::Reporting,
        ReceiverEvent::Reported(ErrorBranch::Break) => ReceiverState::Stopped,
        ReceiverEvent::Reported(ErrorBranch::Continue) => ReceiverState::Receiving,
    }
}

/// What is to be done after an event, for the downstream with this id.
pub open spec fn is_answer(id: u32, event: ReceiverEvent, action: ReceiverAction) -> bool {
    match event {
        ReceiverEvent::Taken(Ok(_)) => action == ReceiverAction::Receive,
        ReceiverEvent::Taken(Err(text)) => {
            &&& action matches ReceiverAction::Notify(State::Healthy(told))
            &&& told@ == "Downstream connection dropped: "@ + text@
        },
        ReceiverEvent::Received(EitherFrame::HandShake(_)) => action == ReceiverAction::Report(
            PoolError::ExpectedSv2Frame,
        ),
        ReceiverEvent::Received(EitherFrame::Sv2(bytes)) => match incoming_of(bytes@) {
            Some((message_type, payload)) => {
                &&& action matches ReceiverAction::Handle(message)
                &&& message.message_type == message_type
                &&& message.payload@ == payload
            },
            None => {
                &&& action matches ReceiverAction::Report(PoolError::Custom(text))
                &&& text@ == "No header set"@
            },
        },
        ReceiverEvent::Closed => action == ReceiverAction::Remove(id),
        ReceiverEvent::Handled(Ok(_)) => action == ReceiverAction::Receive,
        ReceiverEvent::Handled(Err(error)) => action == ReceiverAction::Report(error),
        ReceiverEvent::Removed(Ok(_)) => action == ReceiverAction::Stop,
        ReceiverEvent::Removed(Err(error)) => action == ReceiverAction::Report(error),
        ReceiverEvent::Reported(ErrorBranch::Break) => action == ReceiverAction::Stop,
        ReceiverEvent::Reported(ErrorBranch::Continue) => action == ReceiverAction::Receive,
    }
}

impl ReceiverTask {
    /// The task at its beginning, when it waits for the connection.
    pub fn new(downstream: Downstream) -> (task: ReceiverTask)
        ensures
            task.downstream == downstream,
            task.state == ReceiverState::Starting,
    {
        ReceiverTask { downstream, state: ReceiverState::Starting }
    }

    /// What is to be done after an event.
    pub fn step(&mut self, event: ReceiverEvent) -> (action: ReceiverAction)
        requires
            expects(old(self).state, event),
        ensures
            final(self).downstream == old(self).downstream,
            final(self).state == next_state(event),
            is_answer(old(self).downstream.id, event, action),
            match event {
                ReceiverEvent::Taken(Ok(_)) => action == ReceiverAction::Receive,
                ReceiverEvent::Taken(Err(text)) => {
                    &&& action matches ReceiverAction::Notify(State::Healthy(told))
                    &&& told@ == "Downstream connection dropped: "@ + text@
                },
                ReceiverEvent::Received(EitherFrame::HandShake(_)) => action
                    == ReceiverAction::Report(PoolError::ExpectedSv2Frame),
                ReceiverEvent::Received(EitherFrame::Sv2(bytes)) => if bytes@.len() < HEADER_SIZE {
                    &&& action matches ReceiverAction::Report(PoolError::Custom(text))
                    &&& text@ == "No header set"@
                } else {
                    &&& action matches ReceiverAction::Handle(message)
                    &&& message.message_type == bytes@[2]
                    &&& message.payload@ == bytes@.skip(HEADER_SIZE as int)
                },
                ReceiverEvent::Closed => action == ReceiverAction::Remove(old(self).downstream.id),
                ReceiverEvent::Handled(Ok(_)) => action == ReceiverAction::Receive,
                ReceiverEvent::Handled(Err(error)) => action == ReceiverAction::Report(error),
                ReceiverEvent::Removed(Ok(_)) => action == ReceiverAction::Stop,
                ReceiverEvent::Removed(Err(error)) => action == ReceiverAction::Report(error),
                ReceiverEvent::Reported(ErrorBranch::Break) => action == ReceiverAction::Stop,
                ReceiverEvent::Reported(ErrorBranch::Continue) => action
                    == ReceiverAction::Receive,
            },
    {
        match event {
            ReceiverEvent::Taken(Ok(_)) => {
                self.state = ReceiverState::Receiving;
                ReceiverAction::Receive
            },
            ReceiverEvent::Taken(Err(text)) => {
                self.state = ReceiverState::Stopped;
                let mut told: String = "Downstream connection dropped: ".to_string();
                told.append(text.as_str());
                ReceiverAction::Notify(State::Healthy(told))
            },
            ReceiverEvent::Received(frame) => {
                let message = match frame.into_sv2() {
                    Ok(bytes) => self.downstream.next(bytes),
                    Err(error) => Err(error),
                };
                match message {
                    Ok(message) => {
                        self.state = ReceiverState::Handling;
                        ReceiverAction::Handle(message)
                    },
                    Err(error) => {
                        self.state = ReceiverState::Reporting;
                        ReceiverAction::Report(error)
                    },
                }
            },
            ReceiverEvent::Closed => {
                self.state = ReceiverState::Removing;
                ReceiverAction::Remove(self.downstream.id)
            },
            ReceiverEvent::Handled(Ok(_)) => {
                self.state = ReceiverState::Receiving;
                ReceiverAction::Receive
            },
            ReceiverEvent::Handled(Err(error)) => {
                self.state = ReceiverState::Reporting;
                ReceiverAction::Report(error)
            },
            ReceiverEvent::Removed(Ok(_)) => {
                self.state = ReceiverState::Stopped;
                ReceiverAction::Stop
            },
            ReceiverEvent::Removed(Err(error)) => {
                self.state = ReceiverState::Reporting;
                ReceiverAction::Report(error)
            },
            ReceiverEvent::Reported(ErrorBranch::Break) => {
                self.state = ReceiverState::Stopped;
                ReceiverAction::Stop
            },
            ReceiverEvent::Reported(ErrorBranch::Continue) => {
                self.state = ReceiverState::Receiving;
                ReceiverAction::Receive
            },
        }
    }
}

/// What a task waits for after events, from its beginning on.
pub open spec fn state_after(events: Seq<ReceiverEvent>) -> ReceiverState {
    if events.len() == 0 {
        ReceiverState::Starting
    } else {
        next_state(events.last())
    }
}

/// Each event is one that the task waits for when it happens.
pub open spec fn is_run(events: Seq<ReceiverEvent>) -> bool {
    forall|i: int|
        0 <= i < events.len() ==> expects(state_after(events.take(i)), #[trigger] events[i])
}

/// A task that got hold of its connection, and is never told to stop after an error, stops only
/// once the connection is closed and the downstream is removed from the pool.
pub proof fn lemma_removed_before_stop(events: Seq<ReceiverEvent>)
    requires
        is_run(events),
        state_after(events) == ReceiverState::Stopped,
        forall|i: int|
            0 <= i < events.len() ==> !(#[trigger] events[i] matches ReceiverEvent::Taken(Err(_))),
        forall|i: int|
            0 <= i < events.len() ==> #[trigger] events[i] != ReceiverEvent::Reported(
                ErrorBranch::Break,
            ),
    ensures
        events.len() >= 2,
        events[events.len() - 1] matches ReceiverEvent::Removed(Ok(_)),
        events[events.len() - 2] == ReceiverEvent::Closed,
{
    let last = events.len() - 1;
    assert(events[last] == events.last());
    assert(expects(state_after(events.take(last)), events[last]));
    assert(events.take(last).last() == events[last - 1]);
}

/// A task that has stopped takes no more events.
pub proof fn lemma_stop_is_last(events: Seq<ReceiverEvent>, i: int)
    requires
        is_run(events),
        0 <= i <= events.len(),
        state_after(events.take(i)) == ReceiverState::Stopped,
    ensures
        i == events.len(),
{
    if i < events.len() {
        assert(expects(state_after(events.take(i)), events[i]));
    }
}

/// What the task waits for next: a frame, once it has the connection, an answer was given, or an
/// error was reported with which it goes on; the handling of a message frame with a header; the
/// removal of the downstream, once the connection is closed; the report of any error; and nothing
/// more, where it could not have the connection, the downstream is removed, or the report of an
/// error ends it.
pub proof fn lemma_what_comes_next(event: ReceiverEvent)
    ensures
        next_state(event) is Receiving <==> {
            ||| event matches ReceiverEvent::Taken(Ok(_))
            ||| event matches ReceiverEvent::Handled(Ok(_))
            ||| event matches ReceiverEvent::Reported(ErrorBranch::Continue)
        },
        next_state(event) is Handling <==> (event matches ReceiverEvent::Received(
            EitherFrame::Sv2(bytes),
        ) && bytes@.len() >= 6),
        next_state(event) is Removing <==> event is Closed,
        next_state(event) is Reporting <==> {
            ||| event matches ReceiverEvent::Received(EitherFrame::HandShake(_))
            ||| (event matches ReceiverEvent::Received(EitherFrame::Sv2(bytes)) && bytes@.len()
                < 6)
            ||| event matches ReceiverEvent::Handled(Err(_))
            ||| event matches ReceiverEvent::Removed(Err(_))
        },
        next_state(event) is Stopped <==> {
            ||| event matches ReceiverEvent::Taken(Err(_))
            ||| event matches ReceiverEvent::Removed(Ok(_))
            ||| event matches ReceiverEvent::Reported(ErrorBranch::Break)
        },
        !(next_state(event) is Starting),
{
}

/// What the task takes in each state.
pub proof fn lemma_what_is_waited_for(state: ReceiverState, event: ReceiverEvent)
    ensures
        expects(state, event) <==> match state {
            ReceiverState::Starting => event is Taken,
            ReceiverState::Receiving => event is Received || event is Closed,
            ReceiverState::Handling => event is Handled,
            ReceiverState::Removing => event is Removed,
            ReceiverState::Reporting => event is Reported,
            ReceiverState::Stopped => false,
        },
{
}

/// What is done, and when: a frame is received exactly where the task waits for one; the message
/// of a frame is handled as it was put into the frame; the downstream that is removed is the one
/// whose connection is closed; an error is reported as it is; and a lost connection is told of.
pub proof fn lemma_what_is_done(id: u32, event: ReceiverEvent, action: ReceiverAction)
    requires
        is_answer(id, event, action),
    ensures
        action is Receive <==> next_state(event) is Receiving,
        action is Handle <==> next_state(event) is Handling,
        action is Remove <==> next_state(event) is Removing,
        action is Report <==> next_state(event) is Reporting,
        action is Stop || action is Notify <==> next_state(event) is Stopped,
        action matches ReceiverAction::Remove(removed) ==> removed == id,
        event is Closed ==> action is Remove,
        event matches ReceiverEvent::Handled(Err(error)) ==> action == ReceiverAction::Report(
            error,
        ),
        event matches ReceiverEvent::Removed(Err(error)) ==> action == ReceiverAction::Report(
            error,
        ),
        event matches ReceiverEvent::Received(EitherFrame::HandShake(_)) ==> action
            == ReceiverAction::Report(PoolError::ExpectedSv2Frame),
        action is Notify <==> (event matches ReceiverEvent::Taken(Err(_))),
        event matches ReceiverEvent::Taken(Err(text)) ==> (action matches ReceiverAction::Notify(
            State::Healthy(told),
        ) && told@ == "Downstream connection dropped: "@ + text@),
        event matches ReceiverEvent::Received(EitherFrame::Sv2(bytes)) ==> {
            if bytes@.len() < 6 {
                &&& action matches ReceiverAction::Report(PoolError::Custom(text))
                &&& text@ == "No header set"@
            } else {
                &&& action matches ReceiverAction::Handle(message)
                &&& message.message_type == bytes@[2]
                &&& message.payload@.len() == bytes@.len() - 6
                &&& forall|i: int|
                    0 <= i < message.payload@.len() ==> #[trigger] message.payload@[i]
                        == bytes@[6 + i]
            }
        },
{
}

/// A message that is put into a frame and received is handled as that message.
pub proof fn lemma_sent_is_handled(
    id: u32,
    message: EncodedMessageView,
    bytes: Vec<u8>,
    action: ReceiverAction,
)
    requires
        bytes@ == frame_of(message),
        is_answer(id, ReceiverEvent::Received(EitherFrame::Sv2(bytes)), action),
    ensures
        action matches ReceiverAction::Handle(handled) && handled.message_type
            == message.message_type && handled.payload@ == message.payload,
{
    lemma_what_is_taken_out(message, bytes@);
}

} // verus!
