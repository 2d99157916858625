//! The task that accepts connections.
use vstd::prelude::*;

use crate::error::{ErrorBranch, PoolError};

verus! {

/// What the task waits for.
#[derive(Clone, Copy, PartialEq, Eq, Structural, Debug)]
pub enum AcceptTask {
    /// For the address to listen on.
    Binding,
    /// For a connection.
    Accepting,
    /// For a connection to become a downstream of the pool.
    Admitting,
    /// For an error to be reported.
    Reporting,
    /// For nothing any more.
    Stopped,
}

/// What has happened.
#[derive(Debug)]
pub enum AcceptEvent {
    /// The pool listens on its address, or it cannot.
    Bound(Result<(), PoolError>),
    /// There is a connection.
    Accepted,
    /// There are no more connections.
    Closed,
    /// The connection became a downstream of the pool, or that failed.
    Admitted(Result<(), PoolError>),
    /// The error was reported, and this is how to go on.
    Reported(ErrorBranch),
}

/// What is to be done.
#[derive(Debug)]
pub enum AcceptAction {
    /// Accept a connection.
    Accept,
    /// Make the connection a downstream of the pool.
    Admit,
    /// Report an error.
    Report(PoolError),
    /// End the task.
    Finish(Result<(), PoolError>),
}

impl AcceptTask {
    /// The event is one that the task waits for.
    pub open spec fn expects(self, event: AcceptEvent) -> bool {
        match event {
            AcceptEvent::Bound(_) => self == AcceptTask::Binding,
            AcceptEvent::Accepted => self == AcceptTask::Accepting,
            AcceptEvent::Closed => self == AcceptTask::Accepting,
            AcceptEvent::Admitted(_) => self == AcceptTask::Admitting,
            AcceptEvent::Reported(_) => self == AcceptTask::Reporting,
        }
    }

    /// What the task then waits for, and what is to be done after an event.
    pub open spec fn transition(event: AcceptEvent) -> (AcceptTask, AcceptAction) {
        match event {
            AcceptEvent::Bound(Ok(_)) => (AcceptTask::Accepting, AcceptAction::Accept),
            AcceptEvent::Bound(Err(error)) => (
                AcceptTask::Stopped,
                AcceptAction::Finish(Err(error)),
            ),
            AcceptEvent::Accepted => (AcceptTask::Admitting, AcceptAction::Admit),
            AcceptEvent::Closed => (AcceptTask::Stopped, AcceptAction::Finish(Ok(()))),
            AcceptEvent::Admitted(Ok(_)) => (AcceptTask::Accepting, AcceptAction::Accept),
            AcceptEvent::Admitted(Err(error)) => (
                AcceptTask::Reporting,
                AcceptAction::Report(error),
            ),
            AcceptEvent::Reported(ErrorBranch::Break) => (
                AcceptTask::Stopped,
                AcceptAction::Finish(Ok(())),
            ),
            AcceptEvent::Reported(ErrorBranch::Continue) => (
                AcceptTask::Accepting,
                AcceptAction::Accept,
            ),
        }
    }

    /// What is to be done after an event. Only a failure to listen makes the task fail.
    pub fn step(&mut self, event: AcceptEvent) -> (action: AcceptAction)
        requires
            old(self).expects(event),
        ensures
            (*final(self), action) == AcceptTask::transition(event),
            match event {
                AcceptEvent::Bound(Ok(_)) => {
                    action == AcceptAction::Accept && *final(self) == AcceptTask::Accepting
                },
                AcceptEvent::Bound(Err(error)) => {
                    action == AcceptAction::Finish(Err(error)) && *final(self)
                        == AcceptTask::Stopped
                },
                AcceptEvent::Accepted => {
                    action == AcceptAction::Admit && *final(self) == AcceptTask::Admitting
                },
                AcceptEvent::Closed => {
                    action == AcceptAction::Finish(Ok(())) && *final(self) == AcceptTask::Stopped
                },
                AcceptEvent::Admitted(Ok(_)) => {
                    action == AcceptAction::Accept && *final(self) == AcceptTask::Accepting
                },
                AcceptEvent::Admitted(Err(error)) => {
                    action == AcceptAction::Report(error) && *final(self) == AcceptTask::Reporting
                },
                AcceptEvent::Reported(ErrorBranch::Break) => {
                    action == AcceptAction::Finish(Ok(())) && *final(self) == AcceptTask::Stopped
                },
                AcceptEvent::Reported(ErrorBranch::Continue) => {
                    action == AcceptAction::Accept && *final(self) == AcceptTask::Accepting
                },
            },
    {
        match event {
            AcceptEvent::Bound(Ok(_)) => {
                *self = AcceptTask::Accepting;
                AcceptAction::Accept
            },
            AcceptEvent::Bound(Err(error)) => {
                *self = AcceptTask::Stopped;
                AcceptAction::Finish(Err(error))
            },
            AcceptEvent::Accepted => {
                *self = AcceptTask::Admitting;
                AcceptAction::Admit
            },
            AcceptEvent::Closed => {
                *self = AcceptTask::Stopped;
                AcceptAction::Finish(Ok(()))
            },
            AcceptEvent::Admitted(Ok(_)) => {
                *self = AcceptTask::Accepting;
                AcceptAction::Accept
            },
            AcceptEvent::Admitted(Err(error)) => {
                *self = AcceptTask::Reporting;
                AcceptAction::Report(error)
            },
            AcceptEvent::Reported(ErrorBranch::Break) => {
                *self = AcceptTask::Stopped;
                AcceptAction::Finish(Ok(()))
            },
            AcceptEvent::Reported(ErrorBranch::Continue) => {
                *self = AcceptTask::Accepting;
                AcceptAction::Accept
            },
        }
    }
}

/// What the task takes in each state.
pub proof fn lemma_what_is_waited_for(task: AcceptTask, event: AcceptEvent)
    ensures
        task.expects(event) <==> match task {
            AcceptTask::Binding => event is Bound,
            AcceptTask::Accepting => event is Accepted || event is Closed,
            AcceptTask::Admitting => event is Admitted,
            AcceptTask::Reporting => event is Reported,
            AcceptTask::Stopped => false,
        },
{
}

/// A connection is accepted once the pool listens, after each one that became a downstream, and
/// after an error that was reported and with which the task goes on; each one that is accepted is
/// made a downstream; an error with one is reported, as it is; and the task fails only with the
/// error for which the pool cannot listen, and else ends well, where there are no more connections
/// or the report of an error ends it.
pub proof fn lemma_what_is_done(event: AcceptEvent)
    ensures
        AcceptTask::transition(event).1 is Accept <==> {
            ||| event matches AcceptEvent::Bound(Ok(_))
            ||| event matches AcceptEvent::Admitted(Ok(_))
            ||| event matches AcceptEvent::Reported(ErrorBranch::Continue)
        },
        AcceptTask::transition(event).1 is Admit <==> event is Accepted,
        AcceptTask::transition(event).1 is Report <==> (event matches AcceptEvent::Admitted(
            Err(_),
        )),
        event matches AcceptEvent::Admitted(Err(error)) ==> AcceptTask::transition(event).1
            == AcceptAction::Report(error),
        event matches AcceptEvent::Bound(Err(error)) ==> AcceptTask::transition(event).1
            == AcceptAction::Finish(Err(error)),
        AcceptTask::transition(event).1 matches AcceptAction::Finish(Ok(_)) <==> {
            ||| event is Closed
            ||| event matches AcceptEvent::Reported(ErrorBranch::Break)
        },
        match AcceptTask::transition(event).1 {
            AcceptAction::Accept => AcceptTask::transition(event).0 is Accepting,
            AcceptAction::Admit => AcceptTask::transition(event).0 is Admitting,
            AcceptAction::Report(_) => AcceptTask::transition(event).0 is Reporting,
            AcceptAction::Finish(_) => AcceptTask::transition(event).0 is Stopped,
        },
{
}

} // verus!
