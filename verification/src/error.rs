//! The errors of the pool and what a task does after one.
use vstd::prelude::*;

use crate::message::Mining;

verus! {

/// `roles_logic_sv2::errors::Error`, an error of the Stratum V2 role logic. Nothing is known of
/// what it holds.
#[verifier::external_type_specification]
#[verifier::external_body]
pub struct ExRolesLogicError(roles_logic_sv2::errors::Error);

/// What went wrong while the pool served its downstreams.
#[derive(Debug)]
pub enum PoolError {
    /// A lock was poisoned; the text says which holder failed.
    PoisonLock(String),
    /// A received frame was a handshake frame where a message frame was expected.
    ExpectedSv2Frame,
    /// The role logic failed.
    RolesLogic(roles_logic_sv2::errors::Error),
    /// A message is too large for a frame.
    BadPayloadSize,
    /// A downstream was refused: its id, and the refusal that it was sent.
    Sv2ProtocolError(u32, Mining),
    /// A task of the pool came to its end.
    ComponentShutdown(String),
    /// The channel to a downstream or to another task is closed.
    ChannelSend(String),
    /// The network failed.
    Io(String),
    /// Any other failure.
    Custom(String),
}

/// What the loop of a task does once one of its errors has been reported.
#[derive(Clone, Copy, PartialEq, Eq, Structural, Debug)]
pub enum ErrorBranch {
    /// The loop ends.
    Break,
    /// The loop goes on with its next round.
    Continue,
}

} // verus!
