//! The `thread-stream-state-changed` broadcast: which broadcasts concern a
//! followed thread, and the protocol version gate.

use vstd::prelude::*;
use vstd::string::*;
use crate::mirror::StateChange;
use crate::text::{decimal, decimal_string, same_text};
use crate::transport::Message;

verus! {

/// The host id of local Desktop threads.
pub const HOST_ID: &'static str = "local";

/// The state stream protocol version this client understands.
pub const STATE_VERSION: u64 = 11;

/// The parameters of a state broadcast.
#[derive(Debug)]
pub struct StateChanged {
    pub conversation_id: String,
    pub host_id: String,
    pub change: StateChange,
}

/// Why a state broadcast is refused.
#[derive(Debug)]
pub enum StateError {
    /// The broadcast carries no parameters.
    NoParams,
    /// The parameters do not have the state broadcast shape; the decoder's
    /// message.
    Malformed(String),
    /// The broadcast has another protocol version.
    UnsupportedVersion(Option<u64>),
    /// The broadcast does not name its owner.
    NoOwner,
}

/// The text of an error.
pub open spec fn state_error_text(e: StateError) -> Seq<char> {
    match e {
        StateError::NoParams => "Desktop state broadcast has no params."@,
        StateError::Malformed(m) => m@,
        StateError::UnsupportedVersion(v) => "Unsupported Codex Desktop thread state protocol version "@
            + match v {
            Some(n) => decimal(n as nat),
            None => "null"@,
        } + "; expected 11."@,
        StateError::NoOwner => "Desktop state broadcast has no owner."@,
    }
}

impl StateError {
    /// The message reported for this error.
    pub fn message(&self) -> (r: String)
        ensures
            r@ == state_error_text(*self),
    {
        match self {
            StateError::NoParams => String::from_str("Desktop state broadcast has no params."),
            StateError::Malformed(m) => m.clone(),
            StateError::UnsupportedVersion(v) => {
                let mut m = String::from_str(
                    "Unsupported Codex Desktop thread state protocol version ",
                );
                match v {
                    Some(n) => {
                        let d = decimal_string(*n);
                        m.append(d.as_str());
                    },
                    None => m.append("null"),
                }
                m.append("; expected 11.");
                m
            },
            StateError::NoOwner => String::from_str("Desktop state broadcast has no owner."),
        }
    }
}

/// The text of an optional string.
pub open spec fn opt_view(o: Option<String>) -> Option<Seq<char>> {
    match o {
        Some(s) => Some(s@),
        None => None,
    }
}

/// What a broadcast means to the follower of thread `thread_id`: nothing,
/// the owner and change of a state broadcast of that thread, or an error.
pub open spec fn broadcast_event(
    message: Message<Result<StateChanged, String>>,
    thread_id: Seq<char>,
) -> Result<Option<(String, StateChange)>, StateError> {
    if opt_view(message.method) != Some("thread-stream-state-changed"@) {
        Ok(None)
    } else {
        match message.params {
            None => Err(StateError::NoParams),
            Some(Err(m)) => Err(StateError::Malformed(m)),
            Some(Ok(e)) => if e.conversation_id@ != thread_id || e.host_id@ != "local"@ {
                Ok(None)
            } else if message.version != Some(11u64) {
                Err(StateError::UnsupportedVersion(message.version))
            } else {
                match message.source_client_id {
                    None => Err(StateError::NoOwner),
                    Some(s) => Ok(Some((s, e.change))),
                }
            },
        }
    }
}

/// A state broadcast of the followed thread in another protocol version
/// is never accepted.
pub proof fn lemma_version_gate(message: Message<Result<StateChanged, String>>, thread_id: Seq<char>)
    requires
        message.version != Some(11u64),
    ensures
        !(broadcast_event(message, thread_id) matches Ok(Some(_))),
{
}

impl StateChanged {
    /// The owner and change of a state broadcast for thread `thread_id`.
    /// Other broadcasts give nothing. A state broadcast without parameters,
    /// with parameters of another shape (`params` holds the decoder's
    /// verdict), of another protocol version or without an owner is an
    /// error.
    pub fn from_broadcast(message: Message<Result<StateChanged, String>>, thread_id: &str) -> (r:
        Result<Option<(String, StateChange)>, StateError>)
        ensures
            r == broadcast_event(message, thread_id@),
    {
        let is_state = match &message.method {
            Some(m) => same_text(m.as_str(), "thread-stream-state-changed"),
            None => false,
        };
        if !is_state {
            return Ok(None);
        }
        let event = match message.params {
            None => return Err(StateError::NoParams),
            Some(Err(m)) => return Err(StateError::Malformed(m)),
            Some(Ok(e)) => e,
        };
        if !same_text(event.conversation_id.as_str(), thread_id) || !same_text(
            event.host_id.as_str(),
            "local",
        ) {
            return Ok(None);
        }
        if message.version != Some(STATE_VERSION) {
            return Err(StateError::UnsupportedVersion(message.version));
        }
        match message.source_client_id {
            None => Err(StateError::NoOwner),
            Some(s) => Ok(Some((s, event.change))),
        }
    }
}

} // verus!
