//! The decisions of the task that owns one turn: which control requests
//! reach Codex, how the current turn follows steers, and how a settled turn
//! becomes a completion.

use vstd::prelude::*;
use vstd::string::*;
use crate::follower::Follower;
use crate::mirror::settlement_of;
use crate::protocol::{Completion, TurnReference, empty_result_text};
use crate::text::{same_text, trimmed, chars_of};
use crate::validate::trimmed_choice;

verus! {

/// A control request for the running turn, without its reply channel.
#[derive(Debug)]
pub enum Control {
    /// Send `prompt` to the running turn; `expected` names the turn the
    /// caller means, or nothing for whichever runs.
    Steer { expected: Option<String>, prompt: String },
    /// Interrupt the turn `expected`.
    Interrupt { expected: String },
}

/// A control request names a turn that no longer runs.
#[derive(Debug)]
pub struct StaleTurn {
    pub expected: String,
}

impl StaleTurn {
    /// The message reported for this error.
    pub fn message(&self) -> (r: String)
        ensures
            r@ == "Codex turn "@ + self.expected@ + " is no longer active."@,
    {
        let mut m = String::from_str("Codex turn ");
        m.append(self.expected.as_str());
        m.append(" is no longer active.");
        m
    }
}

/// What the task does with a control request.
#[derive(Debug)]
pub enum ControlAction {
    /// Answer with the error; the turn is untouched.
    Reject(StaleTurn),
    /// Send the prompt to Codex as a steer.
    Steer(String),
    /// Ask Codex to interrupt the turn.
    Interrupt,
}

/// The status that a completion reports for a terminal turn status:
/// `cancelled` is reported as `interrupted`.
pub open spec fn reported_status(status: Seq<char>) -> Seq<char> {
    if status == "cancelled"@ {
        "interrupted"@
    } else {
        status
    }
}

/// The status that a completion reports.
pub fn completion_status(status: &str) -> (r: String)
    ensures
        r@ == reported_status(status@),
{
    if same_text(status, "cancelled") {
        String::from_str("interrupted")
    } else {
        String::from_str(status)
    }
}

/// The thread that an explicit, non-blank `CODEX_APP_THREAD_ID` names; no
/// title lookup is needed then.
pub fn explicit_thread(explicit: Option<&str>) -> (r: Option<String>)
    ensures
        match (r, trimmed_choice(explicit)) {
            (Some(t), Some(u)) => t@ == u,
            (None, None) => true,
            _ => false,
        },
{
    match explicit {
        Some(e) => {
            let t = trimmed(e);
            if chars_of(t.as_str()).len() > 0 {
                Some(t)
            } else {
                None
            }
        },
        None => None,
    }
}

/// The turn a task runs in its thread.
pub struct TurnState {
    thread_id: String,
    turn_id: String,
}

/// The content of a turn state: thread id and current turn id.
pub struct TurnStateView {
    pub thread_id: Seq<char>,
    pub turn_id: Seq<char>,
}

impl View for TurnState {
    type V = TurnStateView;

    closed spec fn view(&self) -> TurnStateView {
        TurnStateView { thread_id: self.thread_id@, turn_id: self.turn_id@ }
    }
}

impl TurnState {
    /// The state of a task whose turn `turn_id` has started in `thread_id`.
    pub fn new(thread_id: &str, turn_id: &str) -> (r: Self)
        ensures
            r@ == (TurnStateView { thread_id: thread_id@, turn_id: turn_id@ }),
    {
        TurnState { thread_id: String::from_str(thread_id), turn_id: String::from_str(turn_id) }
    }

    /// The current turn id.
    pub fn turn_id(&self) -> (r: &str)
        ensures
            r@ == self@.turn_id,
    {
        self.turn_id.as_str()
    }

    /// The reference of the current turn.
    pub fn reference(&self) -> (r: TurnReference)
        ensures
            r.thread_id@ == self@.thread_id,
            r.turn_id@ == self@.turn_id,
    {
        TurnReference { thread_id: self.thread_id.clone(), turn_id: self.turn_id.clone() }
    }

    /// What to do with `control`: a request that names another turn than
    /// the current one is rejected.
    pub fn on_control(&self, control: Control) -> (r: ControlAction)
        ensures
            match control {
                Control::Steer { expected, prompt } => match expected {
                    Some(e) => if e@ != self@.turn_id {
                        r matches ControlAction::Reject(s) && s.expected == e
                    } else {
                        r == ControlAction::Steer(prompt)
                    },
                    None => r == ControlAction::Steer(prompt),
                },
                Control::Interrupt { expected } => if expected@ != self@.turn_id {
                    r matches ControlAction::Reject(s) && s.expected == expected
                } else {
                    r matches ControlAction::Interrupt
                },
            },
    {
        match control {
            Control::Steer { expected, prompt } => match expected {
                Some(e) => if !same_text(e.as_str(), self.turn_id.as_str()) {
                    ControlAction::Reject(StaleTurn { expected: e })
                } else {
                    ControlAction::Steer(prompt)
                },
                None => ControlAction::Steer(prompt),
            },
            Control::Interrupt { expected } => if !same_text(expected.as_str(), self.turn_id.as_str()) {
                ControlAction::Reject(StaleTurn { expected })
            } else {
                ControlAction::Interrupt
            },
        }
    }

    /// Takes in Codex's answer to a steer: the turn it reports, if any,
    /// becomes current. The reply is the current turn, or the error.
    pub fn after_steer(&mut self, response: Result<Option<String>, String>) -> (r: Result<
        TurnReference,
        String,
    >)
        ensures
            final(self)@.thread_id == old(self)@.thread_id,
            match response {
                Ok(Some(t)) => final(self)@.turn_id == t@,
                _ => final(self)@.turn_id == old(self)@.turn_id,
            },
            match (response, r) {
                (Ok(_), Ok(reference)) => reference.thread_id@ == final(self)@.thread_id
                    && reference.turn_id@ == final(self)@.turn_id,
                (Err(e), Err(m)) => m == e,
                _ => false,
            },
    {
        match response {
            Ok(next) => {
                if let Some(t) = next {
                    self.turn_id = t;
                }
                Ok(self.reference())
            },
            Err(e) => Err(e),
        }
    }

    /// The reply to an interrupt, from Codex's answer; the turn stays
    /// current either way.
    pub fn after_interrupt(&self, result: Result<(), String>) -> (r: Result<TurnReference, String>)
        ensures
            match (result, r) {
                (Ok(_), Ok(reference)) => reference.thread_id@ == self@.thread_id
                    && reference.turn_id@ == self@.turn_id,
                (Err(e), Err(m)) => m == e,
                _ => false,
            },
    {
        match result {
            Ok(()) => Ok(self.reference()),
            Err(e) => Err(e),
        }
    }

    /// The completion of the current turn, once the follower's mirror shows
    /// it settled: its reported status and final message.
    pub fn settle(&self, follower: &Follower) -> (r: Option<Completion>)
        ensures
            match (r, settlement_of(follower@.mirror.state, self@.turn_id)) {
                (None, None) => true,
                (Some(c), Some((status, result))) => {
                    &&& c.thread_id@ == self@.thread_id
                    &&& c.turn_id@ == self@.turn_id
                    &&& c.status@ == reported_status(status)
                    &&& c.result@ == if result.len() == 0 { empty_result_text() } else { result }
                },
                _ => false,
            },
    {
        match follower.settlement(self.turn_id.as_str()) {
            None => None,
            Some(s) => {
                let status = completion_status(s.status.as_str());
                Some(Completion::settled(self.reference(), status.as_str(), s.result))
            },
        }
    }
}

} // verus!
