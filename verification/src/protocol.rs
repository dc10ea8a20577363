//! The values that the tools take and return: prompts, turn references,
//! `ask` results and turn completions.

use vstd::prelude::*;
use vstd::string::*;
use vstd::std_specs::convert::FromSpecImpl;

verus! {

/// Parameters of `ask`.
#[derive(Debug, Clone)]
pub struct AskParams {
    pub prompt: String,
}

/// A native Codex turn: its thread and turn ids.
#[derive(Debug, Clone)]
pub struct TurnReference {
    pub thread_id: String,
    pub turn_id: String,
}

/// Parameters of `steer`.
#[derive(Debug, Clone)]
pub struct SteerParams {
    pub thread_id: String,
    pub turn_id: String,
    pub prompt: String,
}

/// The single result shape of a blocking `ask`: a steer acknowledgement or
/// a settled turn, told apart by `status`.
#[derive(Debug, Clone)]
pub struct AskResult {
    pub thread_id: String,
    pub turn_id: String,
    pub status: String,
    pub result: Option<String>,
}

/// The kind of work a turn does; published as `"ask"`.
#[derive(Debug, Clone, Copy, PartialEq, Eq, Structural)]
pub enum TurnKind {
    Ask,
}

/// A settled turn: its reference, kind, final status and final message.
#[derive(Debug, Clone)]
pub struct Completion {
    pub thread_id: String,
    pub turn_id: String,
    pub kind: TurnKind,
    pub status: String,
    pub result: String,
}

/// The message that stands for an empty final result.
pub open spec fn empty_result_text() -> Seq<char> {
    "Codex completed without a final agent message."@
}

impl AskResult {
    /// The result returned at once after a prompt was delivered to a
    /// running turn.
    pub fn steered(reference: TurnReference) -> (r: Self)
        ensures
            r.thread_id == reference.thread_id,
            r.turn_id == reference.turn_id,
            r.status@ == "steered"@,
            r.result is None,
    {
        AskResult {
            thread_id: reference.thread_id,
            turn_id: reference.turn_id,
            status: String::from_str("steered"),
            result: None,
        }
    }
}

impl From<Completion> for AskResult {
    /// The `ask` result of a settled turn.
    fn from(completion: Completion) -> (r: Self) {
        AskResult {
            thread_id: completion.thread_id,
            turn_id: completion.turn_id,
            status: completion.status,
            result: Some(completion.result),
        }
    }
}

impl FromSpecImpl<Completion> for AskResult {
    open spec fn obeys_from_spec() -> bool {
        true
    }

    open spec fn from_spec(completion: Completion) -> AskResult {
        AskResult {
            thread_id: completion.thread_id,
            turn_id: completion.turn_id,
            status: completion.status,
            result: Some(completion.result),
        }
    }
}

/// The `ask` result of a completion reports that very turn: its own thread
/// id, turn id and status, with its final message as the result.
pub proof fn lemma_ask_result_of_completion(c: Completion)
    ensures
        <AskResult as vstd::std_specs::convert::FromSpec<Completion>>::from_spec(c).thread_id
            == c.thread_id,
        <AskResult as vstd::std_specs::convert::FromSpec<Completion>>::from_spec(c).turn_id
            == c.turn_id,
        <AskResult as vstd::std_specs::convert::FromSpec<Completion>>::from_spec(c).status
            == c.status,
        <AskResult as vstd::std_specs::convert::FromSpec<Completion>>::from_spec(c).result
            == Some(c.result),
{
}

impl Completion {
    /// The completion of a settled turn; an empty final message is
    /// replaced by a note saying so.
    pub fn settled(reference: TurnReference, status: &str, result: String) -> (r: Self)
        ensures
            r.thread_id == reference.thread_id,
            r.turn_id == reference.turn_id,
            r.kind == TurnKind::Ask,
            r.status@ == status@,
            r.result@ == if result@.len() == 0 { empty_result_text() } else { result@ },
    {
        let empty = result.as_str().unicode_len() == 0;
        Completion {
            thread_id: reference.thread_id,
            turn_id: reference.turn_id,
            kind: TurnKind::Ask,
            status: String::from_str(status),
            result: if empty {
                String::from_str("Codex completed without a final agent message.")
            } else {
                result
            },
        }
    }

    /// The completion of a failed turn, carrying the error's text.
    pub fn failed(reference: &TurnReference, error: &str) -> (r: Self)
        ensures
            r.thread_id@ == reference.thread_id@,
            r.turn_id@ == reference.turn_id@,
            r.kind == TurnKind::Ask,
            r.status@ == "failed"@,
            r.result@ == error@,
    {
        Completion {
            thread_id: reference.thread_id.clone(),
            turn_id: reference.turn_id.clone(),
            kind: TurnKind::Ask,
            status: String::from_str("failed"),
            result: String::from_str(error),
        }
    }
}

} // verus!
