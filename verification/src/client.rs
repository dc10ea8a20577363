//! The Desktop IPC client's decisions: which responses answer a request,
//! which broadcasts are addressed to this client, and where the started
//! turn id sits in a follower response.

use vstd::prelude::*;
use vstd::string::*;
use crate::text::same_text;
use crate::transport::Message;
use crate::state::opt_view;

verus! {

/// The client id used until `initialize` has answered.
pub const INITIAL_CLIENT_ID: &'static str = "initializing-client";

/// Request versions of the follower methods.
pub const START_VERSION: u8 = 2;
pub const STEER_VERSION: u8 = 1;
pub const INTERRUPT_VERSION: u8 = 4;

/// The turn reference of a follower response.
#[derive(Debug)]
pub struct TurnId {
    pub id: String,
}

/// A follower response: the turn id directly, inside `turn`, or inside a
/// wrapping `result`.
#[derive(Debug)]
pub struct TurnStarted {
    pub result: Option<Box<TurnStarted>>,
    pub turn_id: Option<String>,
    pub turn: Option<TurnId>,
}

/// The turn id of a follower response: `turnId`, else `turn.id`, else the
/// turn id of the wrapped `result`.
pub open spec fn started_turn_id(t: TurnStarted) -> Option<Seq<char>>
    decreases t,
{
    match t.turn_id {
        Some(s) => Some(s@),
        None => match t.turn {
            Some(x) => Some(x.id@),
            None => match t.result {
                Some(inner) => started_turn_id(*inner),
                None => None,
            },
        },
    }
}

impl TurnStarted {
    /// The turn id that the response reports.
    pub fn turn_id(self) -> (r: Option<String>)
        ensures
            opt_view(r) == started_turn_id(self),
        decreases self,
    {
        match self.turn_id {
            Some(s) => Some(s),
            None => match self.turn {
                Some(x) => Some(x.id),
                None => match self.result {
                    Some(inner) => (*inner).turn_id(),
                    None => None,
                },
            },
        }
    }
}

/// Whether a request for `method` may be sent by client `client_id`: only
/// `initialize` may go before the client has its id.
pub fn request_allowed(client_id: &str, method: &str) -> (r: bool)
    ensures
        r == !(client_id@ == "initializing-client"@ && method@ != "initialize"@),
{
    !(same_text(client_id, INITIAL_CLIENT_ID) && !same_text(method, "initialize"))
}

/// Whether `targets` names `client_id`.
pub open spec fn names(targets: Seq<String>, client_id: Seq<char>) -> bool {
    exists|i: int| 0 <= i < targets.len() && #[trigger] targets[i]@ == client_id
}

/// Whether a broadcast is addressed to `client_id`: it has no target list,
/// or the list names the client.
pub open spec fn addressed_to<P>(m: Message<P>, client_id: Seq<char>) -> bool {
    match m.target_client_ids {
        None => true,
        Some(ts) => names(ts@, client_id),
    }
}

/// Whether the broadcast `m` is addressed to `client_id`.
pub fn is_target<P>(m: &Message<P>, client_id: &str) -> (r: bool)
    ensures
        r == addressed_to(*m, client_id@),
{
    match &m.target_client_ids {
        None => true,
        Some(ts) => {
            let mut i: usize = 0;
            while i < ts.len()
                invariant
                    0 <= i <= ts.len(),
                    forall|j: int| 0 <= j < i ==> ts@[j]@ != client_id@,
                    addressed_to(*m, client_id@) == names(ts@, client_id@),
                decreases ts.len() - i,
            {
                if same_text(ts[i].as_str(), client_id) {
                    assert(ts@[i as int]@ == client_id@);
                    assert(names(ts@, client_id@));
                    return true;
                }
                i = i + 1;
            }
            false
        },
    }
}

/// Whether `m` is a broadcast addressed to `client_id`.
pub fn is_broadcast_for<P>(m: &Message<P>, client_id: &str) -> (r: bool)
    ensures
        r == (m.kind@ == "broadcast"@ && addressed_to(*m, client_id@)),
{
    same_text(m.kind.as_str(), "broadcast") && is_target(m, client_id)
}

/// What an arriving message means to a pending request.
#[derive(Debug)]
pub enum ResponseStep<P> {
    /// A broadcast: kept for later.
    Queue(Message<P>),
    /// Another message: dropped.
    Skip,
    /// The error response to the request, with its message.
    Failed(String),
    /// The response to the request, with its result.
    Done(Option<P>),
}

/// The message of a failed request.
pub open spec fn failure_text(method: Seq<char>, error: Option<Seq<char>>) -> Seq<char> {
    "Codex Desktop IPC "@ + method + " failed: "@ + match error {
        Some(e) => e,
        None => "unknown error"@,
    }
}

/// What `message` means to the pending request `request_id` of `method`.
pub fn response_step<P>(message: Message<P>, request_id: &str, method: &str) -> (r: ResponseStep<P>)
    ensures
        message.kind@ == "broadcast"@ ==> r == ResponseStep::Queue(message),
        message.kind@ != "broadcast"@ && (message.kind@ != "response"@ || opt_view(
            message.request_id,
        ) != Some(request_id@)) ==> r matches ResponseStep::Skip,
        message.kind@ == "response"@ && opt_view(message.request_id) == Some(request_id@) ==> if opt_view(
            message.result_type,
        ) == Some("error"@) {
            r matches ResponseStep::Failed(t) && t@ == failure_text(method@, opt_view(message.error))
        } else {
            r == ResponseStep::Done(message.result)
        },
{
    proof {
        reveal_strlit("broadcast");
        reveal_strlit("response");
        assert("broadcast"@[0] != "response"@[0]);
    }
    if same_text(message.kind.as_str(), "broadcast") {
        return ResponseStep::Queue(message);
    }
    let answers = same_text(message.kind.as_str(), "response") && match &message.request_id {
        Some(id) => same_text(id.as_str(), request_id),
        None => false,
    };
    if !answers {
        return ResponseStep::Skip;
    }
    let failed = match &message.result_type {
        Some(t) => same_text(t.as_str(), "error"),
        None => false,
    };
    if failed {
        let mut text = String::from_str("Codex Desktop IPC ");
        text.append(method);
        text.append(" failed: ");
        match &message.error {
            Some(e) => text.append(e.as_str()),
            None => text.append("unknown error"),
        }
        return ResponseStep::Failed(text);
    }
    ResponseStep::Done(message.result)
}

/// Broadcasts that arrived while a request was pending, oldest first.
pub struct BroadcastQueue<P> {
    pending: Vec<Message<P>>,
}

impl<P> View for BroadcastQueue<P> {
    type V = Seq<Message<P>>;

    closed spec fn view(&self) -> Seq<Message<P>> {
        self.pending@
    }
}

/// What taking the next broadcast for `client_id` from `q` gives: the first
/// one addressed to it, and what is left after it; the broadcasts before it
/// are dropped.
pub open spec fn next_addressed<P>(q: Seq<Message<P>>, client_id: Seq<char>) -> (Option<Message<P>>, Seq<Message<P>>)
    decreases q.len(),
{
    if q.len() == 0 {
        (None, q)
    } else if addressed_to(q[0], client_id) {
        (Some(q[0]), q.drop_first())
    } else {
        next_addressed(q.drop_first(), client_id)
    }
}

impl<P> BroadcastQueue<P> {
    /// An empty queue.
    pub fn new() -> (r: Self)
        ensures
            r@ == Seq::<Message<P>>::empty(),
    {
        BroadcastQueue { pending: Vec::new() }
    }

    /// Keeps `m` after the others.
    pub fn push(&mut self, m: Message<P>)
        ensures
            final(self)@ == old(self)@.push(m),
    {
        self.pending.push(m);
    }

    /// The oldest kept broadcast addressed to `client_id`; the ones before
    /// it are dropped.
    pub fn next_for(&mut self, client_id: &str) -> (r: Option<Message<P>>)
        ensures
            (r, final(self)@) == next_addressed(old(self)@, client_id@),
    {
        while self.pending.len() > 0
            invariant
                next_addressed(self.pending@, client_id@) == next_addressed(old(self)@, client_id@),
            decreases self.pending@.len(),
        {
            let ghost before = self.pending@;
            let m = self.pending.remove(0);
            assert(self.pending@ =~= before.drop_first());
            if is_target(&m, client_id) {
                return Some(m);
            }
        }
        None
    }
}

} // verus!
