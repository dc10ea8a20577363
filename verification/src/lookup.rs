//! The thread catalogue that the title lookup reads, and the decisions of
//! the JSON-lines exchange with a short-lived `codex app-server`.

use vstd::prelude::*;
use vstd::string::*;

verus! {

/// The projection of an App Server thread that title selection needs.
#[derive(Debug, Clone)]
pub struct ThreadSummary {
    pub id: String,
    pub name: Option<String>,
    pub preview: Option<String>,
}

/// The title of `t` as the lookup reads it: its name, else its preview,
/// else `fallback`.
pub open spec fn thread_label(t: ThreadSummary, fallback: Seq<char>) -> Seq<char> {
    match t.name {
        Some(n) => n@,
        None => match t.preview {
            Some(p) => p@,
            None => fallback,
        },
    }
}

/// A thread's name is its title whenever it has one; the preview stands in
/// only for a thread without a name, and the fallback only when it has
/// neither.
pub proof fn lemma_label_prefers_name(t: ThreadSummary, fallback: Seq<char>)
    ensures
        t.name matches Some(n) ==> thread_label(t, fallback) == n@,
        t.name is None ==> (t.preview matches Some(p) ==> thread_label(t, fallback) == p@),
        t.name is None && t.preview is None ==> thread_label(t, fallback) == fallback,
{
}

/// The title of `t`: its name, else its preview, else `fallback`.
pub fn label_of<'a>(t: &'a ThreadSummary, fallback: &'a str) -> (r: &'a str)
    ensures
        r@ == thread_label(*t, fallback@),
{
    match &t.name {
        Some(n) => n.as_str(),
        None => match &t.preview {
            Some(p) => p.as_str(),
            None => fallback,
        },
    }
}

/// The `codex` binary to start, as raw bytes: `CODEX_APP_BIN`, else
/// `CODEX_CLI_PATH`, else `codex`.
pub fn app_server_binary(codex_app_bin: Option<&[u8]>, codex_cli_path: Option<&[u8]>) -> (r: Vec<u8>)
    ensures
        r@ == match (codex_app_bin, codex_cli_path) {
            (Some(b), _) => b@,
            (None, Some(p)) => p@,
            (None, None) => crate::transport::utf8("codex"),
        },
{
    match codex_app_bin {
        Some(b) => vstd::slice::slice_to_vec(b),
        None => match codex_cli_path {
            Some(p) => vstd::slice::slice_to_vec(p),
            None => vstd::slice::slice_to_vec("codex".as_bytes()),
        },
    }
}

/// A JSON-lines message of the App Server. `P` is the result payload.
#[derive(Debug)]
pub struct RpcEnvelope<P> {
    pub id: Option<u64>,
    pub method: Option<String>,
    pub result: Option<P>,
    pub error: Option<String>,
}

/// What an App Server message means to the pending request.
#[derive(Debug)]
pub enum EnvelopeStep<P> {
    /// A request from the server: answered that this client has no such
    /// method.
    Refuse { id: u64, method: String },
    /// A notification or another response: dropped.
    Ignore,
    /// The error response to the request, with its message.
    Failed(String),
    /// The response to the request, with its result.
    Done(Option<P>),
}

/// What `envelope` means to the pending request `id`.
pub fn envelope_step<P>(envelope: RpcEnvelope<P>, id: u64) -> (r: EnvelopeStep<P>)
    ensures
        match envelope.method {
            Some(m) => match envelope.id {
                Some(i) => r matches EnvelopeStep::Refuse { id: j, method: n } && j == i && n == m,
                None => r matches EnvelopeStep::Ignore,
            },
            None => if envelope.id != Some(id) {
                r matches EnvelopeStep::Ignore
            } else {
                match envelope.error {
                    Some(e) => r matches EnvelopeStep::Failed(t) && t == e,
                    None => r == EnvelopeStep::Done(envelope.result),
                }
            },
        },
{
    if let Some(method) = envelope.method {
        return match envelope.id {
            Some(i) => EnvelopeStep::Refuse { id: i, method },
            None => EnvelopeStep::Ignore,
        };
    }
    if envelope.id != Some(id) {
        return EnvelopeStep::Ignore;
    }
    match envelope.error {
        Some(e) => EnvelopeStep::Failed(e),
        None => EnvelopeStep::Done(envelope.result),
    }
}

/// The error message that refuses a server request for `method`.
pub fn refusal_message(method: &str) -> (r: String)
    ensures
        r@ == "codex-app title lookup cannot answer "@ + method@ + "."@,
{
    let mut m = String::from_str("codex-app title lookup cannot answer ");
    m.append(method);
    m.append(".");
    m
}

/// The ids of App Server requests, counting up from 1.
pub struct RequestIds {
    next: u64,
}

impl View for RequestIds {
    type V = u64;

    closed spec fn view(&self) -> u64 {
        self.next
    }
}

impl RequestIds {
    /// Ids starting at 1.
    pub fn new() -> (r: Self)
        ensures
            r@ == 1,
    {
        RequestIds { next: 1 }
    }

    /// The id that `take` gives next.
    pub fn peek(&self) -> (r: u64)
        ensures
            r == self@,
    {
        self.next
    }

    /// The next id.
    pub fn take(&mut self) -> (r: u64)
        requires
            old(self)@ < u64::MAX,
        ensures
            r == old(self)@,
            final(self)@ == old(self)@ + 1,
    {
        let id = self.next;
        self.next = self.next + 1;
        id
    }
}

} // verus!
