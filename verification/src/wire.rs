//! The JSON messages this plugin writes: Desktop IPC envelopes and follower
//! requests, the transport's own replies, App Server JSON-lines requests,
//! and published completions.

use vstd::prelude::*;
use vstd::string::*;
use crate::json::{JsonNumber, JsonValue, JsonView, NumberView, members_view, json_views, lemma_members_view, lemma_json_views};
use crate::lookup::refusal_message;
use crate::monitor::event_name;
use crate::protocol::{Completion, TurnKind};

verus! {

/// A JSON string.
pub open spec fn jstr(s: Seq<char>) -> JsonView {
    JsonView::Str(s)
}

/// A JSON unsigned integer.
pub open spec fn jnum(n: u64) -> JsonView {
    JsonView::Number(NumberView::PosInt(n))
}

/// A JSON string or `null`.
pub open spec fn jopt(s: Option<Seq<char>>) -> JsonView {
    match s {
        Some(t) => JsonView::Str(t),
        None => JsonView::Null,
    }
}

/// The empty JSON object.
pub open spec fn jempty() -> JsonView {
    JsonView::Object(Seq::empty())
}

/// The empty JSON array.
pub open spec fn jnone() -> JsonView {
    JsonView::Array(Seq::empty())
}

fn text(s: &str) -> (r: JsonValue)
    ensures
        r@ == jstr(s@),
{
    JsonValue::Str(String::from_str(s))
}

fn number(n: u64) -> (r: JsonValue)
    ensures
        r@ == jnum(n),
{
    JsonValue::Number(JsonNumber::PosInt(n))
}

fn optional_text(s: Option<&str>) -> (r: JsonValue)
    ensures
        r@ == jopt(crate::transport::opt_text(s)),
{
    match s {
        Some(t) => text(t),
        None => JsonValue::Null,
    }
}

fn empty_object() -> (r: JsonValue)
    ensures
        r@ == jempty(),
{
    let members: Vec<(String, JsonValue)> = Vec::new();
    assert(members_view(members@) =~= Seq::<(Seq<char>, JsonView)>::empty());
    JsonValue::Object(members)
}

fn empty_array() -> (r: JsonValue)
    ensures
        r@ == jnone(),
{
    let items: Vec<JsonValue> = Vec::new();
    assert(json_views(items@) =~= Seq::<JsonView>::empty());
    JsonValue::Array(items)
}

fn entry(key: &str, value: JsonValue) -> (r: (String, JsonValue))
    ensures
        r.0@ == key@,
        r.1 == value,
{
    (String::from_str(key), value)
}

/// An object of the given members, in order.
fn object(members: Vec<(String, JsonValue)>) -> (r: JsonValue)
    ensures
        r@ == JsonView::Object(members_view(members@)),
        members_view(members@).len() == members@.len(),
        forall|i: int| 0 <= i < members@.len() ==> #[trigger] members_view(members@)[i] == (members@[i].0@, members@[i].1@),
{
    proof {
        lemma_members_view(members@);
    }
    JsonValue::Object(members)
}

/// An array of the given items, in order.
fn array(items: Vec<JsonValue>) -> (r: JsonValue)
    ensures
        r@ == JsonView::Array(json_views(items@)),
        json_views(items@).len() == items@.len(),
        forall|i: int| 0 <= i < items@.len() ==> #[trigger] json_views(items@)[i] == items@[i]@,
{
    proof {
        lemma_json_views(items@);
    }
    JsonValue::Array(items)
}

/// The Codex input of a text prompt.
pub open spec fn text_input_view(prompt: Seq<char>) -> JsonView {
    JsonView::Array(seq![JsonView::Object(seq![
        ("type"@, jstr("text"@)),
        ("text"@, jstr(prompt)),
        ("text_elements"@, jnone()),
    ])])
}

/// The Codex input of a text prompt:
/// `[{"type":"text","text":prompt,"text_elements":[]}]`.
pub fn text_input(prompt: &str) -> (r: JsonValue)
    ensures
        r@ == text_input_view(prompt@),
{
    let o = object(vec![
        entry("type", text("text")),
        entry("text", text(prompt)),
        entry("text_elements", empty_array()),
    ]);
    let ghost ov = o@;
    assert(ov->Object_0 =~= seq![
        ("type"@, jstr("text"@)),
        ("text"@, jstr(prompt@)),
        ("text_elements"@, jnone()),
    ]);
    let r = array(vec![o]);
    assert(r@->Array_0 =~= seq![ov]);
    r
}

/// A Desktop IPC request envelope, with the 15 s timeout.
pub fn request_envelope(
    request_id: &str,
    client_id: &str,
    version: u8,
    method: &str,
    params: JsonValue,
) -> (r: JsonValue)
    ensures
        r@ == JsonView::Object(seq![
            ("type"@, jstr("request"@)),
            ("requestId"@, jstr(request_id@)),
            ("sourceClientId"@, jstr(client_id@)),
            ("version"@, jnum(version as u64)),
            ("method"@, jstr(method@)),
            ("params"@, params@),
            ("timeoutMs"@, jnum(15000)),
        ]),
{
    let r = object(vec![
        entry("type", text("request")),
        entry("requestId", text(request_id)),
        entry("sourceClientId", text(client_id)),
        entry("version", number(version as u64)),
        entry("method", text(method)),
        entry("params", params),
        entry("timeoutMs", number(15000)),
    ]);
    assert(r@->Object_0 =~= seq![
        ("type"@, jstr("request"@)),
        ("requestId"@, jstr(request_id@)),
        ("sourceClientId"@, jstr(client_id@)),
        ("version"@, jnum(version as u64)),
        ("method"@, jstr(method@)),
        ("params"@, params@),
        ("timeoutMs"@, jnum(15000)),
    ]);
    r
}

/// A Desktop IPC broadcast envelope.
pub fn broadcast_envelope(method: &str, client_id: &str, params: JsonValue) -> (r: JsonValue)
    ensures
        r@ == JsonView::Object(seq![
            ("type"@, jstr("broadcast"@)),
            ("method"@, jstr(method@)),
            ("sourceClientId"@, jstr(client_id@)),
            ("version"@, jnum(1)),
            ("params"@, params@),
        ]),
{
    let r = object(vec![
        entry("type", text("broadcast")),
        entry("method", text(method)),
        entry("sourceClientId", text(client_id)),
        entry("version", number(1)),
        entry("params", params),
    ]);
    assert(r@->Object_0 =~= seq![
        ("type"@, jstr("broadcast"@)),
        ("method"@, jstr(method@)),
        ("sourceClientId"@, jstr(client_id@)),
        ("version"@, jnum(1)),
        ("params"@, params@),
    ]);
    r
}

/// The parameters of the Desktop `initialize` request.
pub fn initialize_params(client_type: &str) -> (r: JsonValue)
    ensures
        r@ == JsonView::Object(seq![("clientType"@, jstr(client_type@))]),
{
    let r = object(vec![entry("clientType", text(client_type))]);
    assert(r@->Object_0 =~= seq![("clientType"@, jstr(client_type@))]);
    r
}

/// The parameters of `thread-follower-start-turn`.
pub fn start_params(thread_id: &str, prompt: &str, cwd: &str) -> (r: JsonValue)
    ensures
        r@ == JsonView::Object(seq![
            ("conversationId"@, jstr(thread_id@)),
            ("turnStart"@, JsonView::Object(seq![
                ("request"@, JsonView::Object(seq![
                    ("threadId"@, jstr(thread_id@)),
                    ("input"@, text_input_view(prompt@)),
                    ("cwd"@, jstr(cwd@)),
                ])),
                ("context"@, jempty()),
            ])),
        ]),
{
    let request = object(vec![
        entry("threadId", text(thread_id)),
        entry("input", text_input(prompt)),
        entry("cwd", text(cwd)),
    ]);
    assert(request@->Object_0 =~= seq![
        ("threadId"@, jstr(thread_id@)),
        ("input"@, text_input_view(prompt@)),
        ("cwd"@, jstr(cwd@)),
    ]);
    let turn_start = object(vec![entry("request", request), entry("context", empty_object())]);
    assert(turn_start@->Object_0 =~= seq![("request"@, request@), ("context"@, jempty())]);
    let r = object(vec![entry("conversationId", text(thread_id)), entry("turnStart", turn_start)]);
    assert(r@->Object_0 =~= seq![("conversationId"@, jstr(thread_id@)), ("turnStart"@, turn_start@)]);
    r
}

/// The restore message that accompanies a steer.
pub open spec fn restore_view(message_id: Seq<char>, prompt: Seq<char>, cwd: Seq<char>, created_at: u64) -> JsonView {
    JsonView::Object(seq![
        ("id"@, jstr(message_id)),
        ("text"@, jstr(prompt)),
        ("context"@, JsonView::Object(seq![
            ("prompt"@, jstr(prompt)),
            ("addedFiles"@, jnone()),
            ("fileAttachments"@, jnone()),
            ("ideContext"@, JsonView::Null),
            ("imageAttachments"@, jnone()),
            ("commentAttachments"@, jnone()),
            ("workspaceRoots"@, JsonView::Array(seq![jstr(cwd)])),
        ])),
        ("cwd"@, jstr(cwd)),
        ("createdAt"@, jnum(created_at)),
    ])
}

/// The parameters of `thread-follower-steer-turn`, for a user message
/// with id `message_id` created at `created_at` (ms since the epoch).
pub fn steer_params(thread_id: &str, prompt: &str, cwd: &str, message_id: &str, created_at: u64) -> (r: JsonValue)
    ensures
        r@ == JsonView::Object(seq![
            ("conversationId"@, jstr(thread_id@)),
            ("clientUserMessageId"@, jstr(message_id@)),
            ("input"@, text_input_view(prompt@)),
            ("serviceTier"@, JsonView::Null),
            ("attachments"@, jnone()),
            ("additionalContext"@, JsonView::Null),
            ("restoreMessage"@, restore_view(message_id@, prompt@, cwd@, created_at)),
        ]),
{
    let roots = array(vec![text(cwd)]);
    assert(roots@->Array_0 =~= seq![jstr(cwd@)]);
    let context = object(vec![
        entry("prompt", text(prompt)),
        entry("addedFiles", empty_array()),
        entry("fileAttachments", empty_array()),
        entry("ideContext", JsonValue::Null),
        entry("imageAttachments", empty_array()),
        entry("commentAttachments", empty_array()),
        entry("workspaceRoots", roots),
    ]);
    assert(context@->Object_0 =~= seq![
        ("prompt"@, jstr(prompt@)),
        ("addedFiles"@, jnone()),
        ("fileAttachments"@, jnone()),
        ("ideContext"@, JsonView::Null),
        ("imageAttachments"@, jnone()),
        ("commentAttachments"@, jnone()),
        ("workspaceRoots"@, roots@),
    ]);
    let restore = object(vec![
        entry("id", text(message_id)),
        entry("text", text(prompt)),
        entry("context", context),
        entry("cwd", text(cwd)),
        entry("createdAt", number(created_at)),
    ]);
    assert(restore@->Object_0 =~= restore_view(message_id@, prompt@, cwd@, created_at)->Object_0);
    let r = object(vec![
        entry("conversationId", text(thread_id)),
        entry("clientUserMessageId", text(message_id)),
        entry("input", text_input(prompt)),
        entry("serviceTier", JsonValue::Null),
        entry("attachments", empty_array()),
        entry("additionalContext", JsonValue::Null),
        entry("restoreMessage", restore),
    ]);
    assert(r@->Object_0 =~= seq![
        ("conversationId"@, jstr(thread_id@)),
        ("clientUserMessageId"@, jstr(message_id@)),
        ("input"@, text_input_view(prompt@)),
        ("serviceTier"@, JsonView::Null),
        ("attachments"@, jnone()),
        ("additionalContext"@, JsonView::Null),
        ("restoreMessage"@, restore@),
    ]);
    r
}

/// The parameters of `thread-follower-interrupt-turn`.
pub fn interrupt_params(thread_id: &str, turn_id: &str) -> (r: JsonValue)
    ensures
        r@ == JsonView::Object(seq![
            ("conversationId"@, jstr(thread_id@)),
            ("mode"@, jstr("user"@)),
            ("expectedTurnId"@, jstr(turn_id@)),
        ]),
{
    let r = object(vec![
        entry("conversationId", text(thread_id)),
        entry("mode", text("user")),
        entry("expectedTurnId", text(turn_id)),
    ]);
    assert(r@->Object_0 =~= seq![
        ("conversationId"@, jstr(thread_id@)),
        ("mode"@, jstr("user"@)),
        ("expectedTurnId"@, jstr(turn_id@)),
    ]);
    r
}

/// The parameters of `thread-stream-following-changed`.
pub fn following_params(thread_id: &str, following: bool) -> (r: JsonValue)
    ensures
        r@ == JsonView::Object(seq![
            ("conversationId"@, jstr(thread_id@)),
            ("hostId"@, jstr("local"@)),
            ("following"@, JsonView::Bool(following)),
        ]),
{
    let r = object(vec![
        entry("conversationId", text(thread_id)),
        entry("hostId", text("local")),
        entry("following", JsonValue::Bool(following)),
    ]);
    assert(r@->Object_0 =~= seq![
        ("conversationId"@, jstr(thread_id@)),
        ("hostId"@, jstr("local"@)),
        ("following"@, JsonView::Bool(following)),
    ]);
    r
}

/// The transport's answer to a client discovery request: it cannot handle
/// the request.
pub fn discovery_response(request_id: Option<&str>) -> (r: JsonValue)
    ensures
        r@ == JsonView::Object(seq![
            ("type"@, jstr("client-discovery-response"@)),
            ("requestId"@, jopt(crate::transport::opt_text(request_id))),
            ("response"@, JsonView::Object(seq![("canHandle"@, JsonView::Bool(false))])),
        ]),
{
    let inner = object(vec![entry("canHandle", JsonValue::Bool(false))]);
    assert(inner@->Object_0 =~= seq![("canHandle"@, JsonView::Bool(false))]);
    let r = object(vec![
        entry("type", text("client-discovery-response")),
        entry("requestId", optional_text(request_id)),
        entry("response", inner),
    ]);
    assert(r@->Object_0 =~= seq![
        ("type"@, jstr("client-discovery-response"@)),
        ("requestId"@, jopt(crate::transport::opt_text(request_id))),
        ("response"@, inner@),
    ]);
    r
}

/// The transport's answer to a request addressed to this client: an error
/// saying that it has no handler.
pub fn no_handler_response(request_id: Option<&str>) -> (r: JsonValue)
    ensures
        r@ == JsonView::Object(seq![
            ("type"@, jstr("response"@)),
            ("requestId"@, jopt(crate::transport::opt_text(request_id))),
            ("resultType"@, jstr("error"@)),
            ("error"@, jstr("no-handler-for-request"@)),
        ]),
{
    let r = object(vec![
        entry("type", text("response")),
        entry("requestId", optional_text(request_id)),
        entry("resultType", text("error")),
        entry("error", text("no-handler-for-request")),
    ]);
    assert(r@->Object_0 =~= seq![
        ("type"@, jstr("response"@)),
        ("requestId"@, jopt(crate::transport::opt_text(request_id))),
        ("resultType"@, jstr("error"@)),
        ("error"@, jstr("no-handler-for-request"@)),
    ]);
    r
}

/// An App Server request line.
pub fn rpc_request(id: u64, method: &str, params: JsonValue) -> (r: JsonValue)
    ensures
        r@ == JsonView::Object(seq![("id"@, jnum(id)), ("method"@, jstr(method@)), ("params"@, params@)]),
{
    let r = object(vec![entry("id", number(id)), entry("method", text(method)), entry("params", params)]);
    assert(r@->Object_0 =~= seq![("id"@, jnum(id)), ("method"@, jstr(method@)), ("params"@, params@)]);
    r
}

/// An App Server notification line.
pub fn rpc_notification(method: &str, params: JsonValue) -> (r: JsonValue)
    ensures
        r@ == JsonView::Object(seq![("method"@, jstr(method@)), ("params"@, params@)]),
{
    let r = object(vec![entry("method", text(method)), entry("params", params)]);
    assert(r@->Object_0 =~= seq![("method"@, jstr(method@)), ("params"@, params@)]);
    r
}

/// The answer to an App Server request: method not found (-32601).
pub fn rpc_refusal(id: u64, method: &str) -> (r: JsonValue)
    ensures
        r@ == JsonView::Object(seq![
            ("id"@, jnum(id)),
            ("error"@, JsonView::Object(seq![
                ("code"@, JsonView::Number(NumberView::NegInt(-32601i64))),
                ("message"@, jstr("codex-app title lookup cannot answer "@ + method@ + "."@)),
            ])),
        ]),
{
    let error = object(vec![
        entry("code", JsonValue::Number(JsonNumber::NegInt(-32601))),
        entry("message", JsonValue::Str(refusal_message(method))),
    ]);
    assert(error@->Object_0 =~= seq![
        ("code"@, JsonView::Number(NumberView::NegInt(-32601i64))),
        ("message"@, jstr("codex-app title lookup cannot answer "@ + method@ + "."@)),
    ]);
    let r = object(vec![entry("id", number(id)), entry("error", error)]);
    assert(r@->Object_0 =~= seq![("id"@, jnum(id)), ("error"@, error@)]);
    r
}

/// The parameters of the App Server `initialize` request: the client's
/// name, title and version, without experimental API or attestation.
pub fn app_server_initialize_params(name: &str, title: &str, version: &str) -> (r: JsonValue)
    ensures
        r@ == JsonView::Object(seq![
            ("clientInfo"@, JsonView::Object(seq![
                ("name"@, jstr(name@)),
                ("title"@, jstr(title@)),
                ("version"@, jstr(version@)),
            ])),
            ("capabilities"@, JsonView::Object(seq![
                ("experimentalApi"@, JsonView::Bool(false)),
                ("requestAttestation"@, JsonView::Bool(false)),
            ])),
        ]),
{
    let info = object(vec![entry("name", text(name)), entry("title", text(title)), entry("version", text(version))]);
    assert(info@->Object_0 =~= seq![("name"@, jstr(name@)), ("title"@, jstr(title@)), ("version"@, jstr(version@))]);
    let capabilities = object(vec![
        entry("experimentalApi", JsonValue::Bool(false)),
        entry("requestAttestation", JsonValue::Bool(false)),
    ]);
    assert(capabilities@->Object_0 =~= seq![
        ("experimentalApi"@, JsonView::Bool(false)),
        ("requestAttestation"@, JsonView::Bool(false)),
    ]);
    let r = object(vec![entry("clientInfo", info), entry("capabilities", capabilities)]);
    assert(r@->Object_0 =~= seq![("clientInfo"@, info@), ("capabilities"@, capabilities@)]);
    r
}

/// The parameters of the App Server `thread/list` request: the 25 most
/// recent unarchived threads of `cwd`.
pub fn thread_list_params(cwd: &str) -> (r: JsonValue)
    ensures
        r@ == JsonView::Object(seq![
            ("cursor"@, JsonView::Null),
            ("limit"@, jnum(25)),
            ("sortKey"@, jstr("recency_at"@)),
            ("sortDirection"@, jstr("desc"@)),
            ("archived"@, JsonView::Bool(false)),
            ("cwd"@, jstr(cwd@)),
        ]),
{
    let r = object(vec![
        entry("cursor", JsonValue::Null),
        entry("limit", number(25)),
        entry("sortKey", text("recency_at")),
        entry("sortDirection", text("desc")),
        entry("archived", JsonValue::Bool(false)),
        entry("cwd", text(cwd)),
    ]);
    assert(r@->Object_0 =~= seq![
        ("cursor"@, JsonView::Null),
        ("limit"@, jnum(25)),
        ("sortKey"@, jstr("recency_at"@)),
        ("sortDirection"@, jstr("desc"@)),
        ("archived"@, JsonView::Bool(false)),
        ("cwd"@, jstr(cwd@)),
    ]);
    r
}

/// The published name of a turn kind.
pub open spec fn kind_text(k: TurnKind) -> Seq<char> {
    match k {
        TurnKind::Ask => "ask"@,
    }
}

fn kind_json(k: TurnKind) -> (r: JsonValue)
    ensures
        r@ == jstr(kind_text(k)),
{
    match k {
        TurnKind::Ask => text("ask"),
    }
}

/// The JSON of a completion, as the outbox publishes it.
pub open spec fn completion_view(c: Completion) -> JsonView {
    JsonView::Object(seq![
        ("threadId"@, jstr(c.thread_id@)),
        ("turnId"@, jstr(c.turn_id@)),
        ("kind"@, jstr(kind_text(c.kind))),
        ("status"@, jstr(c.status@)),
        ("result"@, jstr(c.result@)),
    ])
}

/// The JSON of a completion.
pub fn completion_json(c: &Completion) -> (r: JsonValue)
    ensures
        r@ == completion_view(*c),
{
    let r = object(vec![
        entry("threadId", text(c.thread_id.as_str())),
        entry("turnId", text(c.turn_id.as_str())),
        entry("kind", kind_json(c.kind)),
        entry("status", text(c.status.as_str())),
        entry("result", text(c.result.as_str())),
    ]);
    assert(r@->Object_0 =~= completion_view(*c)->Object_0);
    r
}

/// The monitor notification of a completion: its JSON with the event name
/// `codex-app.turn.<status>` added.
pub fn notification(c: &Completion) -> (r: JsonValue)
    ensures
        r@ == JsonView::Object(completion_view(*c)->Object_0.push(("event"@, jstr("codex-app.turn."@ + c.status@)))),
{
    let r = object(vec![
        entry("threadId", text(c.thread_id.as_str())),
        entry("turnId", text(c.turn_id.as_str())),
        entry("kind", kind_json(c.kind)),
        entry("status", text(c.status.as_str())),
        entry("result", text(c.result.as_str())),
        entry("event", JsonValue::Str(event_name(c.status.as_str()))),
    ]);
    assert(r@->Object_0 =~= completion_view(*c)->Object_0.push(("event"@, jstr("codex-app.turn."@ + c.status@))));
    r
}

} // verus!
