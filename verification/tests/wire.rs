use codex_app::json::{JsonNumber, JsonValue};
use codex_app::protocol::{Completion, TurnKind, TurnReference};
use codex_app::wire::{
    app_server_initialize_params, completion_json, discovery_response, following_params, interrupt_params, no_handler_response,
    notification, request_envelope, rpc_refusal, steer_params, text_input, thread_list_params,
};

fn s(v: &str) -> JsonValue {
    JsonValue::Str(v.to_owned())
}

fn obj(members: Vec<(&str, JsonValue)>) -> JsonValue {
    JsonValue::Object(members.into_iter().map(|(k, v)| (k.to_owned(), v)).collect())
}

fn n(v: u64) -> JsonValue {
    JsonValue::Number(JsonNumber::PosInt(v))
}

#[test]
fn text_input_uses_the_codex_shape() {
    assert_eq!(
        text_input("hello"),
        JsonValue::Array(vec![obj(vec![
            ("type", s("text")),
            ("text", s("hello")),
            ("text_elements", JsonValue::Array(vec![])),
        ])])
    );
}

#[test]
fn monitor_event_keeps_the_existing_wire_shape() {
    let value = notification(&Completion {
        thread_id: "thread".into(),
        turn_id: "turn".into(),
        kind: TurnKind::Ask,
        status: "completed".into(),
        result: "done".into(),
    });
    assert_eq!(
        value,
        obj(vec![
            ("threadId", s("thread")),
            ("turnId", s("turn")),
            ("kind", s("ask")),
            ("status", s("completed")),
            ("result", s("done")),
            ("event", s("codex-app.turn.completed")),
        ])
    );
}

#[test]
fn completions_publish_their_fields() {
    let c = Completion::settled(
        TurnReference { thread_id: "thread-1".into(), turn_id: "turn-1".into() },
        "completed",
        "done".into(),
    );
    assert_eq!(
        completion_json(&c),
        obj(vec![
            ("threadId", s("thread-1")),
            ("turnId", s("turn-1")),
            ("kind", s("ask")),
            ("status", s("completed")),
            ("result", s("done")),
        ])
    );
}

#[test]
fn ipc_requests_carry_their_envelope() {
    let r = request_envelope("rid", "cid", 4, "thread-follower-interrupt-turn", interrupt_params("th", "tu"));
    assert_eq!(
        r,
        obj(vec![
            ("type", s("request")),
            ("requestId", s("rid")),
            ("sourceClientId", s("cid")),
            ("version", n(4)),
            ("method", s("thread-follower-interrupt-turn")),
            (
                "params",
                obj(vec![("conversationId", s("th")), ("mode", s("user")), ("expectedTurnId", s("tu"))]),
            ),
            ("timeoutMs", n(15000)),
        ])
    );
    assert_eq!(
        following_params("th", true),
        obj(vec![("conversationId", s("th")), ("hostId", s("local")), ("following", JsonValue::Bool(true))])
    );
}

#[test]
fn steer_carries_a_restore_message() {
    let p = steer_params("th", "go", "/w", "m1", 99);
    let restore = obj(vec![
        ("id", s("m1")),
        ("text", s("go")),
        (
            "context",
            obj(vec![
                ("prompt", s("go")),
                ("addedFiles", JsonValue::Array(vec![])),
                ("fileAttachments", JsonValue::Array(vec![])),
                ("ideContext", JsonValue::Null),
                ("imageAttachments", JsonValue::Array(vec![])),
                ("commentAttachments", JsonValue::Array(vec![])),
                ("workspaceRoots", JsonValue::Array(vec![s("/w")])),
            ]),
        ),
        ("cwd", s("/w")),
        ("createdAt", n(99)),
    ]);
    assert_eq!(
        p,
        obj(vec![
            ("conversationId", s("th")),
            ("clientUserMessageId", s("m1")),
            ("input", text_input("go")),
            ("serviceTier", JsonValue::Null),
            ("attachments", JsonValue::Array(vec![])),
            ("additionalContext", JsonValue::Null),
            ("restoreMessage", restore),
        ])
    );
}

#[test]
fn transport_replies_refuse_requests() {
    assert_eq!(
        discovery_response(Some("q")),
        obj(vec![
            ("type", s("client-discovery-response")),
            ("requestId", s("q")),
            ("response", obj(vec![("canHandle", JsonValue::Bool(false))])),
        ])
    );
    assert_eq!(
        no_handler_response(None),
        obj(vec![
            ("type", s("response")),
            ("requestId", JsonValue::Null),
            ("resultType", s("error")),
            ("error", s("no-handler-for-request")),
        ])
    );
}

#[test]
fn app_server_lines() {
    assert_eq!(
        rpc_refusal(3, "ping"),
        obj(vec![
            ("id", n(3)),
            (
                "error",
                obj(vec![
                    ("code", JsonValue::Number(JsonNumber::NegInt(-32601))),
                    ("message", s("codex-app title lookup cannot answer ping.")),
                ]),
            ),
        ])
    );
    assert_eq!(
        thread_list_params("/w"),
        obj(vec![
            ("cursor", JsonValue::Null),
            ("limit", n(25)),
            ("sortKey", s("recency_at")),
            ("sortDirection", s("desc")),
            ("archived", JsonValue::Bool(false)),
            ("cwd", s("/w")),
        ])
    );
}

#[test]
fn app_server_initialize_names_the_client() {
    assert_eq!(
        app_server_initialize_params("name", "Title", "1.2.3"),
        obj(vec![
            ("clientInfo", obj(vec![("name", s("name")), ("title", s("Title")), ("version", s("1.2.3"))])),
            (
                "capabilities",
                obj(vec![("experimentalApi", JsonValue::Bool(false)), ("requestAttestation", JsonValue::Bool(false))]),
            ),
        ])
    );
}
