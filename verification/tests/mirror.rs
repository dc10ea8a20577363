use codex_app::follower::{snapshot_from, Follower};
use codex_app::json::{get_field, JsonNumber, JsonValue};
use codex_app::mirror::{
    pointer, DesktopPatch, Mirror, MirrorError, MirrorUpdate, PatchFault, PatchOperation,
    PathSegment, StateChange,
};
use codex_app::protocol::TurnReference;
use codex_app::state::StateChanged;
use codex_app::transport::Message;
use codex_app::turns::TurnState;

fn s(v: &str) -> JsonValue {
    JsonValue::Str(v.to_owned())
}

fn obj(members: Vec<(&str, JsonValue)>) -> JsonValue {
    JsonValue::Object(members.into_iter().map(|(k, v)| (k.to_owned(), v)).collect())
}

fn running_turns() -> JsonValue {
    obj(vec![("turns", JsonValue::Array(vec![obj(vec![("status", s("running"))])]))])
}

fn key(k: &str) -> PathSegment {
    PathSegment::Key(k.to_owned())
}

fn snapshot(owner: &str, revision: u64, state: JsonValue) -> Mirror {
    Mirror::from_snapshot(
        owner.into(),
        StateChange::Snapshot { revision, conversation_state: state },
    )
    .unwrap()
}

fn turns_status(mirror: &Mirror) -> Option<&JsonValue> {
    match get_field(mirror.state(), "turns") {
        Some(JsonValue::Array(items)) => get_field(&items[0], "status"),
        _ => None,
    }
}

#[test]
fn desktop_array_paths_apply_as_rfc_6902() {
    let mut mirror = snapshot("desktop", 1, running_turns());
    mirror
        .apply_patches(vec![DesktopPatch {
            op: PatchOperation::Replace,
            path: vec![key("turns"), PathSegment::Index(0), key("status")],
            value: Some(s("completed")),
        }])
        .unwrap();
    assert_eq!(turns_status(&mirror), Some(&s("completed")));
}

#[test]
fn revision_gap_requires_resync_without_mutating_the_mirror() {
    let mut mirror = snapshot("desktop", 4, running_turns());

    let result = mirror
        .apply(
            "desktop".into(),
            StateChange::Patches { base_revision: 3, revision: 5, patches: Vec::new() },
        )
        .unwrap();

    assert_eq!(result, MirrorUpdate::NeedsResync);
    assert_eq!(mirror.revision(), 4);
    assert_eq!(mirror.state(), &running_turns());
}

#[test]
fn patches_from_another_owner_or_going_backwards_need_resync() {
    let mut mirror = snapshot("desktop", 4, running_turns());
    let other = mirror
        .apply("intruder".into(), StateChange::Patches { base_revision: 4, revision: 5, patches: Vec::new() })
        .unwrap();
    assert_eq!(other, MirrorUpdate::NeedsResync);
    let stale = mirror
        .apply("desktop".into(), StateChange::Patches { base_revision: 4, revision: 4, patches: Vec::new() })
        .unwrap();
    assert_eq!(stale, MirrorUpdate::NeedsResync);
    assert_eq!(mirror.revision(), 4);
    assert_eq!(mirror.owner(), "desktop");
}

#[test]
fn contiguous_patches_advance_the_revision() {
    let mut mirror = snapshot("desktop", 4, running_turns());
    let applied = mirror
        .apply(
            "desktop".into(),
            StateChange::Patches {
                base_revision: 4,
                revision: 6,
                patches: vec![DesktopPatch {
                    op: PatchOperation::Add,
                    path: vec![key("title")],
                    value: Some(s("Hello")),
                }],
            },
        )
        .unwrap();
    assert_eq!(applied, MirrorUpdate::Applied);
    assert_eq!(mirror.revision(), 6);
    assert_eq!(get_field(mirror.state(), "title"), Some(&s("Hello")));
}

#[test]
fn a_snapshot_replaces_everything() {
    let mut mirror = snapshot("desktop", 9, running_turns());
    let r = mirror
        .apply(
            "desktop-2".into(),
            StateChange::Snapshot { revision: 2, conversation_state: JsonValue::Null },
        )
        .unwrap();
    assert_eq!(r, MirrorUpdate::Applied);
    assert_eq!(mirror.revision(), 2);
    assert_eq!(mirror.owner(), "desktop-2");
    assert_eq!(mirror.state(), &JsonValue::Null);
}

#[test]
fn malformed_patches_are_refused_whole() {
    let mut mirror = snapshot("desktop", 1, running_turns());
    let err = mirror
        .apply(
            "desktop".into(),
            StateChange::Patches {
                base_revision: 1,
                revision: 2,
                patches: vec![
                    DesktopPatch { op: PatchOperation::Add, path: vec![key("a")], value: Some(s("x")) },
                    DesktopPatch { op: PatchOperation::Replace, path: vec![key("b")], value: None },
                    DesktopPatch { op: PatchOperation::Remove, path: vec![], value: None },
                ],
            },
        )
        .unwrap_err();
    assert!(matches!(err, MirrorError::Invalid(PatchFault::MissingValue(PatchOperation::Replace))));
    assert_eq!(err.message(), "Desktop replace patch has no value.");
    assert!(err.cause().is_none());
    assert_eq!(mirror.revision(), 1);
    assert_eq!(mirror.state(), &running_turns());

    let root = mirror
        .apply_patches(vec![DesktopPatch { op: PatchOperation::Remove, path: vec![], value: None }])
        .unwrap_err();
    assert_eq!(root.message(), "Desktop state cannot be removed by a root patch.");
    let add = mirror
        .apply_patches(vec![DesktopPatch { op: PatchOperation::Add, path: vec![key("a")], value: None }])
        .unwrap_err();
    assert_eq!(add.message(), "Desktop add patch has no value.");
}

#[test]
fn rejected_patches_leave_the_document() {
    let mut mirror = snapshot("desktop", 1, running_turns());
    let err = mirror
        .apply_patches(vec![
            DesktopPatch { op: PatchOperation::Add, path: vec![key("a")], value: Some(s("x")) },
            DesktopPatch { op: PatchOperation::Remove, path: vec![key("missing")], value: None },
        ])
        .unwrap_err();
    assert!(matches!(err, MirrorError::Rejected(_)));
    assert_eq!(err.message(), "Failed to apply a Desktop state patch.");
    assert!(err.cause().is_some_and(|c| !c.is_empty()));
    assert_eq!(mirror.state(), &running_turns());
}

#[test]
fn numbers_survive_patching() {
    let doc = obj(vec![
        ("n", JsonValue::Number(JsonNumber::NegInt(-3))),
        ("f", JsonValue::Number(JsonNumber::Float("1.5".into()))),
        ("u", JsonValue::Number(JsonNumber::PosInt(7))),
        ("b", JsonValue::Bool(true)),
    ]);
    let mut mirror = snapshot("d", 1, doc);
    mirror
        .apply_patches(vec![DesktopPatch { op: PatchOperation::Add, path: vec![key("z")], value: Some(JsonValue::Null) }])
        .unwrap();
    assert_eq!(get_field(mirror.state(), "n"), Some(&JsonValue::Number(JsonNumber::NegInt(-3))));
    assert_eq!(get_field(mirror.state(), "f"), Some(&JsonValue::Number(JsonNumber::Float("1.5".into()))));
    assert_eq!(get_field(mirror.state(), "u"), Some(&JsonValue::Number(JsonNumber::PosInt(7))));
    assert_eq!(get_field(mirror.state(), "z"), Some(&JsonValue::Null));
}

#[test]
fn pointers_escape_keys() {
    let p = pointer(&vec![key("a/b~c"), PathSegment::Index(12), key("")]);
    assert_eq!(p, "/a~1b~0c/12/");
    assert_eq!(pointer(&Vec::new()), "");
}

fn turn(id: &str, status: &str, items: Vec<JsonValue>) -> JsonValue {
    obj(vec![("turnId", s(id)), ("status", s(status)), ("items", JsonValue::Array(items))])
}

fn item(kind: &str, text: &str) -> JsonValue {
    obj(vec![("type", s(kind)), ("text", s(text))])
}

fn history(entities: Vec<(&str, JsonValue)>, turns: Vec<JsonValue>) -> JsonValue {
    obj(vec![
        ("turnHistory", obj(vec![("history", obj(vec![("entitiesByKey", obj(entities))]))])),
        ("turns", JsonValue::Array(turns)),
    ])
}

#[test]
fn settlement_reads_the_last_agent_message_of_a_terminal_turn() {
    let state = history(
        vec![
            ("k1", turn("t1", "running", vec![])),
            (
                "k2",
                turn(
                    "t2",
                    "completed",
                    vec![item("agentMessage", " first "), item("agentMessage", "  final \n"), item("userMessage", "x")],
                ),
            ),
        ],
        vec![],
    );
    let mirror = snapshot("d", 1, state);
    let s2 = mirror.settlement("t2").unwrap();
    assert_eq!(s2.status, "completed");
    assert_eq!(s2.result, "final");
    assert!(mirror.settlement("t1").is_none());
    assert!(mirror.settlement("t3").is_none());
}

#[test]
fn settlement_falls_back_to_the_turn_list() {
    let listed = obj(vec![("id", s("t9")), ("status", s("failed"))]);
    let mirror = snapshot("d", 1, history(vec![], vec![listed]));
    let s9 = mirror.settlement("t9").unwrap();
    assert_eq!(s9.status, "failed");
    assert_eq!(s9.result, "");
    // Without the entity map the turn list is not consulted.
    let bare = snapshot("d", 1, obj(vec![("turns", JsonValue::Array(vec![turn("t9", "failed", vec![])]))]));
    assert!(bare.settlement("t9").is_none());
}

fn message(params: Option<Result<StateChanged, String>>) -> Message<Result<StateChanged, String>> {
    Message {
        kind: "broadcast".into(),
        request_id: None,
        source_client_id: Some("desktop".into()),
        target_client_ids: None,
        version: Some(11),
        method: Some("thread-stream-state-changed".into()),
        params,
        result: None,
        result_type: None,
        error: None,
    }
}

fn state_change(thread: &str, change: StateChange) -> Option<Result<StateChanged, String>> {
    Some(Ok(StateChanged { conversation_id: thread.into(), host_id: "local".into(), change }))
}

#[test]
fn follower_resyncs_on_gaps_and_settles_cancelled_turns_as_interrupted() {
    let snap = snapshot_from(
        message(state_change(
            "th",
            StateChange::Snapshot {
                revision: 1,
                conversation_state: history(vec![("k", turn("t", "running", vec![]))], vec![]),
            },
        )),
        "th",
    )
    .unwrap()
    .unwrap();
    let mut follower = Follower::start("th".into(), snap);
    let state = TurnState::new("th", "t");
    assert!(state.settle(&follower).is_none());

    let gap = follower
        .observe(message(state_change(
            "th",
            StateChange::Patches { base_revision: 5, revision: 6, patches: vec![] },
        )))
        .unwrap();
    assert!(gap);

    let applied = follower
        .observe(message(state_change(
            "th",
            StateChange::Patches {
                base_revision: 1,
                revision: 2,
                patches: vec![DesktopPatch {
                    op: PatchOperation::Replace,
                    path: vec![
                        key("turnHistory"),
                        key("history"),
                        key("entitiesByKey"),
                        key("k"),
                        key("status"),
                    ],
                    value: Some(s("cancelled")),
                }],
            },
        )))
        .unwrap();
    assert!(!applied);
    let other_thread = follower
        .observe(message(state_change("other", StateChange::Patches { base_revision: 9, revision: 10, patches: vec![] })))
        .unwrap();
    assert!(!other_thread);

    let completion = state.settle(&follower).unwrap();
    assert_eq!(completion.status, "interrupted");
    assert_eq!(completion.result, "Codex completed without a final agent message.");
    assert_eq!(completion.thread_id, "th");
    assert_eq!(completion.turn_id, "t");
    let _ = TurnReference { thread_id: "th".into(), turn_id: "t".into() };
}
