use codex_app::json::JsonValue;
use codex_app::mirror::StateChange;
use codex_app::state::{StateChanged, StateError};
use codex_app::transport::Message;

fn broadcast(
    version: Option<u64>,
    method: &str,
    source: Option<&str>,
    params: Option<Result<StateChanged, String>>,
) -> Message<Result<StateChanged, String>> {
    Message {
        kind: "broadcast".into(),
        request_id: None,
        source_client_id: source.map(str::to_owned),
        target_client_ids: None,
        version,
        method: Some(method.into()),
        params,
        result: None,
        result_type: None,
        error: None,
    }
}

fn snapshot(thread: &str, host: &str) -> Option<Result<StateChanged, String>> {
    Some(Ok(StateChanged {
        conversation_id: thread.into(),
        host_id: host.into(),
        change: StateChange::Snapshot { revision: 1, conversation_state: JsonValue::Object(vec![]) },
    }))
}

#[test]
fn protocol_version_mismatch_is_never_accepted() {
    let message = broadcast(Some(12), "thread-stream-state-changed", Some("desktop"), snapshot("thread", "local"));
    let error = StateChanged::from_broadcast(message, "thread").unwrap_err();
    assert!(error.message().contains("expected 11"));
}

#[test]
fn missing_version_is_reported_as_null() {
    let message = broadcast(None, "thread-stream-state-changed", Some("desktop"), snapshot("thread", "local"));
    let error = StateChanged::from_broadcast(message, "thread").unwrap_err();
    assert_eq!(
        error.message(),
        "Unsupported Codex Desktop thread state protocol version null; expected 11."
    );
}

#[test]
fn other_broadcasts_threads_and_hosts_are_ignored() {
    let other_method = broadcast(Some(11), "something-else", Some("d"), None);
    assert!(StateChanged::from_broadcast(other_method, "thread").unwrap().is_none());
    let other_thread = broadcast(Some(12), "thread-stream-state-changed", Some("d"), snapshot("other", "local"));
    assert!(StateChanged::from_broadcast(other_thread, "thread").unwrap().is_none());
    let remote = broadcast(Some(11), "thread-stream-state-changed", Some("d"), snapshot("thread", "remote"));
    assert!(StateChanged::from_broadcast(remote, "thread").unwrap().is_none());
}

#[test]
fn state_broadcasts_need_params_and_an_owner() {
    let none = broadcast(Some(11), "thread-stream-state-changed", Some("d"), None);
    let e = StateChanged::from_broadcast(none, "thread").unwrap_err();
    assert!(matches!(e, StateError::NoParams));
    assert_eq!(e.message(), "Desktop state broadcast has no params.");
    let bad = broadcast(Some(11), "thread-stream-state-changed", Some("d"), Some(Err("invalid".into())));
    assert_eq!(StateChanged::from_broadcast(bad, "thread").unwrap_err().message(), "invalid");
    let anonymous = broadcast(Some(11), "thread-stream-state-changed", None, snapshot("thread", "local"));
    assert_eq!(
        StateChanged::from_broadcast(anonymous, "thread").unwrap_err().message(),
        "Desktop state broadcast has no owner."
    );
    let good = broadcast(Some(11), "thread-stream-state-changed", Some("desk"), snapshot("thread", "local"));
    let (owner, change) = StateChanged::from_broadcast(good, "thread").unwrap().unwrap();
    assert_eq!(owner, "desk");
    assert!(matches!(change, StateChange::Snapshot { revision: 1, .. }));
}
