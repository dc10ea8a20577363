use codex_app::protocol::{AskResult, Completion, TurnReference};

fn reference() -> TurnReference {
    TurnReference { thread_id: "thread".into(), turn_id: "turn".into() }
}

#[test]
fn steered_ask_result_omits_the_result_field() {
    let value = AskResult::steered(reference());
    assert_eq!(value.thread_id, "thread");
    assert_eq!(value.turn_id, "turn");
    assert_eq!(value.status, "steered");
    assert_eq!(value.result, None);
}

#[test]
fn settled_completion_replaces_an_empty_result() {
    let c = Completion::settled(reference(), "completed", String::new());
    assert_eq!(c.result, "Codex completed without a final agent message.");
    assert_eq!(c.status, "completed");
    let d = Completion::settled(reference(), "failed", "done".into());
    assert_eq!(d.result, "done");
}

#[test]
fn failed_completion_carries_the_error_text() {
    let c = Completion::failed(&reference(), "socket closed");
    assert_eq!(c.kind, codex_app::protocol::TurnKind::Ask);
    assert_eq!((c.thread_id.as_str(), c.turn_id.as_str()), ("thread", "turn"));
    assert_eq!(c.status, "failed");
    assert_eq!(c.result, "socket closed");
}

#[test]
fn a_completion_becomes_an_ask_result_with_its_result() {
    let r = AskResult::from(Completion::settled(reference(), "completed", "ok".into()));
    assert_eq!(r.status, "completed");
    assert_eq!(r.result.as_deref(), Some("ok"));
    assert_eq!(r.thread_id, "thread");
}
