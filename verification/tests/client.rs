use codex_app::client::{
    is_broadcast_for, is_target, request_allowed, response_step, BroadcastQueue, ResponseStep, TurnId, TurnStarted,
};
use codex_app::transport::Message;

fn started(turn_id: Option<&str>, turn: Option<&str>, result: Option<TurnStarted>) -> TurnStarted {
    TurnStarted {
        result: result.map(Box::new),
        turn_id: turn_id.map(str::to_owned),
        turn: turn.map(|id| TurnId { id: id.to_owned() }),
    }
}

#[test]
fn turn_id_reads_only_the_known_response_fields() {
    let direct = started(Some("direct"), None, None);
    assert_eq!(direct.turn_id().as_deref(), Some("direct"));

    let nested = started(None, Some("nested"), None);
    assert_eq!(nested.turn_id().as_deref(), Some("nested"));

    // {"other":{"turnId":"hidden"}}: an unknown field leaves every known one absent.
    let hidden = started(None, None, None);
    assert_eq!(hidden.turn_id(), None);
}

#[test]
fn turn_id_unwraps_the_follower_result_envelope() {
    let wrapped = started(None, None, Some(started(None, Some("wrapped"), None)));
    assert_eq!(wrapped.turn_id().as_deref(), Some("wrapped"));
}

#[test]
fn direct_turn_id_wins_over_nested_forms() {
    let all = started(Some("a"), Some("b"), Some(started(Some("c"), None, None)));
    assert_eq!(all.turn_id().as_deref(), Some("a"));
    let turn = started(None, Some("b"), Some(started(Some("c"), None, None)));
    assert_eq!(turn.turn_id().as_deref(), Some("b"));
}

fn msg(kind: &str, request_id: Option<&str>, targets: Option<Vec<&str>>) -> Message<u32> {
    Message {
        kind: kind.into(),
        request_id: request_id.map(str::to_owned),
        source_client_id: None,
        target_client_ids: targets.map(|t| t.into_iter().map(str::to_owned).collect()),
        version: None,
        method: None,
        params: None,
        result: Some(7),
        result_type: None,
        error: None,
    }
}

#[test]
fn only_initialize_may_precede_the_client_id() {
    assert!(!request_allowed("initializing-client", "thread-follower-start-turn"));
    assert!(request_allowed("initializing-client", "initialize"));
    assert!(request_allowed("client-1", "thread-follower-start-turn"));
}

#[test]
fn responses_are_matched_by_request_id() {
    assert!(matches!(response_step(msg("broadcast", None, None), "r1", "m"), ResponseStep::Queue(_)));
    assert!(matches!(response_step(msg("response", Some("r2"), None), "r1", "m"), ResponseStep::Skip));
    assert!(matches!(response_step(msg("other", Some("r1"), None), "r1", "m"), ResponseStep::Skip));
    assert!(matches!(response_step(msg("response", Some("r1"), None), "r1", "m"), ResponseStep::Done(Some(7))));
    let mut failed = msg("response", Some("r1"), None);
    failed.result_type = Some("error".into());
    match response_step(failed, "r1", "initialize") {
        ResponseStep::Failed(t) => assert_eq!(t, "Codex Desktop IPC initialize failed: unknown error"),
        _ => panic!("expected a failure"),
    }
    let mut explained = msg("response", Some("r1"), None);
    explained.result_type = Some("error".into());
    explained.error = Some("boom".into());
    match response_step(explained, "r1", "x") {
        ResponseStep::Failed(t) => assert_eq!(t, "Codex Desktop IPC x failed: boom"),
        _ => panic!("expected a failure"),
    }
}

#[test]
fn queued_broadcasts_are_taken_in_order_for_their_target() {
    assert!(is_target(&msg("broadcast", None, None), "me"));
    assert!(is_target(&msg("broadcast", None, Some(vec!["a", "me"])), "me"));
    assert!(!is_target(&msg("broadcast", None, Some(vec![])), "me"));
    assert!(is_broadcast_for(&msg("broadcast", None, Some(vec!["me"])), "me"));
    assert!(!is_broadcast_for(&msg("response", None, None), "me"));

    let mut queue = BroadcastQueue::new();
    let mut first = msg("broadcast", Some("1"), Some(vec!["other"]));
    first.result = Some(1);
    let mut second = msg("broadcast", Some("2"), None);
    second.result = Some(2);
    let mut third = msg("broadcast", Some("3"), Some(vec!["me"]));
    third.result = Some(3);
    queue.push(first);
    queue.push(second);
    queue.push(third);
    assert_eq!(queue.next_for("me").unwrap().result, Some(2));
    assert_eq!(queue.next_for("me").unwrap().result, Some(3));
    assert!(queue.next_for("me").is_none());
}
