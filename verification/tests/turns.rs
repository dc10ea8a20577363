use codex_app::lookup::{app_server_binary, envelope_step, refusal_message, EnvelopeStep, RequestIds, RpcEnvelope};
use codex_app::turns::{completion_status, explicit_thread, Control, ControlAction, TurnState};

#[test]
fn steers_and_interrupts_must_name_the_current_turn() {
    let state = TurnState::new("th", "t1");
    match state.on_control(Control::Steer { expected: Some("t0".into()), prompt: "p".into() }) {
        ControlAction::Reject(e) => assert_eq!(e.message(), "Codex turn t0 is no longer active."),
        other => panic!("unexpected {other:?}"),
    }
    assert!(matches!(
        state.on_control(Control::Steer { expected: None, prompt: "p".into() }),
        ControlAction::Steer(p) if p == "p"
    ));
    assert!(matches!(
        state.on_control(Control::Steer { expected: Some("t1".into()), prompt: "q".into() }),
        ControlAction::Steer(p) if p == "q"
    ));
    assert!(matches!(state.on_control(Control::Interrupt { expected: "t1".into() }), ControlAction::Interrupt));
    assert!(matches!(state.on_control(Control::Interrupt { expected: "t9".into() }), ControlAction::Reject(_)));
}

#[test]
fn a_steer_that_starts_a_turn_moves_the_task_to_it() {
    let mut state = TurnState::new("th", "t1");
    let same = state.after_steer(Ok(None)).unwrap();
    assert_eq!((same.thread_id.as_str(), same.turn_id.as_str()), ("th", "t1"));
    let moved = state.after_steer(Ok(Some("t2".into()))).unwrap();
    assert_eq!(moved.turn_id, "t2");
    assert_eq!(state.turn_id(), "t2");
    assert_eq!(state.after_steer(Err("down".into())).unwrap_err(), "down");
    assert_eq!(state.turn_id(), "t2");
    assert_eq!(state.after_interrupt(Ok(())).unwrap().turn_id, "t2");
    assert_eq!(state.after_interrupt(Err("no".into())).unwrap_err(), "no");
}

#[test]
fn cancelled_turns_are_reported_interrupted() {
    assert_eq!(completion_status("cancelled"), "interrupted");
    assert_eq!(completion_status("completed"), "completed");
    assert_eq!(completion_status("failed"), "failed");
}

#[test]
fn explicit_thread_ids_are_trimmed() {
    assert_eq!(explicit_thread(Some("  th ")).as_deref(), Some("th"));
    assert_eq!(explicit_thread(Some("  ")), None);
    assert_eq!(explicit_thread(None), None);
}

#[test]
fn app_server_messages_are_matched_to_the_request() {
    assert_eq!(app_server_binary(Some(&b"/a"[..]), Some(&b"/b"[..])), b"/a".to_vec());
    assert_eq!(app_server_binary(None, Some(&b"/b"[..])), b"/b".to_vec());
    assert_eq!(app_server_binary(None, None), b"codex".to_vec());
    let env = |id: Option<u64>, method: Option<&str>, error: Option<&str>| RpcEnvelope {
        id,
        method: method.map(str::to_owned),
        result: Some(1u8),
        error: error.map(str::to_owned),
    };
    assert!(matches!(envelope_step(env(Some(9), Some("ping"), None), 1), EnvelopeStep::Refuse { id: 9, .. }));
    assert!(matches!(envelope_step(env(None, Some("note"), None), 1), EnvelopeStep::Ignore));
    assert!(matches!(envelope_step(env(Some(2), None, None), 1), EnvelopeStep::Ignore));
    assert!(matches!(envelope_step(env(Some(1), None, Some("bad")), 1), EnvelopeStep::Failed(m) if m == "bad"));
    assert!(matches!(envelope_step(env(Some(1), None, None), 1), EnvelopeStep::Done(Some(1))));
    assert_eq!(refusal_message("ping"), "codex-app title lookup cannot answer ping.");
    let mut ids = RequestIds::new();
    assert_eq!(ids.take(), 1);
    assert_eq!(ids.take(), 2);
}
