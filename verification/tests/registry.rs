use codex_app::protocol::TurnReference;
use codex_app::registry::Registry;

fn reference(thread: &str, turn: &str) -> TurnReference {
    TurnReference { thread_id: thread.into(), turn_id: turn.into() }
}

#[test]
fn entries_are_found_and_expected_by_turn() {
    let mut r = Registry::new();
    assert_eq!(r.find("th"), None);
    r.register("th", 1, None);
    assert_eq!(r.find("th"), Some(1));
    let pending = r.expect(&reference("th", "t1")).unwrap_err();
    assert_eq!(pending.message(), "Codex turn t1 in thread th is not active in this MCP session.");
    r.set_turn("th", 1, "t1".into());
    assert_eq!(r.expect(&reference("th", "t1")).unwrap(), 1);
    assert!(r.expect(&reference("th", "t2")).is_err());
    assert!(r.expect(&reference("other", "t1")).is_err());
}

#[test]
fn only_the_owning_task_updates_or_removes_its_entry() {
    let mut r = Registry::new();
    r.register("th", 1, Some("t1".into()));
    r.register("th", 2, None);
    r.set_turn("th", 1, "stale".into());
    assert!(r.expect(&reference("th", "stale")).is_err());
    r.remove("th", 1);
    assert_eq!(r.find("th"), Some(2));
    r.set_turn("th", 2, "t2".into());
    assert_eq!(r.expect(&reference("th", "t2")).unwrap(), 2);
    r.register("other", 3, Some("o".into()));
    r.remove("th", 2);
    assert_eq!(r.find("th"), None);
    assert_eq!(r.find("other"), Some(3));
}
