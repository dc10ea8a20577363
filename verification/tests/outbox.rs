use codex_app::monitor::event_name;
use codex_app::outbox::{data_root, is_completion_file, key, Outbox};
use sha2::{Digest, Sha256};

fn hex24(data: &[u8]) -> String {
    Sha256::digest(data).iter().map(|b| format!("{b:02x}")).collect::<String>()[..24].to_owned()
}

#[test]
fn keys_are_the_first_24_hex_digits_of_sha256() {
    assert_eq!(key(b"/workspace"), hex24(b"/workspace"));
    assert_eq!(key(b""), "e3b0c44298fc1c149afbf4c8");
    assert_eq!(key(b"abc"), "ba7816bf8f01cfea414140de");
}

#[test]
fn completion_files_live_under_the_cwd_key() {
    let outbox = Outbox::new(b"/data", b"/workspace");
    let dir = format!("/data/completions/{}", hex24(b"/workspace"));
    assert_eq!(outbox.directory(), dir.as_bytes());
    let name = hex24("thread-1\0turn-1".as_bytes());
    assert_eq!(outbox.completion_file("thread-1", "turn-1"), format!("{dir}/{name}.json").into_bytes());
    assert_eq!(
        outbox.temporary_file("thread-1", "turn-1", 4242),
        format!("{dir}/{name}.4242.tmp").into_bytes()
    );
    assert_eq!(
        Outbox::new(b"/data/", b"x").directory(),
        format!("/data/completions/{}", hex24(b"x")).as_bytes()
    );
}

#[test]
fn completion_directory_keeps_a_root_that_is_not_utf8() {
    let outbox = Outbox::new(b"/d\xff", b"/w\xfe");
    let mut dir = b"/d\xff/completions/".to_vec();
    dir.extend_from_slice(hex24(b"/w\xfe").as_bytes());
    assert_eq!(outbox.directory(), dir.as_slice());
}

#[test]
fn only_json_files_are_taken() {
    assert!(is_completion_file(b"abc.json"));
    assert!(is_completion_file(b".x.json"));
    assert!(!is_completion_file(b".json"));
    assert!(!is_completion_file(b"abc.123.tmp"));
    assert!(!is_completion_file(b"abc.json.tmp"));
    assert!(!is_completion_file(b"json"));
    assert!(!is_completion_file(b"a.JSON"));
    assert!(is_completion_file(b"\xff\xfe.json"));
    assert!(!is_completion_file(b"a.js"));
}

#[test]
fn plugin_data_root_prefers_the_plugin_directory() {
    let b = |s: &'static str| Some(s.as_bytes());
    assert_eq!(data_root(b("/p"), b("/home/u")), b"/p".to_vec());
    assert_eq!(data_root(None, b("/home/u")), b"/home/u/.codex-app".to_vec());
    assert_eq!(data_root(None, None), b"./.codex-app".to_vec());
}

#[test]
fn monitor_events_are_named_by_status() {
    assert_eq!(event_name("completed"), "codex-app.turn.completed");
    assert_eq!(event_name("failed"), "codex-app.turn.failed");
}
