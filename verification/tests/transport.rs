use codex_app::transport::{
    check_endpoint, endpoint, frame_header, frame_length, incoming, EndpointError, EndpointFacts,
    FrameError, Incoming, MAX_FRAME_BYTES,
};

#[test]
fn frame_headers_are_little_endian_and_bounded() {
    let h = frame_header(0x0102_0304).unwrap();
    assert_eq!(h, 0x0102_0304u32.to_le_bytes());
    assert_eq!(frame_length(h).unwrap(), 0x0102_0304);
    assert_eq!(frame_header(MAX_FRAME_BYTES).unwrap(), (MAX_FRAME_BYTES as u32).to_le_bytes());
    assert_eq!(frame_header(MAX_FRAME_BYTES + 1), Err(FrameError::PayloadTooLarge));
    assert_eq!(frame_length(((MAX_FRAME_BYTES + 1) as u32).to_le_bytes()), Err(FrameError::FrameTooLarge));
    assert_eq!(frame_length([0xff; 4]), Err(FrameError::FrameTooLarge));
    assert_eq!(FrameError::FrameTooLarge.message(), "Codex Desktop IPC frame is too large.");
    for n in [0usize, 1, 255, 256, 65_535, 65_536, 16_777_216, MAX_FRAME_BYTES] {
        assert_eq!(frame_length(frame_header(n).unwrap()).unwrap(), n);
    }
}

#[test]
fn discovery_and_requests_are_answered_by_the_transport() {
    assert_eq!(incoming("client-discovery-request"), Incoming::Discovery);
    assert_eq!(incoming("request"), Incoming::Request);
    assert_eq!(incoming("response"), Incoming::Deliver);
    assert_eq!(incoming("broadcast"), Incoming::Deliver);
}

#[test]
fn endpoint_follows_the_environment() {
    let b = |s: &'static str| Some(s.as_bytes());
    assert_eq!(endpoint(b("/x.sock"), b("/c"), b("/h")), b"/x.sock".to_vec());
    assert_eq!(endpoint(None, b("/c"), b("/h")), b"/c/ipc/ipc.sock".to_vec());
    assert_eq!(endpoint(None, b("/c/"), None), b"/c/ipc/ipc.sock".to_vec());
    assert_eq!(endpoint(None, None, b("/h")), b"/h/.codex/ipc/ipc.sock".to_vec());
    assert_eq!(endpoint(None, None, None), b"./.codex/ipc/ipc.sock".to_vec());
}

#[test]
fn endpoint_keeps_paths_that_are_not_utf8() {
    let home: &[u8] = b"/h\xff\xfe";
    assert_eq!(endpoint(None, None, Some(home)), b"/h\xff\xfe/.codex/ipc/ipc.sock".to_vec());
    assert_eq!(endpoint(Some(home), None, None), home.to_vec());
}

fn facts() -> EndpointFacts {
    EndpointFacts {
        dir_is_dir: true,
        dir_uid: 501,
        dir_mode: 0o40700,
        socket_is_socket: true,
        socket_uid: 501,
        uid: 501,
    }
}

#[test]
fn endpoint_checks_ownership_and_modes() {
    assert!(check_endpoint("/s", false, true, Some(facts())).is_ok());
    assert!(check_endpoint("/s", true, false, None).is_ok());
    assert!(matches!(check_endpoint("/s", false, false, None), Err(EndpointError::NoParent)));
    let unavailable = check_endpoint("/s", false, true, None).unwrap_err();
    assert_eq!(
        unavailable.message(),
        "Codex Desktop IPC is unavailable at /s. Open Codex Desktop and keep the target task visible."
    );
    let mut writable = facts();
    writable.dir_mode = 0o40720;
    let insecure = check_endpoint("/s", false, true, Some(writable)).unwrap_err();
    assert_eq!(insecure.message(), "Refusing insecure Codex Desktop IPC endpoint /s.");
    let mut foreign = facts();
    foreign.socket_uid = 0;
    assert!(check_endpoint("/s", false, true, Some(foreign)).is_err());
    let mut file = facts();
    file.socket_is_socket = false;
    assert!(check_endpoint("/s", false, true, Some(file)).is_err());
}
