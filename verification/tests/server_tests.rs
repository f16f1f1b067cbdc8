use scs::config::Config;
use scs::server::FrameError;
use scs::server::frame_payload;

#[test]
fn frame_extracts_secrets_line() {
    let frame = b"GET /secrets\n[\"a,b\"]\r\n".to_vec();
    let payload = frame_payload(&frame).unwrap();
    assert_eq!(payload, b"[\"a,b\"]".to_vec());
}

#[test]
fn frame_missing_get() {
    let frame = b"PUT /secrets\nx\r\n".to_vec();
    let r = frame_payload(&frame);
    assert_eq!(r, Err(FrameError::MissingGet));
    assert_eq!(FrameError::MissingGet.message(), "missing GET");
}

#[test]
fn frame_missing_crlf() {
    let frame = b"GET /secrets\nx".to_vec();
    let r = frame_payload(&frame);
    assert_eq!(r, Err(FrameError::MissingCrlf));
    assert_eq!(FrameError::MissingCrlf.message(), "missing \\r\\n");
}

#[test]
fn frame_missing_payload_line() {
    let frame = b"GET /secrets\r\n".to_vec();
    let r = frame_payload(&frame);
    assert_eq!(r, Err(FrameError::MissingPayload));
    assert_eq!(FrameError::MissingPayload.message(), "missing payload line");
}

#[test]
fn save_path_default_rule() {
    let resolved = Config::resolve_save_path("default".to_string(), "/data/local".to_string());
    assert_eq!(resolved, "/data/local");
    let kept = Config::resolve_save_path("/my/dir".to_string(), "/data/local".to_string());
    assert_eq!(kept, "/my/dir");
}
