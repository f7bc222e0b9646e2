use amorfly_ai::models::{engine_http_error, read_pull_line, remaining_bytes, should_emit, take_lines, PullEvent, PullMeter};

#[test]
fn complete_lines_are_taken_and_the_rest_stays() {
    let mut buf = b"{\"a\":1}\n{\"b\":2}\n{\"c\"".to_vec();
    let lines = take_lines(&mut buf);
    assert_eq!(lines, vec![b"{\"a\":1}\n".to_vec(), b"{\"b\":2}\n".to_vec()]);
    assert_eq!(buf, b"{\"c\"".to_vec());
    buf.extend_from_slice(b":3}\n");
    let lines = take_lines(&mut buf);
    assert_eq!(lines, vec![b"{\"c\":3}\n".to_vec()]);
    assert!(buf.is_empty());
}

#[test]
fn nothing_is_taken_without_a_line_feed() {
    let mut buf = b"partial".to_vec();
    assert!(take_lines(&mut buf).is_empty());
    assert_eq!(buf, b"partial".to_vec());
}

#[test]
fn progress_lines_are_read() {
    let e = read_pull_line(&b"{\"status\":\"pulling abc\",\"digest\":\"sha256:1\",\"total\":100,\"completed\":40}\n".to_vec());
    match e {
        Some(PullEvent::Progress { status, digest, total, completed, done }) => {
            assert_eq!(status, "pulling abc");
            assert_eq!(digest.as_deref(), Some("sha256:1"));
            assert_eq!((total, completed, done), (100, 40, false));
        }
        _ => panic!("progress expected"),
    }
    match read_pull_line(&b"{\"status\":\"success\"}\n".to_vec()) {
        Some(PullEvent::Progress { done, total, completed, digest, .. }) => {
            assert!(done);
            assert_eq!((total, completed), (0, 0));
            assert_eq!(digest, None);
        }
        _ => panic!("final event expected"),
    }
}

#[test]
fn error_lines_and_noise() {
    match read_pull_line(&b"{\"error\":\"pull model manifest: file does not exist\"}\n".to_vec()) {
        Some(PullEvent::Failed { message }) => assert_eq!(message, "pull model manifest: file does not exist"),
        _ => panic!("error expected"),
    }
    assert!(read_pull_line(&b"   \n".to_vec()).is_none());
    assert!(read_pull_line(&b"{\"status\":".to_vec()).is_none());
}

#[test]
fn the_window_restarts_on_a_new_layer() {
    let mut m = PullMeter::new();
    assert!(m.switch_layer(&Some("d1".to_string()), 0));
    assert!(!m.switch_layer(&Some("d1".to_string()), 10));
    assert_eq!(m.sample(500, 200), None);
    assert_eq!(m.sample(500, 300), Some(500));
    assert_eq!(m.window_start_bytes, 500);
    assert_eq!(m.sample(500, 900), None);
    assert!(m.switch_layer(&Some("d2".to_string()), 7));
    assert_eq!(m.window_start_bytes, 7);
    assert!(m.switch_layer(&None, 0));
}

#[test]
fn remaining_and_throttle() {
    assert_eq!(remaining_bytes(100, 40), Some(60));
    assert_eq!(remaining_bytes(100, 100), None);
    assert!(should_emit(true, 0));
    assert!(!should_emit(false, 249));
    assert!(should_emit(false, 250));
    assert_eq!(engine_http_error("404 Not Found", "no"), "Ollama hata döndürdü (404 Not Found): no");
}
