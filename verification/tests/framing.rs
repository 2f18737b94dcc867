use kercat::framing::{receive_step, ReceiveOutcome, DEFAULT_DELIMITER};

#[test]
fn round_trip_two_frames() {
    let first = receive_step(Vec::new(), b"hello\n", DEFAULT_DELIMITER);
    assert_eq!(first, ReceiveOutcome::Frame(b"hello\n".to_vec()));
    let second = receive_step(Vec::new(), b"world\n", DEFAULT_DELIMITER);
    assert_eq!(second, ReceiveOutcome::Frame(b"world\n".to_vec()));
}

#[test]
fn frame_accumulates_across_reads() {
    let partial = receive_step(Vec::new(), b"hel", DEFAULT_DELIMITER);
    let pending = match partial {
        ReceiveOutcome::NeedMore(p) => p,
        other => panic!("expected more data to be needed, got {:?}", other),
    };
    assert_eq!(pending, b"hel".to_vec());
    let done = receive_step(pending, b"lo\n", DEFAULT_DELIMITER);
    assert_eq!(done, ReceiveOutcome::Frame(b"hello\n".to_vec()));
}

#[test]
fn peer_close_detected_not_empty_success() {
    let r = receive_step(Vec::new(), b"", DEFAULT_DELIMITER);
    assert_eq!(r, ReceiveOutcome::PeerClosed);
}

#[test]
fn peer_close_discards_partial_data() {
    let partial = receive_step(Vec::new(), b"no delimiter yet", DEFAULT_DELIMITER);
    let pending = match partial {
        ReceiveOutcome::NeedMore(p) => p,
        other => panic!("expected more data to be needed, got {:?}", other),
    };
    let r = receive_step(pending, b"", DEFAULT_DELIMITER);
    assert_eq!(r, ReceiveOutcome::PeerClosed);
}

#[test]
fn frame_includes_delimiter_and_tail() {
    let r = receive_step(Vec::new(), b"a\nb", DEFAULT_DELIMITER);
    assert_eq!(r, ReceiveOutcome::Frame(b"a\nb".to_vec()));
}

#[test]
fn custom_delimiter() {
    let r = receive_step(Vec::new(), b"head;", b';');
    assert_eq!(r, ReceiveOutcome::Frame(b"head;".to_vec()));
    let r = receive_step(Vec::new(), b"head\n", b';');
    assert_eq!(r, ReceiveOutcome::NeedMore(b"head\n".to_vec()));
}
