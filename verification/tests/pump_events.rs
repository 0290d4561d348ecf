use pty_sessions::messages::{not_found_msg, resize_failed_msg, write_failed_msg};
use pty_sessions::pump::{
    coalesce, data_topic, exit_topic, reader_step, rebuild_output, PtyRead, ReaderAction,
};

#[test]
fn topics_carry_the_session_id() {
    assert_eq!(data_topic("abc"), "pty:abc:data");
    assert_eq!(exit_topic("abc"), "pty:abc:exit");
}

#[test]
fn message_builders_match_the_reported_forms() {
    assert_eq!(not_found_msg("S1"), "PTY not found: S1");
    assert_eq!(write_failed_msg("boom"), "Write failed: boom");
    assert_eq!(resize_failed_msg("boom"), "Resize failed: boom");
}

#[test]
fn a_chunk_becomes_a_data_event_with_its_base64_payload() {
    match reader_step("S1", PtyRead::Data(b"hi\n".to_vec())) {
        ReaderAction::Emit { topic, payload } => {
            assert_eq!(topic, "pty:S1:data");
            assert_eq!(payload, "aGkK");
        }
        _ => panic!("a chunk must emit a data event"),
    }
}

#[test]
fn payloads_agree_with_the_base64_crate() {
    let chunk = b"some terminal output \x1b[1m with escapes".to_vec();
    let expected = base64::Engine::encode(&base64::engine::general_purpose::STANDARD, &chunk);
    match reader_step("S1", PtyRead::Data(chunk)) {
        ReaderAction::Emit { payload, .. } => assert_eq!(payload, expected),
        _ => panic!("a chunk must emit a data event"),
    }
}

#[test]
fn eof_and_read_failure_both_emit_the_exit_event() {
    match reader_step("S9", PtyRead::Eof) {
        ReaderAction::Stop { topic } => assert_eq!(topic, "pty:S9:exit"),
        _ => panic!("eof must stop the pump"),
    }
    match reader_step("S9", PtyRead::ReadFailed) {
        ReaderAction::Stop { topic } => assert_eq!(topic, "pty:S9:exit"),
        _ => panic!("a failed read must stop the pump"),
    }
}

#[test]
fn coalesce_concatenates_buffers_in_submission_order() {
    let bufs = vec![b"ab".to_vec(), Vec::new(), b"cd".to_vec(), b"e".to_vec()];
    assert_eq!(coalesce(bufs), b"abcde".to_vec());
    assert_eq!(coalesce(Vec::new()), Vec::<u8>::new());
}

#[test]
fn rebuild_output_round_trips_the_data_stream() {
    let chunks: Vec<Vec<u8>> = vec![b"hi\n".to_vec(), b"!".to_vec(), b"\x00\xff".to_vec()];
    let mut payloads = Vec::new();
    for c in &chunks {
        match reader_step("S1", PtyRead::Data(c.clone())) {
            ReaderAction::Emit { payload, .. } => payloads.push(payload),
            _ => panic!("a chunk must emit a data event"),
        }
    }
    let rebuilt = rebuild_output(&payloads).unwrap();
    let flat: Vec<u8> = chunks.concat();
    assert_eq!(rebuilt, flat);
}

#[test]
fn rebuild_output_rejects_a_corrupt_payload() {
    let payloads = vec!["aGkK".to_string(), "???".to_string()];
    assert!(rebuild_output(&payloads).is_none());
    assert_eq!(rebuild_output(&Vec::new()), Some(Vec::new()));
}
