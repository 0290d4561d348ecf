//! Drives one real shell session through the library, with the pump
//! loops run inline: write queue in, coalesced burst to the pty,
//! chunks out through the reader step, rebuilt at the consumer end.

use portable_pty::{native_pty_system, CommandBuilder, PtySize};
use pty_sessions::pump::{coalesce, reader_step, rebuild_output, PtyRead, ReaderAction};
use pty_sessions::registry::{PtyInstance, PtyState};
use std::io::{Read, Write};

#[test]
fn shell_session_round_trip() {
    let mut state: PtyState<()> = PtyState::new();
    let id = state.issue_id().unwrap();

    let pty = native_pty_system();
    let pair = pty
        .openpty(PtySize { rows: 24, cols: 80, pixel_width: 0, pixel_height: 0 })
        .unwrap();
    let mut cmd = CommandBuilder::new("/bin/sh");
    cmd.env("TERM", "xterm-256color");
    let mut child = pair.slave.spawn_command(cmd).unwrap();
    drop(pair.slave);
    let mut reader = pair.master.try_clone_reader().unwrap();
    let mut writer = pair.master.take_writer().unwrap();

    let (tx, rx) = std::sync::mpsc::channel::<Vec<u8>>();
    state.register(id.clone(), PtyInstance { write_tx: tx, extra: () }).unwrap();

    state.write(&id, b"echo hi_there\n".to_vec()).unwrap();
    state.write(&id, b"exit\n".to_vec()).unwrap();

    // One writer-pump round, run inline: drain the queue, coalesce,
    // one burst, one flush.
    let mut bufs: Vec<Vec<u8>> = Vec::new();
    while let Ok(b) = rx.try_recv() {
        bufs.push(b);
    }
    assert_eq!(bufs.len(), 2);
    let burst = coalesce(bufs);
    assert_eq!(burst, b"echo hi_there\nexit\n".to_vec());
    writer.write_all(&burst).unwrap();
    writer.flush().unwrap();

    // The reader pump, run inline until the stream ends.
    let mut payloads: Vec<String> = Vec::new();
    let mut exited = false;
    let mut buf = [0u8; 4096];
    while !exited {
        let ev = match reader.read(&mut buf) {
            Ok(0) => PtyRead::Eof,
            Ok(n) => PtyRead::Data(buf[..n].to_vec()),
            Err(_) => PtyRead::ReadFailed,
        };
        match reader_step(&id, ev) {
            ReaderAction::Emit { topic, payload } => {
                assert_eq!(topic, format!("pty:{}:data", id));
                payloads.push(payload);
            }
            ReaderAction::Stop { topic } => {
                assert_eq!(topic, format!("pty:{}:exit", id));
                exited = true;
            }
        }
    }
    child.wait().unwrap();

    // Byte-exactness at the consumer end: the decoded, concatenated
    // payloads are the pty's output, which carries the echoed text.
    let bytes = rebuild_output(&payloads).unwrap();
    let text = String::from_utf8_lossy(&bytes).to_string();
    assert!(text.contains("hi_there"), "output was: {:?}", text);

    // The exit event left the registry entry in place; only an
    // explicit kill removes it.
    assert!(state.contains(&id));
    let _resources = state.remove(&id).unwrap();
    assert_eq!(
        state.write(&id, b"x".to_vec()).unwrap_err(),
        format!("PTY not found: {}", id)
    );
}
