//! The local shell session.

use matcha::context::ShellProfile;
use matcha::pty::{
    exit_event, launch_plan, queue_input, read_step, to_pty_size, write_result, PtyDimensions,
    PtyError, ReadOutcome, ReadStep, SendOutcome, SessionEvent, WriteBatch, WRITE_BATCH_BYTES,
};
use matcha::terminal::model::{AlacrittyTerminal, TerminalModel};
use matcha::terminal::types::{TerminalAction, TerminalSize};

#[test]
fn sizes_are_clamped_to_the_protocol() {
    assert_eq!(
        to_pty_size(TerminalSize::new(80, 24)),
        PtyDimensions { rows: 24, cols: 80, pixel_width: 0, pixel_height: 0 }
    );
    let large = to_pty_size(TerminalSize::new(65_536, usize::MAX));
    assert_eq!((large.cols, large.rows), (65_535, 65_535));
    assert_eq!(to_pty_size(TerminalSize::new(65_535, 0)).cols, 65_535);
}

#[test]
fn shells_see_a_terminal_with_full_colors() {
    let shell = ShellProfile {
        program: "/bin/bash".into(),
        args: vec!["-l".into(), "-i".into()],
        cwd: Some("/tmp".into()),
    };
    let plan = launch_plan(&shell);
    assert_eq!(plan.program, "/bin/bash");
    assert_eq!(plan.args, shell.args);
    assert_eq!(plan.cwd.as_deref(), Some("/tmp"));
    assert_eq!(
        plan.environment,
        vec![
            ("TERM".to_owned(), "xterm-256color".to_owned()),
            ("COLORTERM".to_owned(), "truecolor".to_owned()),
        ]
    );
}

#[test]
fn exits_are_reported() {
    assert_eq!(
        exit_event(Ok((3, Some("KILL".into())))),
        SessionEvent::Exited { code: 3, signal: Some("KILL".into()) }
    );
    assert_eq!(exit_event(Err("lost".into())), SessionEvent::ReadFailed("lost".into()));
}

#[test]
fn batches_keep_every_byte() {
    let mut batch = WriteBatch::new(b"ab".to_vec());
    assert!(batch.wants_more());
    batch.push(b"");
    batch.push(b"cd");
    batch.push(&vec![b'x'; WRITE_BATCH_BYTES]);
    assert!(!batch.wants_more());
    let bytes = batch.into_bytes();
    assert_eq!(&bytes[..5], b"abcdx");
    assert_eq!(bytes.len(), WRITE_BATCH_BYTES + 4);
}

#[test]
fn output_reaches_the_terminal_and_replies_come_back() {
    let mut terminal = AlacrittyTerminal::new(TerminalSize::new(20, 3));
    let step = read_step(&mut terminal, ReadOutcome::Bytes(b"hi\x1b[6n".to_vec()));
    assert_eq!(step, ReadStep::Continue { responses: vec![b"\x1b[1;3R".to_vec()] });
    assert_eq!(terminal.visible_text(), "hi");
    read_step(&mut terminal, ReadOutcome::Bytes(b"\x1b]0;name\x07\x1b[6n".to_vec()));
    let left = terminal.drain_actions();
    assert_eq!(left.len(), 1);
    assert!(matches!(&left[0], TerminalAction::Title(title) if title == "name"));
    assert_eq!(read_step(&mut terminal, ReadOutcome::Closed), ReadStep::Stop(None));
    assert_eq!(
        read_step(&mut terminal, ReadOutcome::Failed("eof".into())),
        ReadStep::Stop(Some(SessionEvent::ReadFailed("eof".into())))
    );
}

#[test]
fn full_and_closed_queues_refuse_input() {
    assert_eq!(write_result(SendOutcome::Queued), Ok(()));
    assert_eq!(write_result(SendOutcome::Full), Err(PtyError::InputBackpressure));
    assert_eq!(write_result(SendOutcome::Disconnected), Err(PtyError::InputClosed));
    let (mut sender, receiver) = crossbeam_channel::bounded(2);
    assert_eq!(queue_input(&mut sender, vec![1, 2]), Ok(()));
    assert_eq!(queue_input(&mut sender, vec![3]), Ok(()));
    assert_eq!(queue_input(&mut sender, vec![4]), Err(PtyError::InputBackpressure));
    assert_eq!(receiver.try_iter().collect::<Vec<_>>(), vec![vec![1, 2], vec![3]]);
    drop(receiver);
    assert_eq!(queue_input(&mut sender, vec![5]), Err(PtyError::InputClosed));
}

#[test]
fn session_errors_are_explained() {
    let texts = [
        (PtyError::Open("x".into()), "failed to open local PTY: x"),
        (PtyError::CloneReader("x".into()), "failed to clone PTY reader: x"),
        (PtyError::Writer("x".into()), "failed to acquire PTY writer: x"),
        (PtyError::Spawn("x".into()), "failed to spawn shell: x"),
        (
            PtyError::SpawnThread { name: "PTY child".into(), source: "x".into() },
            "failed to spawn PTY child thread: x",
        ),
        (PtyError::InputClosed, "terminal input channel is closed"),
        (PtyError::InputBackpressure, "terminal input queue is full"),
        (PtyError::Resize("x".into()), "failed to resize PTY: x"),
        (PtyError::Terminate("x".into()), "failed to terminate shell: x"),
    ];
    for (error, text) in texts {
        assert_eq!(error.message(), text);
    }
}
