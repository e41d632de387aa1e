//! The clipboard worker's queue.
use kokuban::linux_clipboard::{
    copy_command, paste_command, paste_event, queue_result, serve_step, validate_text_size,
    ClipboardCommand, ClipboardError, ClipboardEvent, LinuxClipboard, Queued, WorkerAction,
    WorkerEvent, COMMAND_CAPACITY, MAX_CLIPBOARD_TEXT_BYTES,
};
use std::sync::mpsc;

fn is_too_large<T>(result: Result<T, ClipboardError>) -> bool {
    matches!(result, Err(ClipboardError::TooLarge))
}

// A clipboard that cannot be opened until `failures` attempts have been made.
struct FakeClipboard {
    text: String,
    failures: usize,
    attempts: usize,
    open: bool,
}

impl FakeClipboard {
    fn new(text: &str) -> Self {
        FakeClipboard { text: text.to_string(), failures: 0, attempts: 0, open: false }
    }

    // Run the worker on a command until it waits for the next one.
    fn serve(&mut self, command: ClipboardCommand) -> ClipboardEvent {
        let mut event = WorkerEvent::Asked(command);
        loop {
            let (open, action) = serve_step(self.open, false, event);
            self.open = open;
            event = match action {
                WorkerAction::Open(command) => {
                    self.attempts += 1;
                    let result = if self.attempts <= self.failures {
                        Err(ClipboardError::Backend("display unavailable".into()))
                    } else {
                        Ok(())
                    };
                    WorkerEvent::Opened { command, result }
                }
                WorkerAction::Write(text) => {
                    self.text = text;
                    WorkerEvent::Written(Ok(()))
                }
                WorkerAction::Read { request_id } => {
                    WorkerEvent::Read { request_id, reply: Ok(self.text.clone()) }
                }
                WorkerAction::Answer(event) => return event,
                WorkerAction::Stop => panic!("the worker is not to stop"),
            };
        }
    }
}

#[test]
fn retains_copy_ownership_and_returns_paste_to_its_request_id() {
    let (sender, receiver) = mpsc::sync_channel(COMMAND_CAPACITY);
    let clipboard = LinuxClipboard::from_sender(sender);
    let mut worker = FakeClipboard::new("");
    clipboard.copy_text("ação 🦀".into()).unwrap();
    assert!(matches!(
        worker.serve(receiver.try_recv().unwrap()),
        ClipboardEvent::CopyFinished(Ok(()))
    ));
    clipboard.request_paste(41).unwrap();
    match worker.serve(receiver.try_recv().unwrap()) {
        ClipboardEvent::Paste {
            request_id: 41,
            result: Ok(text),
        } => {
            assert_eq!(text, "ação 🦀");
        }
        event => panic!("unexpected clipboard event: {event:?}"),
    }
}

#[test]
fn bounds_copied_text_before_enqueue_and_pasted_text_before_callback() {
    let (sender, receiver) = mpsc::sync_channel(COMMAND_CAPACITY);
    let clipboard = LinuxClipboard::from_sender(sender);
    let mut worker = FakeClipboard::new(&"x".repeat(MAX_CLIPBOARD_TEXT_BYTES + 1));
    assert!(is_too_large(
        clipboard.copy_text("x".repeat(MAX_CLIPBOARD_TEXT_BYTES + 1))
    ));
    assert!(receiver.try_recv().is_err(), "a refused text is not queued");
    clipboard.request_paste(42).unwrap();
    assert!(matches!(
        worker.serve(receiver.try_recv().unwrap()),
        ClipboardEvent::Paste {
            request_id: 42,
            result: Err(ClipboardError::TooLarge)
        }
    ));
    clipboard
        .copy_text("x".repeat(MAX_CLIPBOARD_TEXT_BYTES))
        .unwrap();
    assert!(matches!(
        worker.serve(receiver.try_recv().unwrap()),
        ClipboardEvent::CopyFinished(Ok(()))
    ));
}

#[test]
fn unavailable_backend_can_be_retried_without_spawning_more_workers() {
    let (sender, receiver) = mpsc::sync_channel(COMMAND_CAPACITY);
    let clipboard = LinuxClipboard::from_sender(sender);
    let mut worker = FakeClipboard::new("available");
    worker.failures = 1;
    clipboard.request_paste(1).unwrap();
    match worker.serve(receiver.try_recv().unwrap()) {
        ClipboardEvent::Paste {
            request_id: 1,
            result: Err(ClipboardError::Backend(words)),
        } => assert_eq!(words, "display unavailable"),
        event => panic!("unexpected clipboard event: {event:?}"),
    }
    assert!(!worker.open);
    for request_id in [2, 3] {
        clipboard.request_paste(request_id).unwrap();
        match worker.serve(receiver.try_recv().unwrap()) {
            ClipboardEvent::Paste { request_id: answered, result: Ok(text) } => {
                assert_eq!(answered, request_id);
                assert_eq!(text, "available");
            }
            event => panic!("unexpected clipboard event: {event:?}"),
        }
    }
    assert_eq!(worker.attempts, 2, "an open clipboard is kept");
}

#[test]
fn a_worker_that_is_to_stop_starts_and_reports_nothing() {
    let asked = WorkerEvent::Asked(paste_command(1));
    assert!(matches!(serve_step(true, true, asked), (true, WorkerAction::Stop)));
    let read = WorkerEvent::Read { request_id: 1, reply: Ok("late".into()) };
    assert!(matches!(serve_step(true, true, read), (true, WorkerAction::Stop)));
    let written = WorkerEvent::Written(Ok(()));
    assert!(matches!(serve_step(true, true, written), (true, WorkerAction::Stop)));
}

#[test]
fn a_full_or_abandoned_queue_refuses_commands() {
    let (sender, receiver) = mpsc::sync_channel(COMMAND_CAPACITY);
    let clipboard = LinuxClipboard::from_sender(sender);
    for _ in 0..COMMAND_CAPACITY {
        clipboard.copy_text("queued".into()).unwrap();
    }
    assert!(matches!(clipboard.request_paste(2), Err(ClipboardError::Busy)));
    drop(receiver);
    assert!(matches!(clipboard.request_paste(3), Err(ClipboardError::Unavailable)));
    assert!(matches!(
        clipboard.offer(paste_command(4)),
        Queued::Disconnected(ClipboardCommand::Paste(4))
    ));
    assert!(queue_result(Queued::Sent).is_ok());
    assert!(matches!(
        queue_result(Queued::Full(paste_command(5))),
        Err(ClipboardError::Busy)
    ));
}

#[test]
fn commands_carry_the_text_and_errors_have_words() {
    assert!(matches!(paste_command(7), ClipboardCommand::Paste(7)));
    match paste_event(8, Ok("text".into())) {
        ClipboardEvent::Paste { request_id: 8, result: Ok(text) } => assert_eq!(text, "text"),
        event => panic!("unexpected clipboard event: {event:?}"),
    }
    match copy_command("日本".into()) {
        Ok(ClipboardCommand::Copy(text)) => assert_eq!(text, "日本"),
        other => panic!("unexpected command: {other:?}"),
    }
    assert!(is_too_large(copy_command("x".repeat(MAX_CLIPBOARD_TEXT_BYTES + 1))));
    assert!(validate_text_size("").is_ok());
    assert_eq!(ClipboardError::Busy.message(), "clipboard worker queue is full");
    assert_eq!(ClipboardError::Unavailable.message(), "clipboard worker is unavailable");
    assert_eq!(
        ClipboardError::TooLarge.message(),
        "clipboard text exceeds the one MiB limit"
    );
    assert_eq!(
        ClipboardError::Backend("no display".into()).message(),
        "clipboard backend failed: no display"
    );
}
