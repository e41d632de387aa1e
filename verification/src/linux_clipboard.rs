//! The clipboard worker's queue and the limits on what passes through it.
use std::sync::mpsc::{SyncSender, TrySendError};
use vstd::prelude::*;
use vstd::utf8::encode_utf8;

verus! {

pub const MAX_CLIPBOARD_TEXT_BYTES: usize = 1024 * 1024;

/// The most commands that wait for the worker.
pub const COMMAND_CAPACITY: usize = 4;

#[derive(Debug)]
pub enum ClipboardError {
    Busy,
    Unavailable,
    TooLarge,
    Backend(String),
}

#[derive(Debug)]
pub enum ClipboardEvent {
    Paste { request_id: u64, result: Result<String, ClipboardError> },
    CopyFinished(Result<(), ClipboardError>),
}

#[derive(Debug)]
pub enum ClipboardCommand {
    Copy(String),
    Paste(u64),
}

/// The sending half of a bounded channel, `std::sync::mpsc::SyncSender`.
#[verifier::external_type_specification]
#[verifier::external_body]
#[verifier::reject_recursive_types(T)]
pub struct ExSyncSender<T>(SyncSender<T>);

/// How a command got into the worker's queue, or why it did not. A command that
/// was refused comes back.
#[derive(Debug)]
pub enum Queued {
    Sent,
    Full(ClipboardCommand),
    Disconnected(ClipboardCommand),
}

impl Queued {
    /// The command that was refused.
    pub open spec fn refused(self) -> Option<ClipboardCommand> {
        match self {
            Queued::Sent => None,
            Queued::Full(command) => Some(command),
            Queued::Disconnected(command) => Some(command),
        }
    }
}

/// `std::sync::mpsc::SyncSender::try_send` never waits, and hands back a value
/// that it does not send. Which of its outcomes comes depends on what the worker
/// has received, so that is not stated.
#[verifier::external_body]
fn try_send(commands: &SyncSender<ClipboardCommand>, command: ClipboardCommand) -> (r: Queued)
    ensures
        r.refused() is Some ==> r.refused() == Some(command),
{
    match commands.try_send(command) {
        Ok(()) => Queued::Sent,
        Err(TrySendError::Full(command)) => Queued::Full(command),
        Err(TrySendError::Disconnected(command)) => Queued::Disconnected(command),
    }
}

/// The text is small enough to pass.
pub open spec fn text_fits(text: Seq<char>) -> bool {
    encode_utf8(text).len() <= MAX_CLIPBOARD_TEXT_BYTES
}

pub fn validate_text_size(text: &str) -> (r: Result<(), ClipboardError>)
    ensures
        r is Ok <==> text_fits(text@),
        r is Err ==> r->Err_0 is TooLarge,
{
    if text.as_bytes().len() > MAX_CLIPBOARD_TEXT_BYTES {
        Err(ClipboardError::TooLarge)
    } else {
        Ok(())
    }
}

/// What a queueing outcome is reported as.
pub fn queue_result(queued: Queued) -> (r: Result<(), ClipboardError>)
    ensures
        r is Ok <==> queued is Sent,
        queued is Full ==> r is Err && r->Err_0 is Busy,
        queued is Disconnected ==> r is Err && r->Err_0 is Unavailable,
{
    match queued {
        Queued::Sent => Ok(()),
        Queued::Full(_) => Err(ClipboardError::Busy),
        Queued::Disconnected(_) => Err(ClipboardError::Unavailable),
    }
}

/// The event for a paste that the backend has answered. A text beyond the limit
/// goes no further.
pub open spec fn paste_answer(
    request_id: u64,
    reply: Result<String, ClipboardError>,
) -> ClipboardEvent {
    ClipboardEvent::Paste {
        request_id,
        result: match reply {
            Ok(text) => if text_fits(text@) { Ok(text) } else { Err(ClipboardError::TooLarge) },
            Err(error) => Err(error),
        },
    }
}

pub fn paste_event(request_id: u64, reply: Result<String, ClipboardError>) -> (r: ClipboardEvent)
    ensures
        r == paste_answer(request_id, reply),
{
    let result: Result<String, ClipboardError> = match reply {
        Ok(text) => match validate_text_size(text.as_str()) {
            Ok(()) => Ok(text),
            Err(error) => Err(error),
        },
        Err(error) => Err(error),
    };
    ClipboardEvent::Paste { request_id, result }
}

/// The way to the clipboard worker.
pub struct LinuxClipboard {
    commands: SyncSender<ClipboardCommand>,
}

/// The command that asks the worker to copy a text, unless the text exceeds
/// the limit.
pub fn copy_command(text: String) -> (r: Result<ClipboardCommand, ClipboardError>)
    ensures
        text_fits(text@) ==> r == Ok::<ClipboardCommand, ClipboardError>(
            ClipboardCommand::Copy(text),
        ),
        !text_fits(text@) ==> r is Err && r->Err_0 is TooLarge,
{
    match validate_text_size(text.as_str()) {
        Ok(()) => Ok(ClipboardCommand::Copy(text)),
        Err(error) => Err(error),
    }
}

/// The command that asks the worker for the clipboard text. The request comes
/// back with the text.
pub fn paste_command(request_id: u64) -> (r: ClipboardCommand)
    ensures
        r == ClipboardCommand::Paste(request_id),
{
    ClipboardCommand::Paste(request_id)
}

impl LinuxClipboard {
    /// The queue of the worker.
    pub closed spec fn queue(self) -> SyncSender<ClipboardCommand> {
        self.commands
    }

    pub fn from_sender(commands: SyncSender<ClipboardCommand>) -> (r: LinuxClipboard)
        ensures
            r.queue() == commands,
    {
        LinuxClipboard { commands }
    }

    /// Ask the worker to copy a text. A text beyond the limit is not queued.
    pub fn copy_text(&self, text: String) -> (r: Result<(), ClipboardError>)
        ensures
            r is Err && r->Err_0 is TooLarge <==> !text_fits(text@),
            r is Err ==> !(r->Err_0 is Backend),
    {
        match copy_command(text) {
            Ok(command) => self.enqueue(command),
            Err(error) => Err(error),
        }
    }

    /// Ask the worker for the clipboard text: what is queued is the command of
    /// `paste_command`. The request comes back with the result, so that a stale
    /// one can be told.
    pub fn request_paste(&self, request_id: u64) -> (r: Result<(), ClipboardError>)
        ensures
            r is Err ==> r->Err_0 is Busy || r->Err_0 is Unavailable,
    {
        self.enqueue(paste_command(request_id))
    }

    /// Hand a command to the worker without waiting. A command that is refused
    /// comes back as it was.
    pub fn offer(&self, command: ClipboardCommand) -> (r: Queued)
        ensures
            r.refused() is Some ==> r.refused() == Some(command),
    {
        try_send(&self.commands, command)
    }

    fn enqueue(&self, command: ClipboardCommand) -> (r: Result<(), ClipboardError>)
        ensures
            r is Err ==> r->Err_0 is Busy || r->Err_0 is Unavailable,
    {
        queue_result(self.offer(command))
    }
}

/// What happens to the worker.
#[derive(Debug)]
pub enum WorkerEvent {
    /// A command came out of the queue.
    Asked(ClipboardCommand),
    /// The clipboard was opened for a command, or could not be.
    Opened { command: ClipboardCommand, result: Result<(), ClipboardError> },
    /// A text was written to the clipboard, or could not be.
    Written(Result<(), ClipboardError>),
    /// The clipboard was read for a request, or could not be.
    Read { request_id: u64, reply: Result<String, ClipboardError> },
}

/// What the worker does next.
#[derive(Debug)]
pub enum WorkerAction {
    /// Open the clipboard, and go on with the command.
    Open(ClipboardCommand),
    Write(String),
    Read { request_id: u64 },
    /// Report an event, and wait for the next command.
    Answer(ClipboardEvent),
    /// End, with all commands that still wait.
    Stop,
}

/// A command on an open clipboard.
pub open spec fn performed(command: ClipboardCommand) -> WorkerAction {
    match command {
        ClipboardCommand::Copy(text) => WorkerAction::Write(text),
        ClipboardCommand::Paste(request_id) => WorkerAction::Read { request_id },
    }
}

/// The event for a command that found no clipboard.
pub open spec fn refusal(command: ClipboardCommand, error: ClipboardError) -> ClipboardEvent {
    match command {
        ClipboardCommand::Copy(_) => ClipboardEvent::CopyFinished(Err(error)),
        ClipboardCommand::Paste(request_id) => ClipboardEvent::Paste {
            request_id,
            result: Err(error),
        },
    }
}

/// Whether the clipboard is open after an event, and what comes next. It is
/// opened when the first command needs it and stays open, so that what was
/// copied stays available; where it cannot be opened, the next command tries
/// again. A worker that is to stop starts no command and reports nothing.
pub open spec fn worker_step(open: bool, stopped: bool, event: WorkerEvent) -> (
    bool,
    WorkerAction,
) {
    match event {
        WorkerEvent::Asked(command) => if stopped {
            (open, WorkerAction::Stop)
        } else if open {
            (open, performed(command))
        } else {
            (open, WorkerAction::Open(command))
        },
        WorkerEvent::Opened { command, result } => match result {
            Ok(_) => (true, performed(command)),
            Err(error) => (
                false,
                if stopped {
                    WorkerAction::Stop
                } else {
                    WorkerAction::Answer(refusal(command, error))
                },
            ),
        },
        WorkerEvent::Written(result) => (
            open,
            if stopped {
                WorkerAction::Stop
            } else {
                WorkerAction::Answer(ClipboardEvent::CopyFinished(result))
            },
        ),
        WorkerEvent::Read { request_id, reply } => (
            open,
            if stopped {
                WorkerAction::Stop
            } else {
                WorkerAction::Answer(paste_answer(request_id, reply))
            },
        ),
    }
}

fn perform(command: ClipboardCommand) -> (r: WorkerAction)
    ensures
        r == performed(command),
{
    match command {
        ClipboardCommand::Copy(text) => WorkerAction::Write(text),
        ClipboardCommand::Paste(request_id) => WorkerAction::Read { request_id },
    }
}

/// One step of the clipboard worker.
pub fn serve_step(open: bool, stopped: bool, event: WorkerEvent) -> (r: (bool, WorkerAction))
    ensures
        r == worker_step(open, stopped, event),
{
    match event {
        WorkerEvent::Asked(command) => if stopped {
            (open, WorkerAction::Stop)
        } else if open {
            (open, perform(command))
        } else {
            (open, WorkerAction::Open(command))
        },
        WorkerEvent::Opened { command, result } => match result {
            Ok(_) => (true, perform(command)),
            Err(error) => if stopped {
                (false, WorkerAction::Stop)
            } else {
                let answer: ClipboardEvent = match command {
                    ClipboardCommand::Copy(_) => ClipboardEvent::CopyFinished(Err(error)),
                    ClipboardCommand::Paste(request_id) => ClipboardEvent::Paste {
                        request_id,
                        result: Err(error),
                    },
                };
                (false, WorkerAction::Answer(answer))
            },
        },
        WorkerEvent::Written(result) => if stopped {
            (open, WorkerAction::Stop)
        } else {
            (open, WorkerAction::Answer(ClipboardEvent::CopyFinished(result)))
        },
        WorkerEvent::Read { request_id, reply } => if stopped {
            (open, WorkerAction::Stop)
        } else {
            (open, WorkerAction::Answer(paste_event(request_id, reply)))
        },
    }
}

/// The steps that a running worker takes for one command, with what the
/// clipboard answers to each of them: whether it is open then, and the event.
pub open spec fn served(
    open: bool,
    command: ClipboardCommand,
    opened: Result<(), ClipboardError>,
    written: Result<(), ClipboardError>,
    reply: Result<String, ClipboardError>,
) -> (bool, WorkerAction) {
    let (ready, first) = worker_step(open, false, WorkerEvent::Asked(command));
    let (ready, next) = match first {
        WorkerAction::Open(command) => worker_step(
            ready,
            false,
            WorkerEvent::Opened { command, result: opened },
        ),
        action => (ready, action),
    };
    match next {
        WorkerAction::Write(_) => worker_step(ready, false, WorkerEvent::Written(written)),
        WorkerAction::Read { request_id } => worker_step(
            ready,
            false,
            WorkerEvent::Read { request_id, reply },
        ),
        action => (ready, action),
    }
}

/// Every command is answered by exactly one event, a paste by one with its own
/// request. The clipboard is opened at most once, and a clipboard that could not
/// be opened is tried again with the next command.
pub proof fn law_every_command_is_answered(
    open: bool,
    command: ClipboardCommand,
    opened: Result<(), ClipboardError>,
    written: Result<(), ClipboardError>,
    reply: Result<String, ClipboardError>,
)
    ensures
        ({
            let (after, action) = served(open, command, opened, written, reply);
            &&& after == (open || opened is Ok)
            &&& action is Answer
            &&& match command {
                ClipboardCommand::Copy(_) => action->Answer_0 == ClipboardEvent::CopyFinished(
                    match opened {
                        Err(error) if !open => Err(error),
                        _ => written,
                    },
                ),
                ClipboardCommand::Paste(request_id) => action->Answer_0 == match opened {
                    Err(error) if !open => ClipboardEvent::Paste {
                        request_id,
                        result: Err(error),
                    },
                    _ => paste_answer(request_id, reply),
                },
            }
        }),
        open ==> !(worker_step(open, false, WorkerEvent::Asked(command)).1 is Open),
{
}

/// A worker that is to stop starts no further command and reports nothing.
pub proof fn law_stopped_worker_is_silent(open: bool, event: WorkerEvent)
    ensures
        !(worker_step(open, true, event).1 is Answer),
        event is Asked ==> worker_step(open, true, event).1 is Stop,
{
}

impl ClipboardError {
    /// The message, to which a backend adds its own words.
    pub fn message(&self) -> (r: String)
        ensures
            r@ == (match self {
                ClipboardError::Busy => "clipboard worker queue is full"@,
                ClipboardError::Unavailable => "clipboard worker is unavailable"@,
                ClipboardError::TooLarge => "clipboard text exceeds the one MiB limit"@,
                ClipboardError::Backend(words) => "clipboard backend failed: "@ + words@,
            }),
    {
        match self {
            ClipboardError::Busy => "clipboard worker queue is full".to_owned(),
            ClipboardError::Unavailable => "clipboard worker is unavailable".to_owned(),
            ClipboardError::TooLarge => "clipboard text exceeds the one MiB limit".to_owned(),
            ClipboardError::Backend(words) => {
                let mut message: Vec<char> = crate::text::chars_of("clipboard backend failed: ");
                let mut more: Vec<char> = crate::text::chars_of(words.as_str());
                message.append(&mut more);
                crate::text::string_of(&message)
            },
        }
    }
}

} // verus!
