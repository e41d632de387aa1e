//! How the threads around the terminal end, and what becomes of it.
use crate::text::{joined_text, string_of};
use vstd::prelude::*;

verus! {

/// Why the thread that reads program output ended; errors come with the words
/// of the operating system.
#[derive(Debug)]
pub enum ReaderExit {
    Shutdown,
    Eof,
    WaitFailed(String),
    ReadFailed(String),
    ResponseWriteFailed(String),
    GridPoisoned,
    DecoderStalled,
    UnexpectedProtocolEvent,
}

/// Why the thread that writes program input ended.
#[derive(Debug)]
pub enum WriterExit {
    Shutdown,
    ChannelClosed,
    WriteFailed(String),
}

#[derive(Debug, Clone, PartialEq, Eq)]
pub enum ReaderStatus {
    Normal,
    Failed(String),
}

#[derive(Debug, Clone, PartialEq, Eq)]
pub enum WriterStatus {
    Normal,
    Failed(String),
}

/// The words for a reader that failed; none for one that was asked to stop or
/// whose program ended.
pub open spec fn reader_failure(exit: ReaderExit) -> Option<Seq<char>> {
    match exit {
        ReaderExit::Shutdown | ReaderExit::Eof => None,
        ReaderExit::WaitFailed(error) => Some(
            "terminal reader could not wait for PTY output: "@ + error@,
        ),
        ReaderExit::ReadFailed(error) => Some(
            "terminal reader could not read PTY output: "@ + error@,
        ),
        ReaderExit::ResponseWriteFailed(error) => Some(
            "terminal reader could not write a protocol response: "@ + error@,
        ),
        ReaderExit::GridPoisoned => Some("terminal reader lost access to the terminal grid"@),
        ReaderExit::DecoderStalled => Some("terminal decoder stopped making progress"@),
        ReaderExit::UnexpectedProtocolEvent => Some(
            "terminal reader received a graphics event in text-only mode"@,
        ),
    }
}

impl ReaderStatus {
    pub open spec fn failure(self) -> Option<Seq<char>> {
        match self {
            ReaderStatus::Normal => None,
            ReaderStatus::Failed(error) => Some(error@),
        }
    }
}

pub fn classify_reader_exit(exit: &ReaderExit) -> (r: ReaderStatus)
    ensures
        r.failure() == reader_failure(*exit),
{
    match exit {
        ReaderExit::Shutdown => ReaderStatus::Normal,
        ReaderExit::Eof => ReaderStatus::Normal,
        ReaderExit::WaitFailed(error) => ReaderStatus::Failed(
            joined_text("terminal reader could not wait for PTY output: ", error.as_str()),
        ),
        ReaderExit::ReadFailed(error) => ReaderStatus::Failed(
            joined_text("terminal reader could not read PTY output: ", error.as_str()),
        ),
        ReaderExit::ResponseWriteFailed(error) => ReaderStatus::Failed(
            joined_text("terminal reader could not write a protocol response: ", error.as_str()),
        ),
        ReaderExit::GridPoisoned => ReaderStatus::Failed(
            "terminal reader lost access to the terminal grid".to_owned(),
        ),
        ReaderExit::DecoderStalled => ReaderStatus::Failed(
            "terminal decoder stopped making progress".to_owned(),
        ),
        ReaderExit::UnexpectedProtocolEvent => ReaderStatus::Failed(
            "terminal reader received a graphics event in text-only mode".to_owned(),
        ),
    }
}

/// The words for a writer that failed.
pub open spec fn writer_failure(exit: WriterExit) -> Option<Seq<char>> {
    match exit {
        WriterExit::Shutdown => None,
        WriterExit::ChannelClosed => Some("terminal writer lost its input queue"@),
        WriterExit::WriteFailed(error) => Some(
            "terminal writer could not write keyboard input to the PTY: "@ + error@,
        ),
    }
}

impl WriterStatus {
    pub open spec fn failure(self) -> Option<Seq<char>> {
        match self {
            WriterStatus::Normal => None,
            WriterStatus::Failed(error) => Some(error@),
        }
    }
}

pub fn classify_writer_exit(exit: &WriterExit) -> (r: WriterStatus)
    ensures
        r.failure() == writer_failure(*exit),
{
    match exit {
        WriterExit::Shutdown => WriterStatus::Normal,
        WriterExit::ChannelClosed => WriterStatus::Failed(
            "terminal writer lost its input queue".to_owned(),
        ),
        WriterExit::WriteFailed(error) => WriterStatus::Failed(
            joined_text(
                "terminal writer could not write keyboard input to the PTY: ",
                error.as_str(),
            ),
        ),
    }
}

pub fn reader_status_result(status: ReaderStatus) -> (r: Result<(), String>)
    ensures
        r == (match status {
            ReaderStatus::Normal => Ok::<(), String>(()),
            ReaderStatus::Failed(error) => Err(error),
        }),
{
    match status {
        ReaderStatus::Normal => Ok(()),
        ReaderStatus::Failed(error) => Err(error),
    }
}

pub fn writer_status_result(status: WriterStatus) -> (r: Result<(), String>)
    ensures
        r == (match status {
            WriterStatus::Normal => Ok::<(), String>(()),
            WriterStatus::Failed(error) => Err(error),
        }),
{
    match status {
        WriterStatus::Normal => Ok(()),
        WriterStatus::Failed(error) => Err(error),
    }
}

/// The first error counts.
pub fn combine_launch_results(
    run_result: Result<(), String>,
    reader_join_result: Result<(), String>,
    writer_join_result: Result<(), String>,
    finish_result: Result<(), String>,
) -> (r: Result<(), String>)
    ensures
        r == if run_result is Err {
            run_result
        } else if reader_join_result is Err {
            reader_join_result
        } else if writer_join_result is Err {
            writer_join_result
        } else {
            finish_result
        },
{
    if run_result.is_err() {
        run_result
    } else if reader_join_result.is_err() {
        reader_join_result
    } else if writer_join_result.is_err() {
        writer_join_result
    } else {
        finish_result
    }
}

/// The terminal takes input until it ends or its reader does.
pub fn terminal_accepts_input(exiting: bool, reader_status: Option<&ReaderStatus>) -> (r: bool)
    ensures
        r == (!exiting && reader_status is None),
{
    !exiting && reader_status.is_none()
}

/// A notice that is sent once until it is taken up.
#[derive(Debug, Clone, Copy, PartialEq, Eq, Structural)]
pub struct UpdateNotice {
    pub pending: bool,
}

impl UpdateNotice {
    /// Ask for the notice; the result tells whether it is to be sent now.
    pub fn arm(&mut self) -> (r: bool)
        ensures
            r == !old(self).pending,
            final(self).pending,
    {
        let send: bool = !self.pending;
        self.pending = true;
        send
    }

    /// Take the notice up. What changes from now on is sent anew.
    pub fn begin(&mut self)
        ensures
            !final(self).pending,
    {
        self.pending = false;
    }
}

/// A lowercase hexadecimal digit.
pub open spec fn hex_digit(value: int) -> char {
    if value < 10 { (48 + value) as u8 as char } else { (87 + value) as u8 as char }
}

/// A color as six hexadecimal digits.
pub open spec fn hex_color(color: (u8, u8, u8)) -> Seq<char> {
    seq![
        hex_digit(color.0 as int / 16),
        hex_digit(color.0 as int % 16),
        hex_digit(color.1 as int / 16),
        hex_digit(color.1 as int % 16),
        hex_digit(color.2 as int / 16),
        hex_digit(color.2 as int % 16),
    ]
}

fn digit(value: u8) -> (r: char)
    requires
        value < 16,
    ensures
        r == hex_digit(value as int),
{
    if value < 10 {
        (48 + value) as char
    } else {
        (87 + value) as char
    }
}

pub fn terminal_color_query_value(color: (u8, u8, u8)) -> (r: String)
    ensures
        r@ == hex_color(color),
{
    let chars: Vec<char> = vec![
        digit(color.0 / 16),
        digit(color.0 % 16),
        digit(color.1 / 16),
        digit(color.1 % 16),
        digit(color.2 / 16),
        digit(color.2 % 16),
    ];
    proof {
        assert(chars@ =~= hex_color(color));
    }
    string_of(&chars)
}

} // verus!
