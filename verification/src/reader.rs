//! The output reader of a session: what it announces for each read from the
//! session's pseudo-terminal, and when it stops.
//!
//! The caller owns the device and runs the loop: it reads into a buffer of
//! [`READ_BUFFER_SIZE`] bytes, hands the outcome to [`OutputReader::on_read`],
//! delivers the notification it gets back, and ends the loop once
//! [`OutputReader::is_finished`] holds.

use vstd::prelude::*;
use crate::text::{decimal, decode_lossy, push_decimal, utf8_lossy};

verus! {

/// The size of the buffer that one read fills at most.
pub const READ_BUFFER_SIZE: usize = 4096;

/// What one read from the pseudo-terminal gave.
#[derive(Debug)]
pub enum ReadOutcome {
    /// The bytes that were read; none at the end of the stream.
    Bytes(Vec<u8>),
    /// The read failed; the text is the operating system's account of it.
    Failed(String),
}

/// What the reader tells the event sink.
#[derive(Debug)]
pub enum Notification {
    /// Output of session `id`, decoded as text.
    Output { id: u32, data: String },
    /// Session `id` gives no more output. `diagnostic` is a line for the log
    /// where a failed read ended the stream.
    Closed { id: u32, diagnostic: Option<String> },
}

/// The mathematical content of a [`Notification`].
pub enum NotificationView {
    Output { id: u32, data: Seq<char> },
    Closed { id: u32, diagnostic: Option<Seq<char>> },
}

impl View for Notification {
    type V = NotificationView;

    open spec fn view(&self) -> NotificationView {
        match self {
            Notification::Output { id, data } => NotificationView::Output { id: *id, data: data@ },
            Notification::Closed { id, diagnostic } => NotificationView::Closed {
                id: *id,
                diagnostic: match diagnostic {
                    Some(line) => Some(line@),
                    None => None,
                },
            },
        }
    }
}

/// The mathematical content of a [`ReadOutcome`].
pub enum ReadOutcomeView {
    Bytes(Seq<u8>),
    Failed(Seq<char>),
}

impl View for ReadOutcome {
    type V = ReadOutcomeView;

    open spec fn view(&self) -> ReadOutcomeView {
        match self {
            ReadOutcome::Bytes(bytes) => ReadOutcomeView::Bytes(bytes@),
            ReadOutcome::Failed(detail) => ReadOutcomeView::Failed(detail@),
        }
    }
}

/// What one read amounts to, once its bytes are decoded.
#[derive(Debug)]
pub enum Reading {
    /// Output: the text that the bytes of the read decode to.
    Text(String),
    /// The end of the stream.
    End,
    /// A failure; the text is the operating system's account of it.
    Failed(String),
}

/// The mathematical content of a [`Reading`].
pub enum ReadingView {
    Text(Seq<char>),
    End,
    Failed(Seq<char>),
}

impl View for Reading {
    type V = ReadingView;

    open spec fn view(&self) -> ReadingView {
        match self {
            Reading::Text(text) => ReadingView::Text(text@),
            Reading::End => ReadingView::End,
            Reading::Failed(detail) => ReadingView::Failed(detail@),
        }
    }
}

impl ReadingView {
    /// The reading ends the stream: it is its end, or a failure.
    pub open spec fn is_final(self) -> bool {
        !(self is Text)
    }
}

/// What the outcome of a read amounts to: a read of no bytes is the end of
/// the stream, and bytes are decoded permissively.
pub open spec fn decoded(outcome: ReadOutcomeView) -> ReadingView {
    match outcome {
        ReadOutcomeView::Bytes(bytes) => if bytes.len() == 0 {
            ReadingView::End
        } else {
            ReadingView::Text(utf8_lossy(bytes))
        },
        ReadOutcomeView::Failed(detail) => ReadingView::Failed(detail),
    }
}

/// Decodes the outcome of a read.
pub fn decode(outcome: ReadOutcome) -> (reading: Reading)
    ensures
        reading@ == decoded(outcome@),
{
    match outcome {
        ReadOutcome::Bytes(bytes) => {
            if bytes.len() == 0 {
                Reading::End
            } else {
                Reading::Text(decode_lossy(bytes.as_slice()))
            }
        },
        ReadOutcome::Failed(detail) => Reading::Failed(detail),
    }
}

/// The name of the event that carries a notification to the sink.
pub open spec fn event_name(notification: NotificationView) -> Seq<char> {
    match notification {
        NotificationView::Output { .. } => "terminal-output"@,
        NotificationView::Closed { .. } => "terminal-closed"@,
    }
}

/// The line for the log when a read from session `id` failed with `detail`.
pub open spec fn read_failure_line(id: u32, detail: Seq<char>) -> Seq<char> {
    "Error reading from terminal "@ + decimal(id as nat) + ": "@ + detail
}

/// What a running reader of session `id` announces for `reading`.
pub open spec fn announcement(id: u32, reading: ReadingView) -> NotificationView {
    match reading {
        ReadingView::Text(data) => NotificationView::Output { id, data },
        ReadingView::End => NotificationView::Closed { id, diagnostic: None },
        ReadingView::Failed(detail) => NotificationView::Closed {
            id,
            diagnostic: Some(read_failure_line(id, detail)),
        },
    }
}

/// The reader as mathematics: the session it serves and whether it has
/// stopped.
pub struct ReaderState {
    pub id: u32,
    pub finished: bool,
}

impl ReaderState {
    /// What the reader announces for `reading`: nothing once it has stopped.
    pub open spec fn announces(self, reading: ReadingView) -> Option<NotificationView> {
        if self.finished {
            None
        } else {
            Some(announcement(self.id, reading))
        }
    }

    /// The reader after `reading`: it stops at the end of the stream and at
    /// a failure, and stays stopped.
    pub open spec fn after(self, reading: ReadingView) -> ReaderState {
        ReaderState { id: self.id, finished: self.finished || reading.is_final() }
    }

    /// Everything the reader announces for `readings`, in order.
    pub open spec fn trace(self, readings: Seq<ReadingView>) -> Seq<NotificationView>
        decreases readings.len(),
    {
        if readings.len() == 0 {
            Seq::empty()
        } else {
            let head = match self.announces(readings.first()) {
                Some(notification) => seq![notification],
                None => Seq::empty(),
            };
            head + self.after(readings.first()).trace(readings.drop_first())
        }
    }
}

/// The output reader of one session.
pub struct OutputReader {
    id: u32,
    finished: bool,
}

impl View for OutputReader {
    type V = ReaderState;

    closed spec fn view(&self) -> ReaderState {
        ReaderState { id: self.id, finished: self.finished }
    }
}

impl OutputReader {
    /// A running reader for session `id`.
    pub fn new(id: u32) -> (reader: OutputReader)
        ensures
            reader@ == (ReaderState { id, finished: false }),
    {
        OutputReader { id, finished: false }
    }

    /// The session that the reader serves.
    pub fn id(&self) -> (id: u32)
        ensures
            id == self@.id,
    {
        self.id
    }

    /// Whether the reader has stopped; the caller then reads no more.
    pub fn is_finished(&self) -> (finished: bool)
        ensures
            finished == self@.finished,
    {
        self.finished
    }

    /// Takes what one read amounts to and gives the notification to
    /// deliver: the text as output, the closure of the session at the end of
    /// the stream or at a failure, and nothing once the reader has stopped.
    pub fn on_reading(&mut self, reading: Reading) -> (r: Option<Notification>)
        ensures
            final(self)@ == old(self)@.after(reading@),
            match r {
                Some(notification) => old(self)@.announces(reading@) == Some(notification@),
                None => old(self)@.announces(reading@) is None,
            },
    {
        if self.finished {
            return None;
        }
        match reading {
            Reading::Text(data) => Some(Notification::Output { id: self.id, data }),
            Reading::End => {
                self.finished = true;
                Some(Notification::Closed { id: self.id, diagnostic: None })
            },
            Reading::Failed(detail) => {
                self.finished = true;
                let mut line = String::from_str("Error reading from terminal ");
                push_decimal(&mut line, self.id);
                line.append(": ");
                line.append(detail.as_str());
                Some(Notification::Closed { id: self.id, diagnostic: Some(line) })
            },
        }
    }

    /// Takes the outcome of one read and gives the notification to deliver,
    /// as [`OutputReader::on_reading`] does for what the outcome amounts to.
    pub fn on_read(&mut self, outcome: ReadOutcome) -> (r: Option<Notification>)
        ensures
            final(self)@ == old(self)@.after(decoded(outcome@)),
            match r {
                Some(notification) => old(self)@.announces(decoded(outcome@)) == Some(
                    notification@,
                ),
                None => old(self)@.announces(decoded(outcome@)) is None,
            },
    {
        self.on_reading(decode(outcome))
    }
}

impl Notification {
    /// The name of the event that carries the notification to the sink.
    pub fn event_name(&self) -> (name: &'static str)
        ensures
            name@ == event_name(self@),
    {
        match self {
            Notification::Output { .. } => "terminal-output",
            Notification::Closed { .. } => "terminal-closed",
        }
    }
}

} // verus!
