//! The failures that session operations report.

use vstd::prelude::*;
use crate::text::{decimal, push_decimal};

verus! {

/// What went wrong, as a label that callers can branch on.
#[derive(Clone, Copy, Debug, PartialEq, Eq, Structural)]
pub enum ErrorKind {
    /// The operation named a session that is not registered.
    NotFound,
    /// Every session identifier has been handed out.
    IdOverflow,
    /// The pseudo-terminal could not be opened, prepared or resized.
    DeviceError,
    /// The child process could not be started.
    SpawnError,
    /// Bytes could not be written to an open pseudo-terminal.
    IoError,
}

/// The step of driving a pseudo-terminal at which the outside world failed.
#[derive(Clone, Copy, Debug, PartialEq, Eq, Structural)]
pub enum DeviceOperation {
    OpenPty,
    SpawnCommand,
    TakeWriter,
    CloneReader,
    Write,
    Flush,
    Resize,
}

/// A failed session operation: its kind and a sentence for people.
#[derive(Debug)]
pub struct TerminalError {
    pub kind: ErrorKind,
    pub message: String,
}

/// The mathematical content of a [`TerminalError`].
pub struct TerminalErrorView {
    pub kind: ErrorKind,
    pub message: Seq<char>,
}

impl View for TerminalError {
    type V = TerminalErrorView;

    open spec fn view(&self) -> TerminalErrorView {
        TerminalErrorView { kind: self.kind, message: self.message@ }
    }
}

/// The error for an operation on the unregistered session `id`.
pub open spec fn not_found(id: u32) -> TerminalErrorView {
    TerminalErrorView {
        kind: ErrorKind::NotFound,
        message: "Terminal "@ + decimal(id as nat) + " not found"@,
    }
}

/// The error for a creation attempted with no identifier left.
pub open spec fn id_overflow() -> TerminalErrorView {
    TerminalErrorView {
        kind: ErrorKind::IdOverflow,
        message: "Terminal ID overflow - please restart the application"@,
    }
}

impl DeviceOperation {
    /// The kind of error that a failure of this step is reported as.
    pub open spec fn error_kind(self) -> ErrorKind {
        match self {
            DeviceOperation::OpenPty => ErrorKind::DeviceError,
            DeviceOperation::TakeWriter => ErrorKind::DeviceError,
            DeviceOperation::CloneReader => ErrorKind::DeviceError,
            DeviceOperation::Resize => ErrorKind::DeviceError,
            DeviceOperation::SpawnCommand => ErrorKind::SpawnError,
            DeviceOperation::Write => ErrorKind::IoError,
            DeviceOperation::Flush => ErrorKind::IoError,
        }
    }

    /// The words that introduce the outside world's own description.
    pub open spec fn prefix(self) -> Seq<char> {
        match self {
            DeviceOperation::OpenPty => "Failed to open PTY: "@,
            DeviceOperation::SpawnCommand => "Failed to spawn command: "@,
            DeviceOperation::TakeWriter => "Failed to get writer: "@,
            DeviceOperation::CloneReader => "Failed to get reader: "@,
            DeviceOperation::Write => "Failed to write to terminal: "@,
            DeviceOperation::Flush => "Failed to flush terminal: "@,
            DeviceOperation::Resize => "Failed to resize terminal: "@,
        }
    }

    /// The error that reports a failure of this step, given the outside
    /// world's description of it.
    pub open spec fn failure(self, detail: Seq<char>) -> TerminalErrorView {
        TerminalErrorView { kind: self.error_kind(), message: self.prefix() + detail }
    }

    fn prefix_text(self) -> (r: &'static str)
        ensures
            r@ == self.prefix(),
    {
        match self {
            DeviceOperation::OpenPty => "Failed to open PTY: ",
            DeviceOperation::SpawnCommand => "Failed to spawn command: ",
            DeviceOperation::TakeWriter => "Failed to get writer: ",
            DeviceOperation::CloneReader => "Failed to get reader: ",
            DeviceOperation::Write => "Failed to write to terminal: ",
            DeviceOperation::Flush => "Failed to flush terminal: ",
            DeviceOperation::Resize => "Failed to resize terminal: ",
        }
    }

    fn kind(self) -> (r: ErrorKind)
        ensures
            r == self.error_kind(),
    {
        match self {
            DeviceOperation::OpenPty => ErrorKind::DeviceError,
            DeviceOperation::TakeWriter => ErrorKind::DeviceError,
            DeviceOperation::CloneReader => ErrorKind::DeviceError,
            DeviceOperation::Resize => ErrorKind::DeviceError,
            DeviceOperation::SpawnCommand => ErrorKind::SpawnError,
            DeviceOperation::Write => ErrorKind::IoError,
            DeviceOperation::Flush => ErrorKind::IoError,
        }
    }
}

impl TerminalError {
    /// Builds the error for an operation on the unregistered session `id`.
    pub fn not_found(id: u32) -> (e: TerminalError)
        ensures
            e@ == not_found(id),
    {
        let mut message = String::from_str("Terminal ");
        push_decimal(&mut message, id);
        message.append(" not found");
        TerminalError { kind: ErrorKind::NotFound, message }
    }

    /// Builds the error for a creation attempted with no identifier left.
    pub fn id_overflow() -> (e: TerminalError)
        ensures
            e@ == id_overflow(),
    {
        TerminalError {
            kind: ErrorKind::IdOverflow,
            message: String::from_str("Terminal ID overflow - please restart the application"),
        }
    }

    /// Builds the error that reports that `operation` failed, where `detail`
    /// is what the device or the operating system said about it.
    pub fn device_failure(operation: DeviceOperation, detail: &str) -> (e: TerminalError)
        ensures
            e@ == operation.failure(detail@),
    {
        let mut message = String::from_str(operation.prefix_text());
        message.append(detail);
        TerminalError { kind: operation.kind(), message }
    }
}

} // verus!
