//! Core of a terminal session multiplexer.
//!
//! The crate holds the decisions of the multiplexer: which sessions exist,
//! which identifier the next one gets, what each operation answers, what the
//! output reader of a session announces, and how a directory listing is
//! ordered. Devices, processes and the file system are driven by the caller,
//! who hands their answers to the functions here as plain values.
//!
//! - [`terminal`]: session metadata and the [`terminal::TerminalManager`].
//! - [`registry`]: the manager's state and calls as mathematics.
//! - [`reader`]: the output reader of a session.
//! - [`filesystem`]: directory listings and the home directory.
//! - [`ordering`]: the order of a listing and its stable sort.
//! - [`error`]: the failures of session operations.
//! - [`text`]: numerals, decoding and lower case.
//! - [`laws`]: what holds over every sequence of calls and of reads.

pub mod error;
pub mod filesystem;
pub mod laws;
pub mod ordering;
pub mod reader;
pub mod registry;
pub mod terminal;
pub mod text;
