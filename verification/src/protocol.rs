//! What passes between the export and whoever performs its I/O.
//!
//! The export hands out one [`Action`] at a time. The caller carries it out
//! and answers with an [`Event`]; the answer decides the next action.

use crate::error::{ErrorModel, ExportError};
use vstd::prelude::*;

verus! {

/// What came of the action that was last handed out.
#[derive(Debug, PartialEq, Eq)]
pub enum Event {
    /// The action succeeded and has nothing to hand back.
    Completed,
    /// The catalog lists these tables, in this order.
    Tables(Vec<String>),
    /// The row stream yielded these bytes.
    Chunk(Vec<u8>),
    /// The row stream is exhausted.
    EndOfStream,
    /// The action failed, with this report.
    Failed(String),
}

/// The mathematical value of an [`Event`].
pub enum EventModel {
    Completed,
    Tables(Seq<Seq<char>>),
    Chunk(Seq<u8>),
    EndOfStream,
    Failed(Seq<char>),
}

impl View for Event {
    type V = EventModel;

    open spec fn view(&self) -> EventModel {
        match self {
            Event::Completed => EventModel::Completed,
            Event::Tables(tables) => EventModel::Tables(tables.deep_view()),
            Event::Chunk(bytes) => EventModel::Chunk(bytes@),
            Event::EndOfStream => EventModel::EndOfStream,
            Event::Failed(report) => EventModel::Failed(report@),
        }
    }
}

/// What the caller is asked to do next.
#[derive(Debug, PartialEq, Eq)]
pub enum Action {
    /// Establish the database connection.
    Connect,
    /// Open the output root: make sure that it exists and can hold files.
    OpenRoot,
    /// Run `query` and answer with the table names it returns.
    ListTables { query: String },
    /// Create or truncate the output file `file_name` and make it the sink,
    /// behind a gzip compressor if `compressed`.
    OpenSink { file_name: String, compressed: bool },
    /// Prepare `query` and start it as a streaming unload.
    OpenStream { query: String },
    /// Read the next chunk of the row stream.
    ReadChunk,
    /// Write `bytes` to the sink, all of them and as they are.
    WriteChunk { bytes: Vec<u8> },
    /// Finalize the sink's compression stage: flush it and, if it compresses,
    /// write the trailer.
    Finalize,
    /// Close the output file.
    CloseSink,
    /// Every table is exported: end the run with success.
    Finish,
    /// End the run with `error`. Nothing is cleaned up: the sink that is
    /// open, if one is, is dropped as it is, and a file cut short by the
    /// failure is left in place.
    Abort { error: ExportError },
}

/// The mathematical value of an [`Action`].
pub enum ActionModel {
    Connect,
    OpenRoot,
    ListTables { query: Seq<char> },
    OpenSink { file_name: Seq<char>, compressed: bool },
    OpenStream { query: Seq<char> },
    ReadChunk,
    WriteChunk { bytes: Seq<u8> },
    Finalize,
    CloseSink,
    Finish,
    Abort { error: ErrorModel },
}

impl View for Action {
    type V = ActionModel;

    open spec fn view(&self) -> ActionModel {
        match self {
            Action::Connect => ActionModel::Connect,
            Action::OpenRoot => ActionModel::OpenRoot,
            Action::ListTables { query } => ActionModel::ListTables { query: query@ },
            Action::OpenSink { file_name, compressed } => ActionModel::OpenSink {
                file_name: file_name@,
                compressed: *compressed,
            },
            Action::OpenStream { query } => ActionModel::OpenStream { query: query@ },
            Action::ReadChunk => ActionModel::ReadChunk,
            Action::WriteChunk { bytes } => ActionModel::WriteChunk { bytes: bytes@ },
            Action::Finalize => ActionModel::Finalize,
            Action::CloseSink => ActionModel::CloseSink,
            Action::Finish => ActionModel::Finish,
            Action::Abort { error } => ActionModel::Abort { error: error@ },
        }
    }
}

/// The report carried by a failure; an event that does not answer the
/// pending action is reported as unexpected.
pub open spec fn failure_report(event: EventModel) -> Seq<char> {
    match event {
        EventModel::Failed(report) => report,
        _ => "unexpected event"@,
    }
}

impl Event {
    /// The report of this event when it is taken as a failure.
    pub fn into_report(self) -> (report: String)
        ensures
            report@ == failure_report(self@),
    {
        match self {
            Event::Failed(report) => report,
            _ => "unexpected event".to_owned(),
        }
    }
}

} // verus!
