//! What can end a run early.

use vstd::prelude::*;
use vstd::string::*;

verus! {

/// The step of the export at which a run failed.
#[derive(Clone, Copy, Debug, PartialEq, Eq, Structural)]
pub enum ErrorKind {
    /// The schema name holds a character other than an ASCII letter or digit.
    InvalidIdentifier,
    /// The database connection could not be established.
    ConnectionError,
    /// The catalog could not be asked for the tables of the schema.
    CatalogQueryFailed,
    /// The output root could not be opened or the output file not created.
    SinkOpenFailed,
    /// A chunk could not be written to the output file.
    IoError,
    /// The row stream could not be started or broke off mid-transfer.
    StreamError,
    /// The compressor could not be finalized or the output file not closed.
    FinalizeError,
}

/// The mathematical value of an [`ExportError`].
pub struct ErrorModel {
    pub kind: ErrorKind,
    pub message: Seq<char>,
}

/// A failure that aborts the run: where it happened, and what was reported.
#[derive(Debug, PartialEq, Eq)]
pub struct ExportError {
    pub kind: ErrorKind,
    pub message: String,
}

impl View for ExportError {
    type V = ErrorModel;

    open spec fn view(&self) -> ErrorModel {
        ErrorModel { kind: self.kind, message: self.message@ }
    }
}

/// The words that name an error kind to the user.
pub open spec fn kind_label(kind: ErrorKind) -> Seq<char> {
    match kind {
        ErrorKind::InvalidIdentifier => "invalid identifier"@,
        ErrorKind::ConnectionError => "connection error"@,
        ErrorKind::CatalogQueryFailed => "catalog query failed"@,
        ErrorKind::SinkOpenFailed => "sink open failed"@,
        ErrorKind::IoError => "i/o error"@,
        ErrorKind::StreamError => "stream error"@,
        ErrorKind::FinalizeError => "finalize error"@,
    }
}

/// The single line shown to the user for an error: label, colon, message.
pub open spec fn description(error: ErrorModel) -> Seq<char> {
    kind_label(error.kind) + ": "@ + error.message
}

impl ErrorKind {
    /// The words that name this kind to the user.
    pub fn label(self) -> (s: &'static str)
        ensures
            s@ == kind_label(self),
    {
        match self {
            ErrorKind::InvalidIdentifier => "invalid identifier",
            ErrorKind::ConnectionError => "connection error",
            ErrorKind::CatalogQueryFailed => "catalog query failed",
            ErrorKind::SinkOpenFailed => "sink open failed",
            ErrorKind::IoError => "i/o error",
            ErrorKind::StreamError => "stream error",
            ErrorKind::FinalizeError => "finalize error",
        }
    }
}

impl ExportError {
    /// An error of the given kind carrying `message`.
    pub fn new(kind: ErrorKind, message: String) -> (e: ExportError)
        ensures
            e@ == (ErrorModel { kind, message: message@ }),
    {
        ExportError { kind, message }
    }

    /// The single line shown to the user: label, colon, message.
    pub fn describe(&self) -> (s: String)
        ensures
            s@ == description(self@),
    {
        let mut s = String::from_str(self.kind.label());
        s.append(": ");
        s.append(self.message.as_str());
        s
    }
}

impl Clone for ExportError {
    fn clone(&self) -> (e: ExportError)
        ensures
            e@ == self@,
    {
        ExportError { kind: self.kind, message: self.message.clone() }
    }
}

} // verus!
