//! Verified core of a schema-to-CSV exporter.
//!
//! The crate decides; it performs no I/O. A caller drives a [`run::Run`] by
//! carrying out each [`protocol::Action`] it is handed (connect, open the
//! output root, list the tables, open a sink, read and write chunks,
//! finalize, close) and reporting what happened as a
//! [`protocol::Event`]. Every decision of the export (which
//! names are safe to splice into SQL, what each file is called, which query
//! unloads a table, what follows a success and what follows a failure) is made
//! here and proved against a mathematical model.
//!
//! - [`identifier`], [`naming`], [`query`]: schema names, file names, SQL text.
//! - [`error`], [`protocol`]: errors, events and actions.
//! - [`job`], [`run`]: the state machine of one job, and of the whole run.
//! - [`storage`]: a model of the output root.
//! - [`trace`], [`payload`], [`modes`], [`outcome`]: what is proved of whole
//!   runs: which files they open, what they put into them, that both modes
//!   carry the same payload, that a failure ends the run and deletes nothing,
//!   that a second run changes nothing.

pub mod error;
pub mod identifier;
pub mod job;
pub mod modes;
pub mod naming;
pub mod outcome;
pub mod payload;
pub mod protocol;
pub mod query;
pub mod run;
pub mod storage;
pub mod trace;
