//! The life of one export job: open, stream, finalize, close.
//!
//! A job waits for one thing at a time. What it waits for is its
//! [`JobStep`]; each answer moves it to the next step, to `Closed`, or to
//! `Failed`. There is no way back and no way on from a failure.

use crate::error::ErrorKind;
use crate::identifier::Schema;
use crate::naming::{file_name_text, output_file_name};
use crate::protocol::{Action, ActionModel, Event, EventModel};
use crate::query::{copy_query, copy_query_text};
use vstd::prelude::*;

verus! {

/// What a running job is waiting for.
#[derive(Clone, Copy, Debug, PartialEq, Eq, Structural)]
pub enum JobStep {
    /// The output file is being created.
    OpeningSink,
    /// The unload query is being prepared and started.
    OpeningStream,
    /// The next chunk of the row stream is being read.
    Reading,
    /// The chunk last read is being written to the sink.
    Writing,
    /// The compression stage is being finalized.
    Finalizing,
    /// The output file is being closed.
    Closing,
}

/// Where a job stands.
#[derive(Clone, Copy, Debug, PartialEq, Eq, Structural)]
pub enum JobState {
    /// The job is under way and waits for the given step.
    Active(JobStep),
    /// The job is complete: its file is finalized and closed.
    Closed,
    /// The job failed at a step that reports the given kind.
    Failed(ErrorKind),
}

/// The coarse stages of a job.
#[derive(Clone, Copy, Debug, PartialEq, Eq, Structural)]
pub enum JobPhase {
    Opening,
    Streaming,
    Finalizing,
    Closed,
    Failed,
}

/// The phase that a step belongs to.
pub open spec fn step_phase(step: JobStep) -> JobPhase {
    match step {
        JobStep::OpeningSink | JobStep::OpeningStream => JobPhase::Opening,
        JobStep::Reading | JobStep::Writing => JobPhase::Streaming,
        JobStep::Finalizing | JobStep::Closing => JobPhase::Finalizing,
    }
}

/// The phase that a job is in.
pub open spec fn phase(state: JobState) -> JobPhase {
    match state {
        JobState::Active(step) => step_phase(step),
        JobState::Closed => JobPhase::Closed,
        JobState::Failed(_) => JobPhase::Failed,
    }
}

/// The position of a phase in the order in which a job passes through them.
/// `Failed` stands last: it can be entered from any phase and is never left.
pub open spec fn phase_rank(phase: JobPhase) -> nat {
    match phase {
        JobPhase::Opening => 0,
        JobPhase::Streaming => 1,
        JobPhase::Finalizing => 2,
        JobPhase::Closed => 3,
        JobPhase::Failed => 4,
    }
}

/// The kind of error that a failure at `step` is reported as.
pub open spec fn failure_kind(step: JobStep) -> ErrorKind {
    match step {
        JobStep::OpeningSink => ErrorKind::SinkOpenFailed,
        JobStep::OpeningStream => ErrorKind::StreamError,
        JobStep::Reading => ErrorKind::StreamError,
        JobStep::Writing => ErrorKind::IoError,
        JobStep::Finalizing => ErrorKind::FinalizeError,
        JobStep::Closing => ErrorKind::FinalizeError,
    }
}

/// Whether `event` is a successful answer to what `step` waits for.
pub open spec fn answers(step: JobStep, event: EventModel) -> bool {
    match step {
        JobStep::Reading => event is Chunk || event is EndOfStream,
        _ => event is Completed,
    }
}

/// Where a job waiting for `step` stands after `event`.
///
/// A successful answer moves the job on: the sink, then the stream, then
/// reading and writing in turn until the stream ends, then finalizing, then
/// closing. Any other event is a failure of the step.
pub open spec fn job_next(step: JobStep, event: EventModel) -> JobState {
    if !answers(step, event) {
        JobState::Failed(failure_kind(step))
    } else {
        match step {
            JobStep::OpeningSink => JobState::Active(JobStep::OpeningStream),
            JobStep::OpeningStream => JobState::Active(JobStep::Reading),
            JobStep::Reading => if event is Chunk {
                JobState::Active(JobStep::Writing)
            } else {
                JobState::Active(JobStep::Finalizing)
            },
            JobStep::Writing => JobState::Active(JobStep::Reading),
            JobStep::Finalizing => JobState::Active(JobStep::Closing),
            JobStep::Closing => JobState::Closed,
        }
    }
}

impl JobStep {
    /// The phase that this step belongs to.
    pub fn phase(self) -> (p: JobPhase)
        ensures
            p == step_phase(self),
    {
        match self {
            JobStep::OpeningSink | JobStep::OpeningStream => JobPhase::Opening,
            JobStep::Reading | JobStep::Writing => JobPhase::Streaming,
            JobStep::Finalizing | JobStep::Closing => JobPhase::Finalizing,
        }
    }

    /// The kind of error that a failure at this step is reported as.
    pub fn failure_kind(self) -> (kind: ErrorKind)
        ensures
            kind == failure_kind(self),
    {
        match self {
            JobStep::OpeningSink => ErrorKind::SinkOpenFailed,
            JobStep::OpeningStream => ErrorKind::StreamError,
            JobStep::Reading => ErrorKind::StreamError,
            JobStep::Writing => ErrorKind::IoError,
            JobStep::Finalizing => ErrorKind::FinalizeError,
            JobStep::Closing => ErrorKind::FinalizeError,
        }
    }

    /// Where a job waiting for this step stands after `event`.
    pub fn next(self, event: &Event) -> (state: JobState)
        ensures
            state == job_next(self, event@),
    {
        match (self, event) {
            (JobStep::OpeningSink, Event::Completed) => JobState::Active(JobStep::OpeningStream),
            (JobStep::OpeningStream, Event::Completed) => JobState::Active(JobStep::Reading),
            (JobStep::Reading, Event::Chunk(_)) => JobState::Active(JobStep::Writing),
            (JobStep::Reading, Event::EndOfStream) => JobState::Active(JobStep::Finalizing),
            (JobStep::Writing, Event::Completed) => JobState::Active(JobStep::Reading),
            (JobStep::Finalizing, Event::Completed) => JobState::Active(JobStep::Closing),
            (JobStep::Closing, Event::Completed) => JobState::Closed,
            (step, _) => JobState::Failed(step.failure_kind()),
        }
    }
}

impl JobState {
    /// The phase that the job is in.
    pub fn phase(self) -> (p: JobPhase)
        ensures
            p == phase(self),
    {
        match self {
            JobState::Active(step) => step.phase(),
            JobState::Closed => JobPhase::Closed,
            JobState::Failed(_) => JobPhase::Failed,
        }
    }
}

/// One export job: the table to export, the schema it belongs to, and
/// whether its file is compressed. These three determine the file and the
/// query of the job.
#[derive(Debug)]
pub struct ExportJob<'a> {
    pub schema: &'a Schema,
    pub table: &'a str,
    pub compressed: bool,
}

/// The mathematical value of an [`ExportJob`].
pub struct JobModel {
    pub schema: Seq<char>,
    pub table: Seq<char>,
    pub compressed: bool,
}

impl<'a> View for ExportJob<'a> {
    type V = JobModel;

    open spec fn view(&self) -> JobModel {
        JobModel { schema: self.schema@, table: self.table@, compressed: self.compressed }
    }
}

/// The bytes that a chunk event carries; no other event carries any.
pub open spec fn chunk_bytes(event: EventModel) -> Seq<u8> {
    match event {
        EventModel::Chunk(bytes) => bytes,
        _ => Seq::empty(),
    }
}

/// What a job asks for when it starts to wait for `step`, having been
/// brought there by `event`.
///
/// The chunk to write is the chunk that the event delivered, byte for byte.
pub open spec fn request_model(step: JobStep, job: JobModel, event: EventModel) -> ActionModel {
    match step {
        JobStep::OpeningSink => ActionModel::OpenSink {
            file_name: file_name_text(job.schema, job.table, job.compressed),
            compressed: job.compressed,
        },
        JobStep::OpeningStream => ActionModel::OpenStream {
            query: copy_query_text(job.schema, job.table),
        },
        JobStep::Reading => ActionModel::ReadChunk,
        JobStep::Writing => ActionModel::WriteChunk { bytes: chunk_bytes(event) },
        JobStep::Finalizing => ActionModel::Finalize,
        JobStep::Closing => ActionModel::CloseSink,
    }
}

impl<'a> ExportJob<'a> {
    /// The name of the file that the job writes.
    pub fn file_name(&self) -> (name: String)
        ensures
            name@ == file_name_text(self@.schema, self@.table, self@.compressed),
    {
        output_file_name(self.schema, self.table, self.compressed)
    }

    /// The query that unloads the job's table.
    pub fn copy_query(&self) -> (query: String)
        ensures
            query@ == copy_query_text(self@.schema, self@.table),
    {
        copy_query(self.schema, self.table)
    }

    /// What the job asks for when it starts to wait for `step`, having been
    /// brought there by `event`.
    pub fn request(&self, step: JobStep, event: Event) -> (action: Action)
        ensures
            action@ == request_model(step, self@, event@),
    {
        match step {
            JobStep::OpeningSink => Action::OpenSink {
                file_name: self.file_name(),
                compressed: self.compressed,
            },
            JobStep::OpeningStream => Action::OpenStream { query: self.copy_query() },
            JobStep::Reading => Action::ReadChunk,
            JobStep::Writing => match event {
                Event::Chunk(bytes) => Action::WriteChunk { bytes },
                _ => Action::WriteChunk { bytes: Vec::new() },
            },
            JobStep::Finalizing => Action::Finalize,
            JobStep::Closing => Action::CloseSink,
        }
    }
}

/// A job never returns to an earlier phase.
pub proof fn lemma_phase_never_goes_back(step: JobStep, event: EventModel)
    ensures
        phase_rank(step_phase(step)) <= phase_rank(phase(job_next(step, event))),
{
}

/// A job is closed by one event only: the close of its file succeeding. So a
/// closed job has been finalized first, and both steps have run.
pub proof fn lemma_closed_only_by_closing(step: JobStep, event: EventModel)
    ensures
        job_next(step, event) is Closed <==> step == JobStep::Closing && event is Completed,
        job_next(step, event) == JobState::Active(JobStep::Closing) <==> step
            == JobStep::Finalizing && event is Completed,
        job_next(step, event) == JobState::Active(JobStep::Finalizing) <==> step
            == JobStep::Reading && event is EndOfStream,
{
}

/// A reported failure fails the job, whatever it was waiting for, and the
/// kind of the error tells the step.
pub proof fn lemma_any_failure_fails_the_job(step: JobStep, report: Seq<char>)
    ensures
        job_next(step, EventModel::Failed(report)) == JobState::Failed(failure_kind(step)),
{
}

} // verus!
