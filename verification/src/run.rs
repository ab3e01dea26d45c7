//! One run of the export: connect, open the output root, list the tables,
//! export them one by one.
//!
//! [`Run::start`] hands out the first action; [`Run::step`] takes the answer
//! to the pending action and hands out the next. The run is fail-fast: the
//! first failure ends it, and nothing is retried, skipped or undone.

use crate::error::{ErrorKind, ErrorModel, ExportError};
use crate::identifier::{is_valid_schema_name, Schema};
use crate::job::{job_next, request_model, ExportJob, JobModel, JobState, JobStep};
use crate::protocol::{failure_report, Action, ActionModel, Event, EventModel};
use crate::query::{tables_query, tables_query_text};
use vstd::prelude::*;

verus! {

/// Where a run stands.
#[derive(Debug, PartialEq, Eq)]
pub enum Stage {
    /// The database connection is being established.
    Connecting,
    /// The output root is being opened.
    OpeningRoot,
    /// The catalog is being asked for the tables.
    Listing,
    /// The table at `index` is being exported and its job waits for `step`.
    Exporting { index: usize, step: JobStep },
    /// Every table has been exported.
    Finished,
    /// The run was aborted with this error.
    Failed(ExportError),
}

/// The mathematical value of a [`Stage`].
pub enum StageModel {
    Connecting,
    OpeningRoot,
    Listing,
    Exporting { index: nat, step: JobStep },
    Finished,
    Failed(ErrorModel),
}

impl View for Stage {
    type V = StageModel;

    open spec fn view(&self) -> StageModel {
        match self {
            Stage::Connecting => StageModel::Connecting,
            Stage::OpeningRoot => StageModel::OpeningRoot,
            Stage::Listing => StageModel::Listing,
            Stage::Exporting { index, step } => StageModel::Exporting {
                index: *index as nat,
                step: *step,
            },
            Stage::Finished => StageModel::Finished,
            Stage::Failed(error) => StageModel::Failed(error@),
        }
    }
}

/// The mathematical value of a [`Run`].
pub struct RunModel {
    /// The schema that is exported.
    pub schema: Seq<char>,
    /// Whether the output files are compressed.
    pub compressed: bool,
    /// The tables that the catalog listed; empty until it has.
    pub tables: Seq<Seq<char>>,
    /// Where the run stands.
    pub stage: StageModel,
}

impl RunModel {
    /// The schema name is valid, and a run that exports a table exports one
    /// of those listed.
    pub open spec fn wf(self) -> bool {
        &&& is_valid_schema_name(self.schema)
        &&& self.stage matches StageModel::Exporting { index, .. } ==> index < self.tables.len()
    }

    /// The run that has handed out nothing yet but the request to connect.
    pub open spec fn initial(schema: Seq<char>, compressed: bool) -> RunModel {
        RunModel { schema, compressed, tables: Seq::empty(), stage: StageModel::Connecting }
    }

    /// This run at another stage.
    pub open spec fn at(self, stage: StageModel) -> RunModel {
        RunModel { stage, ..self }
    }

    /// The job that exports the table at `index`.
    pub open spec fn job_at(self, index: int) -> JobModel {
        JobModel { schema: self.schema, table: self.tables[index], compressed: self.compressed }
    }

    /// Whether the run is over.
    pub open spec fn is_over(self) -> bool {
        self.stage is Finished || self.stage is Failed
    }
}

/// The run aborted by a failure of the given kind, and the action that says
/// so.
pub open spec fn fail_model(run: RunModel, kind: ErrorKind, event: EventModel) -> (
    RunModel,
    ActionModel,
) {
    let error = ErrorModel { kind, message: failure_report(event) };
    (run.at(StageModel::Failed(error)), ActionModel::Abort { error })
}

/// The run as it turns to the table at `index`: it opens that table's file,
/// or finishes if there is no such table.
pub open spec fn begin_job_model(run: RunModel, index: nat) -> (RunModel, ActionModel) {
    if index < run.tables.len() {
        (
            run.at(StageModel::Exporting { index, step: JobStep::OpeningSink }),
            request_model(JobStep::OpeningSink, run.job_at(index as int), EventModel::Completed),
        )
    } else {
        (run.at(StageModel::Finished), ActionModel::Finish)
    }
}

/// The run after `event`, and the action it hands out next.
///
/// - While connecting, success leads to the output root; anything else is a
///   connection error.
/// - While the output root is opened, success leads to the catalog query;
///   anything else is a sink that cannot be opened.
/// - While listing, the tables lead to the first job, or to the finish if
///   there are none; anything else is a failed catalog query.
/// - While exporting, the event moves the job of the current table. A closed
///   job leads to the next table's job, or to the finish after the last; a
///   failed job aborts the run with the job's error.
/// - A run that is over stays as it is and repeats its last word.
pub open spec fn step_model(run: RunModel, event: EventModel) -> (RunModel, ActionModel) {
    match run.stage {
        StageModel::Connecting => match event {
            EventModel::Completed => (run.at(StageModel::OpeningRoot), ActionModel::OpenRoot),
            _ => fail_model(run, ErrorKind::ConnectionError, event),
        },
        StageModel::OpeningRoot => match event {
            EventModel::Completed => (
                run.at(StageModel::Listing),
                ActionModel::ListTables { query: tables_query_text(run.schema) },
            ),
            _ => fail_model(run, ErrorKind::SinkOpenFailed, event),
        },
        StageModel::Listing => match event {
            EventModel::Tables(tables) => begin_job_model(RunModel { tables, ..run }, 0),
            _ => fail_model(run, ErrorKind::CatalogQueryFailed, event),
        },
        StageModel::Exporting { index, step } => match job_next(step, event) {
            JobState::Active(next) => (
                run.at(StageModel::Exporting { index, step: next }),
                request_model(next, run.job_at(index as int), event),
            ),
            JobState::Closed => begin_job_model(run, index + 1),
            JobState::Failed(kind) => fail_model(run, kind, event),
        },
        StageModel::Finished => (run, ActionModel::Finish),
        StageModel::Failed(error) => (run, ActionModel::Abort { error }),
    }
}

/// A run of the export.
#[derive(Debug)]
pub struct Run {
    schema: Schema,
    compressed: bool,
    tables: Vec<String>,
    stage: Stage,
}

impl View for Run {
    type V = RunModel;

    closed spec fn view(&self) -> RunModel {
        RunModel {
            schema: self.schema@,
            compressed: self.compressed,
            tables: self.tables.deep_view(),
            stage: self.stage@,
        }
    }
}

impl Run {
    /// What holds of every run that exists.
    #[verifier::type_invariant]
    spec fn well_formed(self) -> bool {
        self@.wf()
    }

    /// Puts a run together from its parts.
    fn assemble(schema: Schema, compressed: bool, tables: Vec<String>, stage: Stage) -> (run: Run)
        requires
            stage@ matches StageModel::Exporting { index, .. } ==> index < tables.len(),
        ensures
            run@ == (RunModel {
                schema: schema@,
                compressed,
                tables: tables.deep_view(),
                stage: stage@,
            }),
            run@.wf(),
    {
        proof {
            use_type_invariant(&schema);
            schema.lemma_well_formed_is_valid();
        }
        Run { schema, compressed, tables, stage }
    }

    /// The run of these parts, aborted by a failure of the given kind. The
    /// stage that the run was at plays no part: the failure replaces it.
    fn fail(
        schema: Schema,
        compressed: bool,
        tables: Vec<String>,
        kind: ErrorKind,
        event: Event,
    ) -> (r: (Run, Action))
        ensures
            (r.0@, r.1@) == fail_model(
                RunModel {
                    schema: schema@,
                    compressed,
                    tables: tables.deep_view(),
                    stage: StageModel::Connecting,
                },
                kind,
                event@,
            ),
            r.0@.wf(),
    {
        let error = ExportError::new(kind, event.into_report());
        let again = error.clone();
        (Run::assemble(schema, compressed, tables, Stage::Failed(error)), Action::Abort {
            error: again,
        })
    }

    /// The run of these parts as it turns to the table at `index`, whatever
    /// stage it was at before.
    fn begin_job(schema: Schema, compressed: bool, tables: Vec<String>, index: usize) -> (r: (
        Run,
        Action,
    ))
        ensures
            (r.0@, r.1@) == begin_job_model(
                RunModel {
                    schema: schema@,
                    compressed,
                    tables: tables.deep_view(),
                    stage: StageModel::Connecting,
                },
                index as nat,
            ),
            r.0@.wf(),
    {
        if index < tables.len() {
            let job = ExportJob { schema: &schema, table: tables[index].as_str(), compressed };
            let action = job.request(JobStep::OpeningSink, Event::Completed);
            (
                Run::assemble(
                    schema,
                    compressed,
                    tables,
                    Stage::Exporting { index, step: JobStep::OpeningSink },
                ),
                action,
            )
        } else {
            (Run::assemble(schema, compressed, tables, Stage::Finished), Action::Finish)
        }
    }

    /// Starts a run that exports `schema`, compressed or not, and hands out
    /// its first action: to connect.
    pub fn start(schema: Schema, compressed: bool) -> (r: (Run, Action))
        ensures
            r.0@ == RunModel::initial(schema@, compressed),
            r.0@.wf(),
            r.1@ == ActionModel::Connect,
    {
        let tables: Vec<String> = Vec::new();
        assert(tables.deep_view() =~= Seq::<Seq<char>>::empty());
        (Run::assemble(schema, compressed, tables, Stage::Connecting), Action::Connect)
    }

    /// The name of the schema that is exported.
    pub fn schema(&self) -> (name: &str)
        ensures
            name@ == self@.schema,
            is_valid_schema_name(name@),
    {
        self.schema.as_str()
    }

    /// Whether the output files are compressed.
    pub fn compressed(&self) -> (compressed: bool)
        ensures
            compressed == self@.compressed,
    {
        self.compressed
    }

    /// The tables that the catalog listed; none before it has.
    pub fn tables(&self) -> (tables: &Vec<String>)
        ensures
            tables.deep_view() == self@.tables,
    {
        &self.tables
    }

    /// The job of the table that is being exported, if one is.
    pub fn current_job(&self) -> (job: Option<ExportJob<'_>>)
        ensures
            match job {
                Some(job) => self@.stage is Exporting && job@ == self@.job_at(
                    self@.stage->Exporting_index as int,
                ),
                None => !(self@.stage is Exporting),
            },
    {
        proof {
            use_type_invariant(self);
        }
        match self.stage {
            Stage::Exporting { index, .. } => {
                assert(self.tables.deep_view().len() == self.tables.len());
                Some(
                    ExportJob {
                        schema: &self.schema,
                        table: self.tables[index].as_str(),
                        compressed: self.compressed,
                    },
                )
            },
            _ => None,
        }
    }

    /// Where the run stands.
    pub fn stage(&self) -> (stage: &Stage)
        ensures
            stage@ == self@.stage,
    {
        &self.stage
    }

    /// Whether the run is over, finished or aborted.
    pub fn is_over(&self) -> (over: bool)
        ensures
            over == self@.is_over(),
    {
        match self.stage {
            Stage::Finished => true,
            Stage::Failed(_) => true,
            _ => false,
        }
    }

    /// Takes the answer to the pending action and hands out the next one.
    pub fn step(self, event: Event) -> (r: (Run, Action))
        ensures
            (r.0@, r.1@) == step_model(self@, event@),
            r.0@.wf(),
    {
        proof {
            use_type_invariant(&self);
        }
        let Run { schema, compressed, tables, stage } = self;
        assert(tables.deep_view().len() == tables.len());
        match stage {
            Stage::Connecting => match event {
                Event::Completed => (
                    Run::assemble(schema, compressed, tables, Stage::OpeningRoot),
                    Action::OpenRoot,
                ),
                other => Run::fail(schema, compressed, tables, ErrorKind::ConnectionError, other),
            },
            Stage::OpeningRoot => match event {
                Event::Completed => {
                    let query = tables_query(&schema);
                    (
                        Run::assemble(schema, compressed, tables, Stage::Listing),
                        Action::ListTables { query },
                    )
                },
                other => Run::fail(schema, compressed, tables, ErrorKind::SinkOpenFailed, other),
            },
            Stage::Listing => match event {
                Event::Tables(listed) => Run::begin_job(schema, compressed, listed, 0),
                other => Run::fail(
                    schema,
                    compressed,
                    tables,
                    ErrorKind::CatalogQueryFailed,
                    other,
                ),
            },
            Stage::Exporting { index, step } => match step.next(&event) {
                JobState::Active(next) => {
                    let job = ExportJob {
                        schema: &schema,
                        table: tables[index].as_str(),
                        compressed,
                    };
                    let action = job.request(next, event);
                    (
                        Run::assemble(
                            schema,
                            compressed,
                            tables,
                            Stage::Exporting { index, step: next },
                        ),
                        action,
                    )
                },
                JobState::Closed => Run::begin_job(schema, compressed, tables, index + 1),
                JobState::Failed(kind) => Run::fail(schema, compressed, tables, kind, event),
            },
            Stage::Finished => (
                Run::assemble(schema, compressed, tables, Stage::Finished),
                Action::Finish,
            ),
            Stage::Failed(error) => {
                let again = error.clone();
                (
                    Run::assemble(schema, compressed, tables, Stage::Failed(error)),
                    Action::Abort { error: again },
                )
            },
        }
    }
}

} // verus!
