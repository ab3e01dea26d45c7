use std::collections::BTreeMap;

use sg_to_csv::error::{ErrorKind, ExportError};
use sg_to_csv::identifier::Schema;
use sg_to_csv::job::JobStep;
use sg_to_csv::protocol::{Action, Event};
use sg_to_csv::run::{Run, Stage};

/// Where the world is told to fail.
#[derive(Clone, Debug, PartialEq)]
enum Fault {
    Nowhere,
    Connect,
    Root,
    Catalog,
    OpenSink(usize),
    OpenStream(usize),
    /// The stream of the given table breaks after it has yielded this many chunks.
    Stream(usize, usize),
    /// The write of the given chunk of the given table fails.
    Write(usize, usize),
    Finalize(usize),
    Close(usize),
}

/// A database and an output root held in memory.
struct World {
    schema: String,
    tables: Vec<(String, Vec<Vec<u8>>)>,
    fault: Fault,
    files: BTreeMap<String, Vec<u8>>,
    open: Option<String>,
    streaming: bool,
    job: Option<usize>,
    next_chunk: usize,
    writes: usize,
    log: Vec<String>,
}

impl World {
    fn new(schema: &str, tables: Vec<(&str, Vec<&str>)>, fault: Fault) -> World {
        World {
            schema: String::from(schema),
            tables: tables
                .into_iter()
                .map(|(name, chunks)| {
                    (
                        String::from(name),
                        chunks.into_iter().map(|c| c.as_bytes().to_vec()).collect(),
                    )
                })
                .collect(),
            fault,
            files: BTreeMap::new(),
            open: None,
            streaming: false,
            job: None,
            next_chunk: 0,
            writes: 0,
            log: Vec::new(),
        }
    }

    fn failed(what: &str) -> Event {
        Event::Failed(String::from(what))
    }

    fn perform(&mut self, action: Action) -> Event {
        match action {
            Action::Connect => {
                self.log.push(String::from("connect"));
                assert!(self.open.is_none() && !self.streaming);
                if self.fault == Fault::Connect {
                    return World::failed("connection refused");
                }
                Event::Completed
            }
            Action::OpenRoot => {
                self.log.push(String::from("root"));
                assert!(self.open.is_none() && !self.streaming);
                if self.fault == Fault::Root {
                    return World::failed("no such directory");
                }
                Event::Completed
            }
            Action::ListTables { query } => {
                self.log.push(String::from("list"));
                assert!(self.open.is_none() && !self.streaming);
                assert_eq!(
                    query,
                    format!(
                        "SELECT tablename FROM pg_tables WHERE schemaname = '{}'",
                        self.schema
                    )
                );
                if self.fault == Fault::Catalog {
                    return World::failed("permission denied for pg_tables");
                }
                Event::Tables(self.tables.iter().map(|(name, _)| name.clone()).collect())
            }
            Action::OpenSink { file_name, compressed: _ } => {
                self.log.push(format!("open {}", file_name));
                assert_eq!(self.open, None, "a sink is opened while another is open");
                assert!(!self.streaming);
                let job = self.job.map_or(0, |j| j + 1);
                self.job = Some(job);
                if self.fault == Fault::OpenSink(job) {
                    return World::failed("read-only file system");
                }
                self.files.insert(file_name.clone(), Vec::new());
                self.open = Some(file_name);
                self.next_chunk = 0;
                self.writes = 0;
                Event::Completed
            }
            Action::OpenStream { query } => {
                self.log.push(String::from("stream"));
                assert!(self.open.is_some() && !self.streaming);
                let job = self.job.unwrap();
                assert_eq!(
                    query,
                    format!(
                        "COPY (SELECT * FROM {}.{} ORDER BY vid) TO STDOUT WITH (FORMAT CSV, HEADER)",
                        self.schema, self.tables[job].0
                    )
                );
                if self.fault == Fault::OpenStream(job) {
                    return World::failed("relation does not exist");
                }
                self.streaming = true;
                Event::Completed
            }
            Action::ReadChunk => {
                self.log.push(String::from("read"));
                assert!(self.open.is_some() && self.streaming);
                let job = self.job.unwrap();
                if self.fault == Fault::Stream(job, self.next_chunk) {
                    return World::failed("connection reset by peer");
                }
                match self.tables[job].1.get(self.next_chunk) {
                    Some(chunk) => {
                        self.next_chunk += 1;
                        Event::Chunk(chunk.clone())
                    }
                    None => Event::EndOfStream,
                }
            }
            Action::WriteChunk { bytes } => {
                self.log.push(format!("write {}", bytes.len()));
                assert!(self.open.is_some() && self.streaming);
                let job = self.job.unwrap();
                if self.fault == Fault::Write(job, self.writes) {
                    return World::failed("no space left on device");
                }
                self.writes += 1;
                let name = self.open.clone().unwrap();
                self.files.get_mut(&name).unwrap().extend_from_slice(&bytes);
                Event::Completed
            }
            Action::Finalize => {
                self.log.push(String::from("finalize"));
                assert!(self.open.is_some() && self.streaming);
                self.streaming = false;
                if self.fault == Fault::Finalize(self.job.unwrap()) {
                    return World::failed("cannot write trailer");
                }
                Event::Completed
            }
            Action::CloseSink => {
                self.log.push(String::from("close"));
                assert!(self.open.is_some() && !self.streaming);
                if self.fault == Fault::Close(self.job.unwrap()) {
                    return World::failed("cannot sync");
                }
                self.open = None;
                Event::Completed
            }
            Action::Finish | Action::Abort { .. } => unreachable!(),
        }
    }
}

/// Runs the export against the world until it ends; returns how it ended.
fn export(world: &mut World, compressed: bool) -> (Run, Result<(), ExportError>) {
    let schema = Schema::parse(&world.schema).unwrap();
    let (mut run, mut action) = Run::start(schema, compressed);
    loop {
        match action {
            Action::Finish => return (run, Ok(())),
            Action::Abort { error } => return (run, Err(error)),
            other => {
                let event = world.perform(other);
                let (next, then) = run.step(event);
                run = next;
                action = then;
            }
        }
    }
}

fn names(world: &World) -> Vec<String> {
    world.files.keys().cloned().collect()
}

fn users() -> Vec<(&'static str, Vec<&'static str>)> {
    vec![("users", vec!["id,name\n", "1,a\n", "2,b\n"])]
}

fn two_tables() -> Vec<(&'static str, Vec<&'static str>)> {
    vec![("a", vec!["x\n", "1\n", "2\n", "3\n"]), ("b", vec!["y\n", "9\n"])]
}

#[test]
fn users_table_is_exported_as_plain_csv() {
    let mut world = World::new("public", users(), Fault::Nowhere);
    let (run, result) = export(&mut world, false);
    assert_eq!(result, Ok(()));
    assert_eq!(run.stage(), &Stage::Finished);
    assert_eq!(names(&world), vec![String::from("public_users.csv")]);
    assert_eq!(world.files["public_users.csv"], b"id,name\n1,a\n2,b\n".to_vec());
    assert_eq!(world.open, None);
}

#[test]
fn a_job_takes_its_steps_in_order() {
    let mut world = World::new("public", users(), Fault::Nowhere);
    let (_, result) = export(&mut world, false);
    assert_eq!(result, Ok(()));
    assert_eq!(
        world.log,
        vec![
            "connect",
            "root",
            "list",
            "open public_users.csv",
            "stream",
            "read",
            "write 8",
            "read",
            "write 4",
            "read",
            "write 4",
            "read",
            "finalize",
            "close",
        ]
    );
}

#[test]
fn schema_without_tables_writes_nothing() {
    let mut world = World::new("empty", Vec::new(), Fault::Nowhere);
    let (run, result) = export(&mut world, true);
    assert_eq!(result, Ok(()));
    assert!(run.is_over());
    assert!(run.tables().is_empty());
    assert!(world.files.is_empty());
    assert_eq!(world.log, vec!["connect", "root", "list"]);
}

#[test]
fn schema_without_tables_finishes_at_once() {
    let schema = Schema::parse("nothing").unwrap();
    let (run, action) = Run::start(schema, false);
    assert_eq!(action, Action::Connect);
    let (run, action) = run.step(Event::Completed);
    assert_eq!(action, Action::OpenRoot);
    let (run, action) = run.step(Event::Completed);
    assert_eq!(
        action,
        Action::ListTables {
            query: String::from("SELECT tablename FROM pg_tables WHERE schemaname = 'nothing'")
        }
    );
    let (run, action) = run.step(Event::Tables(Vec::new()));
    assert_eq!(action, Action::Finish);
    assert_eq!(run.stage(), &Stage::Finished);
}

#[test]
fn two_tables_give_two_files() {
    for compressed in [false, true] {
        let mut world = World::new("s", two_tables(), Fault::Nowhere);
        let (run, result) = export(&mut world, compressed);
        assert_eq!(result, Ok(()));
        let ext = if compressed { "csv.gz" } else { "csv" };
        assert_eq!(names(&world), vec![format!("s_a.{}", ext), format!("s_b.{}", ext)]);
        assert_eq!(world.files.len(), 2);
        assert_eq!(run.tables(), &vec![String::from("a"), String::from("b")]);
        let opened: Vec<&String> =
            world.log.iter().filter(|line| line.starts_with("open ")).collect();
        assert_eq!(opened.len(), 2);
    }
}

#[test]
fn tables_are_exported_one_after_the_other() {
    let mut world = World::new("s", two_tables(), Fault::Nowhere);
    let (_, result) = export(&mut world, false);
    assert_eq!(result, Ok(()));
    let first_close = world.log.iter().position(|line| line == "close").unwrap();
    let second_open = world.log.iter().position(|line| line == "open s_b.csv").unwrap();
    assert!(first_close < second_open);
    assert_eq!(world.files["s_a.csv"], b"x\n1\n2\n3\n".to_vec());
    assert_eq!(world.files["s_b.csv"], b"y\n9\n".to_vec());
}

#[test]
fn both_modes_hand_the_same_payload_to_the_sink() {
    let mut plain = World::new("s", two_tables(), Fault::Nowhere);
    let mut packed = World::new("s", two_tables(), Fault::Nowhere);
    assert_eq!(export(&mut plain, false).1, Ok(()));
    assert_eq!(export(&mut packed, true).1, Ok(()));
    assert_eq!(packed.files["s_a.csv.gz"], plain.files["s_a.csv"]);
    assert_eq!(packed.files["s_b.csv.gz"], plain.files["s_b.csv"]);
}

#[test]
fn second_run_rewrites_the_same_files() {
    let mut world = World::new("s", two_tables(), Fault::Nowhere);
    world.files.insert(String::from("s_a.csv"), b"stale content that is longer".to_vec());
    world.files.insert(String::from("other.txt"), b"kept".to_vec());
    assert_eq!(export(&mut world, false).1, Ok(()));
    let first = world.files.clone();
    world.job = None;
    world.log.clear();
    assert_eq!(export(&mut world, false).1, Ok(()));
    assert_eq!(world.files, first);
    assert_eq!(world.files["s_a.csv"], b"x\n1\n2\n3\n".to_vec());
    assert_eq!(world.files["other.txt"], b"kept".to_vec());
    assert_eq!(world.files.len(), 3);
}

#[test]
fn stream_failure_ends_the_run_and_keeps_the_partial_file() {
    let mut world = World::new("s", two_tables(), Fault::Stream(0, 2));
    let (run, result) = export(&mut world, false);
    let error = result.unwrap_err();
    assert_eq!(error.kind, ErrorKind::StreamError);
    assert_eq!(error.message, "connection reset by peer");
    assert_eq!(error.describe(), "stream error: connection reset by peer");
    assert_eq!(run.stage(), &Stage::Failed(error.clone()));
    // The two chunks written before the failure are still there.
    assert_eq!(names(&world), vec![String::from("s_a.csv")]);
    assert_eq!(world.files["s_a.csv"], b"x\n1\n".to_vec());
    // The second table was never begun.
    assert!(!world.log.iter().any(|line| line == "open s_b.csv"));
    assert_eq!(world.log.last().unwrap(), "read");
}

#[test]
fn stream_failure_in_the_second_table_keeps_the_first_file() {
    let mut world = World::new("s", two_tables(), Fault::Stream(1, 0));
    let (_, result) = export(&mut world, false);
    assert_eq!(result.unwrap_err().kind, ErrorKind::StreamError);
    assert_eq!(world.files["s_a.csv"], b"x\n1\n2\n3\n".to_vec());
    assert_eq!(world.files["s_b.csv"], Vec::<u8>::new());
}

#[test]
fn an_aborted_run_stays_aborted() {
    let mut world = World::new("s", two_tables(), Fault::Stream(0, 1));
    let (run, result) = export(&mut world, false);
    let error = result.unwrap_err();
    let (run, action) = run.step(Event::Completed);
    assert_eq!(action, Action::Abort { error: error.clone() });
    let (run, action) = run.step(Event::Chunk(vec![1]));
    assert_eq!(action, Action::Abort { error: error.clone() });
    let (run, action) = run.step(Event::Tables(vec![String::from("c")]));
    assert_eq!(action, Action::Abort { error: error.clone() });
    assert_eq!(run.stage(), &Stage::Failed(error));
    assert_eq!(run.tables().len(), 2);
}

#[test]
fn a_finished_run_stays_finished() {
    let mut world = World::new("s", two_tables(), Fault::Nowhere);
    let (run, result) = export(&mut world, false);
    assert_eq!(result, Ok(()));
    let (run, action) = run.step(Event::Failed(String::from("late")));
    assert_eq!(action, Action::Finish);
    let (run, action) = run.step(Event::Chunk(vec![1]));
    assert_eq!(action, Action::Finish);
    assert_eq!(run.stage(), &Stage::Finished);
}

#[test]
fn connection_failure_is_a_connection_error() {
    let mut world = World::new("s", two_tables(), Fault::Connect);
    let error = export(&mut world, true).1.unwrap_err();
    assert_eq!(error, ExportError::new(ErrorKind::ConnectionError, String::from("connection refused")));
    assert_eq!(world.log, vec!["connect"]);
}

#[test]
fn output_root_that_cannot_be_opened_aborts_before_the_catalog_is_asked() {
    let mut world = World::new("s", two_tables(), Fault::Root);
    let error = export(&mut world, false).1.unwrap_err();
    assert_eq!(error.kind, ErrorKind::SinkOpenFailed);
    assert_eq!(error.message, "no such directory");
    assert_eq!(error.describe(), "sink open failed: no such directory");
    assert_eq!(world.log, vec!["connect", "root"]);
    assert!(world.files.is_empty());
}

#[test]
fn catalog_failure_is_a_failed_catalog_query() {
    let mut world = World::new("s", two_tables(), Fault::Catalog);
    let error = export(&mut world, true).1.unwrap_err();
    assert_eq!(error.kind, ErrorKind::CatalogQueryFailed);
    assert_eq!(error.message, "permission denied for pg_tables");
    assert!(world.files.is_empty());
}

#[test]
fn sink_that_cannot_be_opened_aborts_the_run() {
    let mut world = World::new("s", two_tables(), Fault::OpenSink(1));
    let error = export(&mut world, false).1.unwrap_err();
    assert_eq!(error.kind, ErrorKind::SinkOpenFailed);
    assert_eq!(error.message, "read-only file system");
    assert_eq!(names(&world), vec![String::from("s_a.csv")]);
}

#[test]
fn stream_that_cannot_be_started_is_a_stream_error() {
    let mut world = World::new("s", two_tables(), Fault::OpenStream(0));
    let error = export(&mut world, false).1.unwrap_err();
    assert_eq!(error.kind, ErrorKind::StreamError);
    assert_eq!(error.message, "relation does not exist");
    assert_eq!(world.files["s_a.csv"], Vec::<u8>::new());
}

#[test]
fn failed_write_is_an_io_error() {
    let mut world = World::new("s", two_tables(), Fault::Write(0, 1));
    let error = export(&mut world, false).1.unwrap_err();
    assert_eq!(error.kind, ErrorKind::IoError);
    assert_eq!(error.message, "no space left on device");
    assert_eq!(world.files["s_a.csv"], b"x\n".to_vec());
    assert!(!world.log.iter().any(|line| line == "finalize"));
}

#[test]
fn failed_finalize_is_a_finalize_error() {
    let mut world = World::new("s", two_tables(), Fault::Finalize(0));
    let error = export(&mut world, true).1.unwrap_err();
    assert_eq!(error.kind, ErrorKind::FinalizeError);
    assert_eq!(error.message, "cannot write trailer");
    assert!(!world.log.iter().any(|line| line == "close"));
    assert!(!world.log.iter().any(|line| line == "open s_b.csv.gz"));
}

#[test]
fn failed_close_is_a_finalize_error() {
    let mut world = World::new("s", two_tables(), Fault::Close(1));
    let error = export(&mut world, false).1.unwrap_err();
    assert_eq!(error.kind, ErrorKind::FinalizeError);
    assert_eq!(error.message, "cannot sync");
    assert_eq!(world.files["s_b.csv"], b"y\n9\n".to_vec());
}

#[test]
fn an_unexpected_event_aborts_the_run() {
    let schema = Schema::parse("s").unwrap();
    let (run, _) = Run::start(schema, false);
    let (run, action) = run.step(Event::Chunk(vec![1, 2]));
    assert_eq!(
        action,
        Action::Abort {
            error: ExportError::new(ErrorKind::ConnectionError, String::from("unexpected event"))
        }
    );
    assert!(run.is_over());
}

#[test]
fn an_unexpected_event_while_the_root_is_opened_is_a_failed_open() {
    let schema = Schema::parse("s").unwrap();
    let (run, _) = Run::start(schema, false);
    let (run, action) = run.step(Event::Completed);
    assert_eq!(action, Action::OpenRoot);
    let (run, action) = run.step(Event::Tables(vec![String::from("t")]));
    assert_eq!(
        action,
        Action::Abort {
            error: ExportError::new(ErrorKind::SinkOpenFailed, String::from("unexpected event"))
        }
    );
    assert!(run.is_over());
    assert!(run.tables().is_empty());
}

#[test]
fn an_unexpected_event_while_listing_is_a_failed_catalog_query() {
    let schema = Schema::parse("s").unwrap();
    let (run, _) = Run::start(schema, false);
    let (run, _) = run.step(Event::Completed);
    let (run, _) = run.step(Event::Completed);
    let (_, action) = run.step(Event::Completed);
    assert_eq!(
        action,
        Action::Abort {
            error: ExportError::new(
                ErrorKind::CatalogQueryFailed,
                String::from("unexpected event")
            )
        }
    );
}

#[test]
fn chunks_are_written_as_they_are() {
    let schema = Schema::parse("s").unwrap();
    let (run, _) = Run::start(schema, true);
    let (run, _) = run.step(Event::Completed);
    let (run, _) = run.step(Event::Completed);
    let (run, action) = run.step(Event::Tables(vec![String::from("t")]));
    assert_eq!(
        action,
        Action::OpenSink { file_name: String::from("s_t.csv.gz"), compressed: true }
    );
    let (run, _) = run.step(Event::Completed);
    let (run, action) = run.step(Event::Completed);
    assert_eq!(action, Action::ReadChunk);
    let bytes: Vec<u8> = (0..=255).collect();
    let (run, action) = run.step(Event::Chunk(bytes.clone()));
    assert_eq!(action, Action::WriteChunk { bytes });
    let (run, action) = run.step(Event::Completed);
    assert_eq!(action, Action::ReadChunk);
    let (run, action) = run.step(Event::Chunk(Vec::new()));
    assert_eq!(action, Action::WriteChunk { bytes: Vec::new() });
    assert_eq!(run.stage(), &Stage::Exporting { index: 0, step: JobStep::Writing });
}

#[test]
fn accessors_tell_where_the_run_stands() {
    let schema = Schema::parse("sgd5").unwrap();
    let (run, _) = Run::start(schema, true);
    assert_eq!(run.schema(), "sgd5");
    assert!(run.compressed());
    assert!(run.tables().is_empty());
    assert!(run.current_job().is_none());
    assert!(!run.is_over());
    assert_eq!(run.stage(), &Stage::Connecting);
    let (run, _) = run.step(Event::Completed);
    assert_eq!(run.stage(), &Stage::OpeningRoot);
    let (run, _) = run.step(Event::Completed);
    assert_eq!(run.stage(), &Stage::Listing);
    let (run, _) = run.step(Event::Tables(vec![String::from("a"), String::from("b")]));
    assert_eq!(run.stage(), &Stage::Exporting { index: 0, step: JobStep::OpeningSink });
    let job = run.current_job().unwrap();
    assert_eq!(job.table, "a");
    assert_eq!(job.schema.as_str(), "sgd5");
    assert!(job.compressed);
    assert_eq!(job.file_name(), "sgd5_a.csv.gz");
}

#[test]
fn report_of_an_event() {
    assert_eq!(Event::Failed(String::from("why")).into_report(), "why");
    assert_eq!(Event::Completed.into_report(), "unexpected event");
    assert_eq!(Event::EndOfStream.into_report(), "unexpected event");
}

#[test]
fn sink_and_stream_are_taken_and_released_in_order() {
    let faults = [
        Fault::Nowhere,
        Fault::Connect,
        Fault::Root,
        Fault::Catalog,
        Fault::OpenSink(0),
        Fault::OpenStream(1),
        Fault::Stream(0, 3),
        Fault::Stream(1, 2),
        Fault::Write(1, 0),
        Fault::Finalize(0),
        Fault::Close(0),
    ];
    for fault in faults {
        for compressed in [false, true] {
            // The world panics on any action that comes out of order.
            let mut world = World::new("s", two_tables(), fault.clone());
            let (run, result) = export(&mut world, compressed);
            assert!(run.is_over());
            assert_eq!(result.is_ok(), fault == Fault::Nowhere);
            if result.is_ok() {
                assert_eq!(world.open, None);
                assert!(!world.streaming);
            }
        }
    }
}
