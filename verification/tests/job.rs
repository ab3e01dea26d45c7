use sg_to_csv::error::ErrorKind;
use sg_to_csv::identifier::Schema;
use sg_to_csv::job::{ExportJob, JobPhase, JobState, JobStep};
use sg_to_csv::protocol::{Action, Event};

fn steps() -> [JobStep; 6] {
    [
        JobStep::OpeningSink,
        JobStep::OpeningStream,
        JobStep::Reading,
        JobStep::Writing,
        JobStep::Finalizing,
        JobStep::Closing,
    ]
}

fn rank(phase: JobPhase) -> u8 {
    match phase {
        JobPhase::Opening => 0,
        JobPhase::Streaming => 1,
        JobPhase::Finalizing => 2,
        JobPhase::Closed => 3,
        JobPhase::Failed => 4,
    }
}

fn events() -> Vec<Event> {
    vec![
        Event::Completed,
        Event::Tables(vec![String::from("t")]),
        Event::Chunk(vec![1, 2, 3]),
        Event::EndOfStream,
        Event::Failed(String::from("broken")),
    ]
}

#[test]
fn a_job_walks_through_its_steps() {
    assert_eq!(
        JobStep::OpeningSink.next(&Event::Completed),
        JobState::Active(JobStep::OpeningStream)
    );
    assert_eq!(
        JobStep::OpeningStream.next(&Event::Completed),
        JobState::Active(JobStep::Reading)
    );
    assert_eq!(
        JobStep::Reading.next(&Event::Chunk(vec![7])),
        JobState::Active(JobStep::Writing)
    );
    assert_eq!(JobStep::Writing.next(&Event::Completed), JobState::Active(JobStep::Reading));
    assert_eq!(
        JobStep::Reading.next(&Event::EndOfStream),
        JobState::Active(JobStep::Finalizing)
    );
    assert_eq!(JobStep::Finalizing.next(&Event::Completed), JobState::Active(JobStep::Closing));
    assert_eq!(JobStep::Closing.next(&Event::Completed), JobState::Closed);
}

#[test]
fn an_empty_chunk_is_a_chunk() {
    assert_eq!(
        JobStep::Reading.next(&Event::Chunk(Vec::new())),
        JobState::Active(JobStep::Writing)
    );
}

#[test]
fn a_failure_fails_the_job_at_every_step() {
    let failed = Event::Failed(String::from("no"));
    assert_eq!(JobStep::OpeningSink.next(&failed), JobState::Failed(ErrorKind::SinkOpenFailed));
    assert_eq!(JobStep::OpeningStream.next(&failed), JobState::Failed(ErrorKind::StreamError));
    assert_eq!(JobStep::Reading.next(&failed), JobState::Failed(ErrorKind::StreamError));
    assert_eq!(JobStep::Writing.next(&failed), JobState::Failed(ErrorKind::IoError));
    assert_eq!(JobStep::Finalizing.next(&failed), JobState::Failed(ErrorKind::FinalizeError));
    assert_eq!(JobStep::Closing.next(&failed), JobState::Failed(ErrorKind::FinalizeError));
}

#[test]
fn an_event_that_does_not_answer_the_step_fails_the_job() {
    assert_eq!(
        JobStep::Reading.next(&Event::Completed),
        JobState::Failed(ErrorKind::StreamError)
    );
    assert_eq!(
        JobStep::Writing.next(&Event::Chunk(vec![1])),
        JobState::Failed(ErrorKind::IoError)
    );
    assert_eq!(
        JobStep::OpeningSink.next(&Event::EndOfStream),
        JobState::Failed(ErrorKind::SinkOpenFailed)
    );
    assert_eq!(
        JobStep::Closing.next(&Event::Tables(Vec::new())),
        JobState::Failed(ErrorKind::FinalizeError)
    );
}

#[test]
fn failure_kinds_follow_the_step() {
    assert_eq!(JobStep::OpeningSink.failure_kind(), ErrorKind::SinkOpenFailed);
    assert_eq!(JobStep::OpeningStream.failure_kind(), ErrorKind::StreamError);
    assert_eq!(JobStep::Reading.failure_kind(), ErrorKind::StreamError);
    assert_eq!(JobStep::Writing.failure_kind(), ErrorKind::IoError);
    assert_eq!(JobStep::Finalizing.failure_kind(), ErrorKind::FinalizeError);
    assert_eq!(JobStep::Closing.failure_kind(), ErrorKind::FinalizeError);
}

#[test]
fn phases_group_the_steps() {
    assert_eq!(JobStep::OpeningSink.phase(), JobPhase::Opening);
    assert_eq!(JobStep::OpeningStream.phase(), JobPhase::Opening);
    assert_eq!(JobStep::Reading.phase(), JobPhase::Streaming);
    assert_eq!(JobStep::Writing.phase(), JobPhase::Streaming);
    assert_eq!(JobStep::Finalizing.phase(), JobPhase::Finalizing);
    assert_eq!(JobStep::Closing.phase(), JobPhase::Finalizing);
    assert_eq!(JobState::Active(JobStep::Writing).phase(), JobPhase::Streaming);
    assert_eq!(JobState::Closed.phase(), JobPhase::Closed);
    assert_eq!(JobState::Failed(ErrorKind::IoError).phase(), JobPhase::Failed);
}

#[test]
fn no_event_takes_a_job_back_to_an_earlier_phase() {
    for step in steps() {
        for event in events() {
            let before = rank(step.phase());
            let after = rank(step.next(&event).phase());
            assert!(before <= after, "{:?} on {:?}", step, event);
        }
    }
}

#[test]
fn only_the_close_closes_a_job() {
    for step in steps() {
        for event in events() {
            let closed = step.next(&event) == JobState::Closed;
            assert_eq!(closed, step == JobStep::Closing && event == Event::Completed);
        }
    }
}

#[test]
fn a_job_asks_for_what_its_step_needs() {
    let schema = Schema::parse("sgd9").unwrap();
    let job = ExportJob { schema: &schema, table: "pair", compressed: false };
    assert_eq!(
        job.request(JobStep::OpeningSink, Event::Completed),
        Action::OpenSink { file_name: String::from("sgd9_pair.csv"), compressed: false }
    );
    assert_eq!(
        job.request(JobStep::OpeningStream, Event::Completed),
        Action::OpenStream {
            query: String::from(
                "COPY (SELECT * FROM sgd9.pair ORDER BY vid) TO STDOUT WITH (FORMAT CSV, HEADER)"
            )
        }
    );
    assert_eq!(job.request(JobStep::Reading, Event::Completed), Action::ReadChunk);
    assert_eq!(
        job.request(JobStep::Writing, Event::Chunk(vec![0, 255, 10])),
        Action::WriteChunk { bytes: vec![0, 255, 10] }
    );
    assert_eq!(job.request(JobStep::Finalizing, Event::EndOfStream), Action::Finalize);
    assert_eq!(job.request(JobStep::Closing, Event::Completed), Action::CloseSink);
}
