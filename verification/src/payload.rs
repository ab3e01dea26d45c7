//! What a job puts into its file: the chunks of the row stream, each as it
//! came and in the order in which they came, in either mode.

use crate::error::{ErrorKind, ErrorModel};
use crate::job::JobStep;
use crate::naming::file_name_text;
use crate::protocol::{ActionModel, EventModel};
use crate::run::{begin_job_model, step_model, RunModel, StageModel};
use crate::storage::{
    deliver, lemma_deliver_concat, lemma_deliver_one, lemma_written_chunks_concat,
    lemma_written_chunks_one, perform, written_chunks, Storage,
};
use crate::trace::{
    actions_for, lemma_actions_unfold, lemma_run_splits, lemma_two_steps, run_after,
};
use vstd::prelude::*;

verus! {

/// The events of a row stream that yields the chunks one by one, each
/// followed by the success of its write.
pub open spec fn chunk_events(chunks: Seq<Seq<u8>>) -> Seq<EventModel>
    decreases chunks.len(),
{
    if chunks.len() == 0 {
        Seq::empty()
    } else {
        seq![EventModel::Chunk(chunks[0]), EventModel::Completed] + chunk_events(
            chunks.drop_first(),
        )
    }
}

/// The events of a job in which nothing fails: the sink opens, the stream
/// opens, the chunks are read and written, the stream ends, the sink is
/// finalized and closed.
pub open spec fn job_events(chunks: Seq<Seq<u8>>) -> Seq<EventModel> {
    streaming_events(chunks) + seq![
        EventModel::EndOfStream,
        EventModel::Completed,
        EventModel::Completed,
    ]
}

/// The output root with `bytes` appended to the file whose sink is open.
pub open spec fn appended(storage: Storage, bytes: Seq<u8>) -> Storage {
    match storage.open {
        Some(name) => Storage {
            payload: storage.payload.insert(name, storage.payload[name] + bytes),
            open: storage.open,
        },
        None => storage,
    }
}

/// Two actions write what the one writes, then what the other writes.
proof fn lemma_written_chunks_two(one: ActionModel, two: ActionModel)
    ensures
        written_chunks(seq![one, two]) == written_chunks(seq![one]) + written_chunks(seq![two]),
{
    assert(seq![one, two] =~= seq![one] + seq![two]);
    lemma_written_chunks_concat(seq![one], seq![two]);
}

/// Delivering two actions is performing the one, then the other.
proof fn lemma_deliver_two(storage: Storage, one: ActionModel, two: ActionModel)
    ensures
        deliver(storage, seq![one, two]) == perform(perform(storage, one), two),
{
    assert(seq![one, two] =~= seq![one] + seq![two]);
    lemma_deliver_concat(storage, seq![one], seq![two]);
    lemma_deliver_one(storage, one);
    lemma_deliver_one(perform(storage, one), two);
}

/// While a job streams, it writes what it reads: the chunks that the row
/// stream yields are the chunks written, each unchanged and in the same
/// order, and the file grows by their concatenation. The job is then where
/// it was, waiting for the next chunk.
pub proof fn lemma_streaming_appends_the_chunks(
    run: RunModel,
    chunks: Seq<Seq<u8>>,
    storage: Storage,
)
    requires
        run.wf(),
        run.stage matches StageModel::Exporting { step, .. } && step == JobStep::Reading,
        storage.open is Some,
        storage.wf(),
    ensures
        run_after(run, chunk_events(chunks)) == run,
        written_chunks(actions_for(run, chunk_events(chunks))) == chunks,
        deliver(storage, actions_for(run, chunk_events(chunks))) == appended(
            storage,
            chunks.flatten(),
        ),
    decreases chunks.len(),
{
    let name = storage.open->Some_0;
    if chunks.len() == 0 {
        assert(storage.payload[name] + chunks.flatten() =~= storage.payload[name]);
        assert(storage.payload.insert(name, storage.payload[name]) =~= storage.payload);
    } else {
        let head = seq![EventModel::Chunk(chunks[0]), EventModel::Completed];
        let rest = chunks.drop_first();
        let write = ActionModel::WriteChunk { bytes: chunks[0] };
        lemma_two_steps(run, head[0], head[1]);
        assert(actions_for(run, head) == seq![write, ActionModel::ReadChunk]);
        assert(run_after(run, head) == run);
        lemma_run_splits(run, head, chunk_events(rest));
        let grown = appended(storage, chunks[0]);
        lemma_deliver_two(storage, write, ActionModel::ReadChunk);
        assert(deliver(storage, actions_for(run, head)) == grown);
        lemma_streaming_appends_the_chunks(run, rest, grown);
        lemma_deliver_concat(storage, actions_for(run, head), actions_for(run, chunk_events(rest)));
        lemma_written_chunks_concat(
            actions_for(run, head),
            actions_for(run, chunk_events(rest)),
        );
        assert(written_chunks(actions_for(run, head)) =~= seq![chunks[0]]) by {
            lemma_written_chunks_two(write, ActionModel::ReadChunk);
            lemma_written_chunks_one(write);
            lemma_written_chunks_one(ActionModel::ReadChunk);
        }
        assert(seq![chunks[0]] + rest =~= chunks);
        assert((storage.payload[name] + chunks[0]) + rest.flatten() =~= storage.payload[name]
            + chunks.flatten());
        assert(grown.payload.insert(name, grown.payload[name] + rest.flatten())
            =~= storage.payload.insert(name, storage.payload[name] + chunks.flatten()));
    }
}

/// The events of a job up to the point where its stream has yielded the
/// chunks and each has been written.
pub open spec fn streaming_events(chunks: Seq<Seq<u8>>) -> Seq<EventModel> {
    seq![EventModel::Completed, EventModel::Completed] + chunk_events(chunks)
}

/// The index of the table that a run is exporting.
pub open spec fn tables_index(run: RunModel) -> int {
    match run.stage {
        StageModel::Exporting { index, .. } => index as int,
        _ => 0,
    }
}

/// The file of the table that the run is exporting.
pub open spec fn current_file(run: RunModel) -> Seq<char> {
    file_name_text(run.schema, run.tables[tables_index(run)], run.compressed)
}

/// The request to open the file of the table that the run is exporting.
pub open spec fn current_open(run: RunModel) -> ActionModel {
    ActionModel::OpenSink { file_name: current_file(run), compressed: run.compressed }
}

/// A job that has opened its sink and its stream and has read and written
/// the chunks waits for the next chunk; its file holds the chunks so far,
/// concatenated in the order in which they were read, and its sink is open.
proof fn lemma_job_streams(run: RunModel, chunks: Seq<Seq<u8>>, before: Storage)
    requires
        run.wf(),
        run.stage matches StageModel::Exporting { step, .. } && step == JobStep::OpeningSink,
    ensures
        ({
            let actions = actions_for(run, streaming_events(chunks));
            let streamed = deliver(perform(before, current_open(run)), actions);
            &&& run_after(run, streaming_events(chunks)) == run.at(
                StageModel::Exporting {
                    index: run.stage->Exporting_index,
                    step: JobStep::Reading,
                },
            )
            &&& actions.len() == 2 * chunks.len() + 2
            &&& actions[0] == (ActionModel::OpenStream {
                query: crate::query::copy_query_text(run.schema, run.tables[tables_index(run)]),
            })
            &&& written_chunks(actions) == chunks
            &&& streamed.payload == before.payload.insert(current_file(run), chunks.flatten())
            &&& streamed.open == Some(current_file(run))
        }),
{
    let index = run.stage->Exporting_index;
    let name = current_file(run);
    let opened = perform(before, current_open(run));
    let head = seq![EventModel::Completed, EventModel::Completed];
    let middle = chunk_events(chunks);
    let reading = run.at(StageModel::Exporting { index, step: JobStep::Reading });

    // The sink has opened, the stream has opened.
    lemma_two_steps(run, head[0], head[1]);
    let head_actions = actions_for(run, head);
    assert(run_after(run, head) == reading);
    assert(head_actions[1] == ActionModel::ReadChunk);
    lemma_deliver_two(opened, head_actions[0], head_actions[1]);
    assert(deliver(opened, head_actions) == opened);
    assert(written_chunks(head_actions) =~= Seq::<Seq<u8>>::empty()) by {
        assert(head_actions =~= seq![head_actions[0], head_actions[1]]);
        lemma_written_chunks_two(head_actions[0], head_actions[1]);
        lemma_written_chunks_one(head_actions[0]);
        lemma_written_chunks_one(head_actions[1]);
    }

    // The chunks.
    lemma_streaming_appends_the_chunks(reading, chunks, opened);
    let middle_actions = actions_for(reading, middle);
    lemma_chunk_events_len(reading, chunks);
    let streamed = deliver(opened, middle_actions);
    assert(opened.payload[name] + chunks.flatten() =~= chunks.flatten());
    assert(streamed.payload =~= before.payload.insert(name, chunks.flatten()));

    lemma_run_splits(run, head, middle);
    lemma_deliver_concat(opened, head_actions, middle_actions);
    lemma_written_chunks_concat(head_actions, middle_actions);
    assert(written_chunks(head_actions) + written_chunks(middle_actions) =~= chunks);
}

/// A job in which nothing fails leaves in its file exactly the chunks of the
/// row stream, concatenated in the order in which they were read, and
/// nothing else; it touches no other file; it finalizes and then closes its
/// sink; and it hands the run on to the next table.
///
/// `before` is the output root when the job's file is about to be opened.
pub proof fn lemma_job_writes_the_stream(run: RunModel, chunks: Seq<Seq<u8>>, before: Storage)
    requires
        run.wf(),
        run.stage matches StageModel::Exporting { step, .. } && step == JobStep::OpeningSink,
    ensures
        ({
            let index = run.stage->Exporting_index;
            let actions = actions_for(run, job_events(chunks));
            let done = deliver(perform(before, current_open(run)), actions.drop_last());
            &&& run_after(run, job_events(chunks)) == begin_job_model(run, index + 1).0
            &&& actions.len() == 2 * chunks.len() + 5
            &&& actions[0] == (ActionModel::OpenStream {
                query: crate::query::copy_query_text(run.schema, run.tables[index as int]),
            })
            &&& actions[actions.len() - 3] == ActionModel::Finalize
            &&& actions[actions.len() - 2] == ActionModel::CloseSink
            &&& actions.last() == begin_job_model(run, index + 1).1
            &&& written_chunks(actions.drop_last()) == chunks
            &&& done.payload == before.payload.insert(current_file(run), chunks.flatten())
            &&& done.open is None
        }),
{
    let index = run.stage->Exporting_index;
    let opened = perform(before, current_open(run));
    let tail = seq![EventModel::EndOfStream, EventModel::Completed, EventModel::Completed];
    let reading = run.at(StageModel::Exporting { index, step: JobStep::Reading });
    lemma_job_streams(run, chunks, before);
    let stream_actions = actions_for(run, streaming_events(chunks));
    let streamed = deliver(opened, stream_actions);

    // The stream has ended, the sink is finalized and closed.
    let (finalizing, finalize) = step_model(reading, tail[0]);
    lemma_two_steps(finalizing, tail[1], tail[2]);
    assert(tail.drop_first() =~= seq![tail[1], tail[2]]);
    lemma_actions_unfold(reading, tail);
    let tail_actions = actions_for(reading, tail);
    assert(tail_actions =~= seq![finalize] + actions_for(finalizing, seq![tail[1], tail[2]]));
    assert(tail_actions =~= seq![
        ActionModel::Finalize,
        ActionModel::CloseSink,
        begin_job_model(run, index + 1).1,
    ]);
    assert(run_after(reading, tail) == run_after(finalizing, tail.drop_first()));
    assert(run_after(reading, tail) == begin_job_model(run, index + 1).0);

    // All of it.
    lemma_run_splits(run, streaming_events(chunks), tail);
    let actions = actions_for(run, job_events(chunks));
    assert(actions == stream_actions + tail_actions);
    let quiet = seq![ActionModel::Finalize, ActionModel::CloseSink];
    assert(tail_actions.drop_last() =~= quiet);
    assert(actions.drop_last() =~= stream_actions + quiet);
    lemma_deliver_concat(opened, stream_actions, quiet);
    lemma_deliver_two(streamed, ActionModel::Finalize, ActionModel::CloseSink);
    lemma_written_chunks_concat(stream_actions, quiet);
    assert(written_chunks(quiet) =~= Seq::<Seq<u8>>::empty()) by {
        lemma_written_chunks_two(ActionModel::Finalize, ActionModel::CloseSink);
        lemma_written_chunks_one(ActionModel::Finalize);
        lemma_written_chunks_one(ActionModel::CloseSink);
    }
    assert(written_chunks(actions.drop_last()) =~= chunks);
}

/// A job whose row stream breaks after it has yielded some chunks aborts
/// the run with a stream error that carries the report. The chunks read
/// before the failure have all been written, and the file keeps them: it
/// is left as it is, cut short and not deleted.
///
/// `before` is the output root when the job's file is about to be opened.
pub proof fn lemma_broken_stream_keeps_what_was_written(
    run: RunModel,
    chunks: Seq<Seq<u8>>,
    report: Seq<char>,
    before: Storage,
)
    requires
        run.wf(),
        run.stage matches StageModel::Exporting { step, .. } && step == JobStep::OpeningSink,
    ensures
        ({
            let events = streaming_events(chunks) + seq![EventModel::Failed(report)];
            let error = ErrorModel { kind: ErrorKind::StreamError, message: report };
            let actions = actions_for(run, events);
            let left = deliver(perform(before, current_open(run)), actions);
            &&& run_after(run, events) == run.at(StageModel::Failed(error))
            &&& actions.last() == (ActionModel::Abort { error })
            &&& written_chunks(actions) == chunks
            &&& left.payload == before.payload.insert(current_file(run), chunks.flatten())
        }),
{
    let index = run.stage->Exporting_index;
    let opened = perform(before, current_open(run));
    let reading = run.at(StageModel::Exporting { index, step: JobStep::Reading });
    let failure = seq![EventModel::Failed(report)];
    let error = ErrorModel { kind: ErrorKind::StreamError, message: report };
    let abort = ActionModel::Abort { error };
    lemma_job_streams(run, chunks, before);
    let stream_actions = actions_for(run, streaming_events(chunks));
    lemma_run_splits(run, streaming_events(chunks), failure);
    lemma_actions_unfold(reading, failure);
    assert(failure.drop_first() =~= Seq::<EventModel>::empty());
    assert(actions_for(reading, failure) =~= seq![abort]);
    assert(run_after(reading, failure) == run_after(
        step_model(reading, failure[0]).0,
        failure.drop_first(),
    ));
    lemma_deliver_concat(opened, stream_actions, seq![abort]);
    lemma_deliver_one(deliver(opened, stream_actions), abort);
    lemma_written_chunks_concat(stream_actions, seq![abort]);
    lemma_written_chunks_one(abort);
    assert(written_chunks(stream_actions) + Seq::<Seq<u8>>::empty() =~= chunks);
}

/// A stream of chunks is answered by two actions for each chunk.
proof fn lemma_chunk_events_len(run: RunModel, chunks: Seq<Seq<u8>>)
    ensures
        chunk_events(chunks).len() == 2 * chunks.len(),
        actions_for(run, chunk_events(chunks)).len() == 2 * chunks.len(),
    decreases chunks.len(),
{
    if chunks.len() > 0 {
        lemma_chunk_events_len(run, chunks.drop_first());
        lemma_actions_unfold(run, chunk_events(chunks));
    }
}

} // verus!
