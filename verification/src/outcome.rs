//! What a whole run leaves behind when nothing fails: one file per table,
//! each holding the stream of its table.

use crate::identifier::is_valid_schema_name;
use crate::job::JobStep;
use crate::naming::file_name_text;
use crate::payload::{current_file, current_open, job_events, lemma_job_writes_the_stream};
use crate::protocol::{ActionModel, EventModel};
use crate::run::{begin_job_model, step_model, RunModel, StageModel};
use crate::storage::{deliver, lemma_deliver_concat, lemma_deliver_one, perform, Storage};
use crate::trace::{
    actions_for, lemma_run_splits, lemma_step_keeps_wf, lemma_three_steps, run_after, whole_run,
};
use vstd::prelude::*;

verus! {

/// The events of the jobs of a run in which nothing fails, one job after the
/// other; `streams` holds the chunks of each table's row stream.
pub open spec fn jobs_events(streams: Seq<Seq<Seq<u8>>>) -> Seq<EventModel>
    decreases streams.len(),
{
    if streams.len() == 0 {
        Seq::empty()
    } else {
        job_events(streams[0]) + jobs_events(streams.drop_first())
    }
}

/// The events of a run in which nothing fails: the connection is
/// established, the output root is opened, the catalog lists the tables,
/// and each table's job runs to its end.
pub open spec fn run_events(tables: Seq<Seq<char>>, streams: Seq<Seq<Seq<u8>>>) -> Seq<
    EventModel,
> {
    seq![EventModel::Completed, EventModel::Completed, EventModel::Tables(tables)] + jobs_events(
        streams,
    )
}

/// The payloads after the tables from `from` on have been exported in turn:
/// each table's file holds its stream, the chunks concatenated in order. A
/// table listed twice is exported twice, and its file holds the later
/// stream.
pub open spec fn exported(
    payload: Map<Seq<char>, Seq<u8>>,
    schema: Seq<char>,
    compressed: bool,
    tables: Seq<Seq<char>>,
    streams: Seq<Seq<Seq<u8>>>,
    from: int,
) -> Map<Seq<char>, Seq<u8>>
    decreases tables.len() - from,
{
    if 0 <= from < tables.len() {
        exported(
            payload.insert(file_name_text(schema, tables[from], compressed), streams[from].flatten()),
            schema,
            compressed,
            tables,
            streams,
            from + 1,
        )
    } else {
        payload
    }
}

/// From the job of one table to the end of the run: if nothing fails, the
/// run finishes, closes every sink, and leaves in the file of each remaining
/// table the stream of that table.
proof fn lemma_remaining_jobs_export_their_tables(
    run: RunModel,
    streams: Seq<Seq<Seq<u8>>>,
    before: Storage,
)
    requires
        run.wf(),
        run.stage matches StageModel::Exporting { step, .. } && step == JobStep::OpeningSink,
        streams.len() == run.tables.len(),
    ensures
        ({
            let index = run.stage->Exporting_index as int;
            let events = jobs_events(streams.subrange(index, streams.len() as int));
            let left = deliver(perform(before, current_open(run)), actions_for(run, events));
            &&& run_after(run, events) == run.at(StageModel::Finished)
            &&& left.open is None
            &&& left.payload == exported(
                before.payload,
                run.schema,
                run.compressed,
                run.tables,
                streams,
                index,
            )
        }),
    decreases run.tables.len() - run.stage->Exporting_index,
{
    let index = run.stage->Exporting_index as int;
    let ahead = streams.subrange(index, streams.len() as int);
    let events = jobs_events(ahead);
    let job = job_events(streams[index]);
    let later = jobs_events(ahead.drop_first());
    assert(ahead[0] == streams[index]);
    assert(ahead.drop_first() =~= streams.subrange(index + 1, streams.len() as int));
    assert(events == job + later);

    lemma_job_writes_the_stream(run, streams[index], before);
    lemma_run_splits(run, job, later);
    let opened = perform(before, current_open(run));
    let job_actions = actions_for(run, job);
    let (next, handover) = begin_job_model(run, (index + 1) as nat);
    let closed = deliver(opened, job_actions.drop_last());
    assert(job_actions =~= job_actions.drop_last() + seq![handover]);
    lemma_deliver_concat(opened, job_actions.drop_last(), seq![handover]);
    lemma_deliver_one(closed, handover);
    lemma_deliver_concat(opened, job_actions, actions_for(next, later));
    assert(closed.payload == before.payload.insert(current_file(run), streams[index].flatten()));

    if index + 1 < run.tables.len() {
        assert(handover == current_open(next));
        lemma_remaining_jobs_export_their_tables(next, streams, closed);
    } else {
        assert(later =~= Seq::<EventModel>::empty());
        assert(ahead.drop_first().len() == 0);
        assert(actions_for(next, later) =~= Seq::<ActionModel>::empty());
        assert(exported(
            closed.payload,
            run.schema,
            run.compressed,
            run.tables,
            streams,
            index + 1,
        ) == closed.payload);
    }
}

/// A run in which nothing fails exports every table: it finishes, leaves no
/// sink open, and leaves in the output root, for each table that the catalog
/// listed, a file named after schema, table and mode that holds exactly the
/// chunks of that table's row stream, in the order in which they were read.
/// No other file is created or changed.
pub proof fn lemma_run_exports_every_table(
    schema: Seq<char>,
    compressed: bool,
    tables: Seq<Seq<char>>,
    streams: Seq<Seq<Seq<u8>>>,
    before: Storage,
)
    requires
        is_valid_schema_name(schema),
        streams.len() == tables.len(),
        before.open is None,
    ensures
        ({
            let events = run_events(tables, streams);
            let end = run_after(RunModel::initial(schema, compressed), events);
            let left = deliver(before, whole_run(schema, compressed, events));
            &&& end.stage is Finished
            &&& end.tables == tables
            &&& left.open is None
            &&& left.payload == exported(before.payload, schema, compressed, tables, streams, 0)
        }),
{
    let start = RunModel::initial(schema, compressed);
    let head = seq![EventModel::Completed, EventModel::Completed, EventModel::Tables(tables)];
    let jobs = jobs_events(streams);
    let events = run_events(tables, streams);
    let (rooting, root) = step_model(start, head[0]);
    let (listing, list) = step_model(rooting, head[1]);
    let (begun, first) = step_model(listing, head[2]);
    lemma_step_keeps_wf(start, head[0]);
    lemma_step_keeps_wf(rooting, head[1]);
    lemma_step_keeps_wf(listing, head[2]);

    // The three steps before the first job.
    lemma_three_steps(start, head[0], head[1], head[2]);
    lemma_run_splits(start, head, jobs);

    let rest = actions_for(begun, jobs);
    let quiet = seq![ActionModel::Connect, root, list];
    let actions = whole_run(schema, compressed, events);
    assert(actions =~= quiet + (seq![first] + rest));
    lemma_deliver_concat(before, quiet, seq![first] + rest);
    assert(quiet =~= seq![ActionModel::Connect] + seq![root, list]);
    lemma_deliver_concat(before, seq![ActionModel::Connect], seq![root, list]);
    lemma_deliver_one(before, ActionModel::Connect);
    assert(seq![root, list] =~= seq![root] + seq![list]);
    lemma_deliver_concat(before, seq![root], seq![list]);
    lemma_deliver_one(before, root);
    lemma_deliver_one(before, list);
    assert(deliver(before, quiet) == before);
    lemma_deliver_concat(before, seq![first], rest);
    lemma_deliver_one(before, first);

    if tables.len() == 0 {
        assert(jobs =~= Seq::<EventModel>::empty());
        assert(rest =~= Seq::<ActionModel>::empty());
        assert(perform(before, first) == before);
    } else {
        assert(first == current_open(begun));
        assert(streams.subrange(0, streams.len() as int) =~= streams);
        lemma_remaining_jobs_export_their_tables(begun, streams, before);
    }
}

/// If the tables are listed without repetition, a run in which nothing fails
/// leaves in the file of each table exactly that table's stream.
pub proof fn lemma_each_file_holds_its_stream(
    schema: Seq<char>,
    compressed: bool,
    tables: Seq<Seq<char>>,
    streams: Seq<Seq<Seq<u8>>>,
    before: Storage,
    index: int,
)
    requires
        is_valid_schema_name(schema),
        streams.len() == tables.len(),
        before.open is None,
        0 <= index < tables.len(),
        forall|i: int, j: int| 0 <= i < j < tables.len() ==> tables[i] != tables[j],
    ensures
        ({
            let left = deliver(
                before,
                whole_run(schema, compressed, run_events(tables, streams)),
            );
            let name = file_name_text(schema, tables[index], compressed);
            &&& left.payload.contains_key(name)
            &&& left.payload[name] == streams[index].flatten()
        }),
{
    lemma_run_exports_every_table(schema, compressed, tables, streams, before);
    lemma_exported_holds_each_stream(
        before.payload,
        schema,
        compressed,
        tables,
        streams,
        0,
        index,
    );
}

/// Among tables listed without repetition, exporting those from `from` on
/// leaves in the file of each of them its stream, and leaves every other
/// file as it was.
proof fn lemma_exported_holds_each_stream(
    payload: Map<Seq<char>, Seq<u8>>,
    schema: Seq<char>,
    compressed: bool,
    tables: Seq<Seq<char>>,
    streams: Seq<Seq<Seq<u8>>>,
    from: int,
    index: int,
)
    requires
        0 <= from <= tables.len(),
        0 <= index < tables.len(),
        forall|i: int, j: int| 0 <= i < j < tables.len() ==> tables[i] != tables[j],
    ensures
        ({
            let after = exported(payload, schema, compressed, tables, streams, from);
            let name = file_name_text(schema, tables[index], compressed);
            &&& from <= index ==> after.contains_key(name) && after[name]
                == streams[index].flatten()
            &&& index < from ==> after.contains_key(name) == payload.contains_key(name)
                && after[name] == payload[name]
        }),
    decreases tables.len() - from,
{
    if from < tables.len() {
        let here = file_name_text(schema, tables[from], compressed);
        let name = file_name_text(schema, tables[index], compressed);
        if here == name {
            crate::naming::lemma_file_name_determines_table(
                schema,
                tables[from],
                tables[index],
                compressed,
            );
        }
        lemma_exported_holds_each_stream(
            payload.insert(here, streams[from].flatten()),
            schema,
            compressed,
            tables,
            streams,
            from + 1,
            index,
        );
    }
}

} // verus!
