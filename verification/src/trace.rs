//! Whole runs: what a run does over a sequence of events, and what holds of
//! every such sequence.

use crate::error::{ErrorKind, ErrorModel};
use crate::identifier::is_valid_schema_name;
use crate::job::JobStep;
use crate::naming::file_names;
use crate::protocol::{ActionModel, EventModel};
use crate::query::tables_query_text;
use crate::run::{step_model, RunModel, StageModel};
use crate::storage::{
    deliver, lemma_deliver_concat, lemma_deliver_one, lemma_repeating_changes_nothing, opened_files,
    perform, written_chunks, Storage,
};
use vstd::prelude::*;

verus! {

/// The run after the events, taken one after another.
pub open spec fn run_after(run: RunModel, events: Seq<EventModel>) -> RunModel
    decreases events.len(),
{
    if events.len() == 0 {
        run
    } else {
        run_after(step_model(run, events[0]).0, events.drop_first())
    }
}

/// The actions that the run hands out in answer to the events, in order.
pub open spec fn actions_for(run: RunModel, events: Seq<EventModel>) -> Seq<ActionModel>
    decreases events.len(),
{
    if events.len() == 0 {
        Seq::empty()
    } else {
        seq![step_model(run, events[0]).1] + actions_for(
            step_model(run, events[0]).0,
            events.drop_first(),
        )
    }
}

/// Every action of a run from its start: the request to connect, then the
/// answers to the events.
pub open spec fn whole_run(schema: Seq<char>, compressed: bool, events: Seq<EventModel>) -> Seq<
    ActionModel,
> {
    seq![ActionModel::Connect] + actions_for(RunModel::initial(schema, compressed), events)
}

/// The index of the first table that a run has not yet turned to.
pub open spec fn tables_begun(run: RunModel) -> nat {
    match run.stage {
        StageModel::Exporting { index, .. } => index + 1,
        StageModel::Finished => run.tables.len(),
        _ => 0,
    }
}

/// A step keeps a run well-formed, never changes its schema or its mode, and
/// changes its tables only when the catalog lists them.
pub proof fn lemma_step_keeps_wf(run: RunModel, event: EventModel)
    requires
        run.wf(),
    ensures
        step_model(run, event).0.wf(),
        step_model(run, event).0.schema == run.schema,
        step_model(run, event).0.compressed == run.compressed,
        !(run.stage is Listing) ==> step_model(run, event).0.tables == run.tables,
{
}

/// The actions of a step, then those of the rest.
pub proof fn lemma_actions_unfold(run: RunModel, events: Seq<EventModel>)
    requires
        events.len() > 0,
    ensures
        actions_for(run, events).len() == events.len(),
        actions_for(run, events)[0] == step_model(run, events[0]).1,
        actions_for(run, events).drop_first() == actions_for(
            step_model(run, events[0]).0,
            events.drop_first(),
        ),
    decreases events.len(),
{
    let rest = actions_for(step_model(run, events[0]).0, events.drop_first());
    if events.len() > 1 {
        lemma_actions_unfold(step_model(run, events[0]).0, events.drop_first());
    }
    assert((seq![step_model(run, events[0]).1] + rest).drop_first() =~= rest);
}

/// A run that is over stays as it is, whatever comes: it hands out its last
/// word again and again, opens no file and writes no chunk.
pub proof fn lemma_over_is_final(run: RunModel, events: Seq<EventModel>)
    requires
        run.is_over(),
    ensures
        run_after(run, events) == run,
        actions_for(run, events).len() == events.len(),
        forall|i: int|
            0 <= i < events.len() ==> #[trigger] actions_for(run, events)[i] == (match run.stage {
                StageModel::Failed(error) => ActionModel::Abort { error },
                _ => ActionModel::Finish,
            }),
        opened_files(actions_for(run, events)) == Seq::<Seq<char>>::empty(),
        written_chunks(actions_for(run, events)) == Seq::<Seq<u8>>::empty(),
    decreases events.len(),
{
    if events.len() > 0 {
        lemma_over_is_final(run, events.drop_first());
        lemma_actions_unfold(run, events);
        let actions = actions_for(run, events);
        assert forall|i: int| 0 <= i < events.len() implies #[trigger] actions[i] == (
        match run.stage {
            StageModel::Failed(error) => ActionModel::Abort { error },
            _ => ActionModel::Finish,
        }) by {
            if i > 0 {
                assert(actions[i] == actions.drop_first()[i - 1]);
            }
        }
    }
}

/// The answer to one event.
pub proof fn lemma_one_step(run: RunModel, event: EventModel)
    ensures
        run_after(run, seq![event]) == step_model(run, event).0,
        actions_for(run, seq![event]) == seq![step_model(run, event).1],
{
    let events = seq![event];
    let next = step_model(run, event).0;
    lemma_actions_unfold(run, events);
    assert(events.drop_first() =~= Seq::<EventModel>::empty());
    assert(run_after(next, events.drop_first()) == next);
    assert(run_after(run, events) == run_after(next, events.drop_first()));
    assert(actions_for(run, events) =~= seq![step_model(run, event).1]);
}

/// The answers to two events, one after the other.
pub proof fn lemma_two_steps(run: RunModel, first: EventModel, second: EventModel)
    ensures
        ({
            let (middle, one) = step_model(run, first);
            let (end, two) = step_model(middle, second);
            &&& run_after(run, seq![first, second]) == end
            &&& actions_for(run, seq![first, second]) == seq![one, two]
        }),
{
    let (middle, one) = step_model(run, first);
    let two = step_model(middle, second).1;
    assert(seq![first, second] =~= seq![first] + seq![second]);
    lemma_one_step(run, first);
    lemma_one_step(middle, second);
    lemma_run_splits(run, seq![first], seq![second]);
    assert(seq![one] + seq![two] =~= seq![one, two]);
}

/// The answers to three events, one after the other.
pub proof fn lemma_three_steps(
    run: RunModel,
    first: EventModel,
    second: EventModel,
    third: EventModel,
)
    ensures
        ({
            let (early, one) = step_model(run, first);
            let (middle, two) = step_model(early, second);
            let (end, three) = step_model(middle, third);
            &&& run_after(run, seq![first, second, third]) == end
            &&& actions_for(run, seq![first, second, third]) == seq![one, two, three]
        }),
{
    let (early, one) = step_model(run, first);
    let (middle, two) = step_model(early, second);
    let three = step_model(middle, third).1;
    assert(seq![first, second, third] =~= seq![first] + seq![second, third]);
    lemma_one_step(run, first);
    lemma_two_steps(early, second, third);
    lemma_run_splits(run, seq![first], seq![second, third]);
    assert(seq![one] + seq![two, three] =~= seq![one, two, three]);
}

/// A schema without tables is exported by doing nothing: once the catalog
/// has listed no table the run is finished, and from its start to its end,
/// and whatever is reported to it afterwards, it opens no file, writes no
/// chunk and leaves the output root as it found it.
pub proof fn lemma_no_tables_no_writes(
    schema: Seq<char>,
    compressed: bool,
    later: Seq<EventModel>,
    storage: Storage,
)
    requires
        storage.open is None,
    ensures
        ({
            let events = seq![
                EventModel::Completed,
                EventModel::Completed,
                EventModel::Tables(Seq::empty()),
            ] + later;
            let actions = whole_run(schema, compressed, events);
            &&& run_after(RunModel::initial(schema, compressed), events).stage is Finished
            &&& actions.len() == 4 + later.len()
            &&& actions[0] == ActionModel::Connect
            &&& actions[1] == ActionModel::OpenRoot
            &&& actions[2] == ActionModel::ListTables { query: tables_query_text(schema) }
            &&& forall|i: int| 3 <= i < actions.len() ==> actions[i] == ActionModel::Finish
            &&& opened_files(actions) == Seq::<Seq<char>>::empty()
            &&& written_chunks(actions) == Seq::<Seq<u8>>::empty()
            &&& deliver(storage, actions) == storage
        }),
{
    let start = RunModel::initial(schema, compressed);
    let head = seq![
        EventModel::Completed,
        EventModel::Completed,
        EventModel::Tables(Seq::empty()),
    ];
    let actions = whole_run(schema, compressed, head + later);
    let (rooting, root) = step_model(start, head[0]);
    let (listing, list) = step_model(rooting, head[1]);
    let (finished, finish) = step_model(listing, head[2]);
    lemma_three_steps(start, head[0], head[1], head[2]);
    lemma_run_splits(start, head, later);
    lemma_over_is_final(finished, later);
    let tail = actions_for(finished, later);
    assert(actions =~= seq![ActionModel::Connect, root, list, finish] + tail);
    assert forall|i: int| 3 <= i < actions.len() implies actions[i] == ActionModel::Finish by {
        if i > 3 {
            assert(actions[i] == tail[i - 4]);
        }
    }
    lemma_finishes_leave_all_as_is(actions, 3, storage);
}

/// Actions that, from some point on, are all the finish leave from there on
/// no trace: with nothing opened or written before that point either, they
/// open nothing, write nothing and change nothing.
proof fn lemma_finishes_leave_all_as_is(actions: Seq<ActionModel>, quiet: int, storage: Storage)
    requires
        storage.open is None,
        0 <= quiet <= actions.len(),
        forall|i: int|
            0 <= i < quiet ==> (#[trigger] actions[i] is Connect || actions[i] is OpenRoot
                || actions[i] is ListTables),
        forall|i: int| quiet <= i < actions.len() ==> #[trigger] actions[i] == ActionModel::Finish,
    ensures
        opened_files(actions) == Seq::<Seq<char>>::empty(),
        written_chunks(actions) == Seq::<Seq<u8>>::empty(),
        deliver(storage, actions) == storage,
    decreases actions.len(),
{
    if actions.len() > 0 {
        let rest = actions.drop_first();
        let next = if quiet > 0 {
            quiet - 1
        } else {
            0
        };
        assert forall|i: int| 0 <= i < next implies (#[trigger] rest[i] is Connect
            || rest[i] is OpenRoot || rest[i] is ListTables) by {
            assert(rest[i] == actions[i + 1]);
        }
        assert forall|i: int| next <= i < rest.len() implies #[trigger] rest[i]
            == ActionModel::Finish by {
            assert(rest[i] == actions[i + 1]);
        }
        assert(perform(storage, actions[0]) == storage);
        lemma_finishes_leave_all_as_is(rest, next, storage);
    }
}

/// From a run that is exporting or finished, the files opened in answer to
/// the events are those of the tables that follow the current one, in
/// order and without a gap, up to the table reached. Returns the index of
/// the first table not yet begun at the end.
pub proof fn lemma_opens_following_tables(run: RunModel, events: Seq<EventModel>) -> (reached: nat)
    requires
        run.wf(),
        run.stage is Exporting || run.stage is Finished,
    ensures
        run_after(run, events).tables == run.tables,
        tables_begun(run) <= reached <= run.tables.len(),
        opened_files(actions_for(run, events)) == file_names(
            run.schema,
            run.tables,
            run.compressed,
        ).subrange(tables_begun(run) as int, reached as int),
        !(run_after(run, events).stage is Failed) ==> reached == tables_begun(
            run_after(run, events),
        ),
    decreases events.len(),
{
    let names = file_names(run.schema, run.tables, run.compressed);
    let begun = tables_begun(run);
    if events.len() == 0 {
        assert(names.subrange(begun as int, begun as int) =~= Seq::<Seq<char>>::empty());
        begun
    } else {
        let (next, action) = step_model(run, events[0]);
        let rest = events.drop_first();
        lemma_step_keeps_wf(run, events[0]);
        lemma_actions_unfold(run, events);
        let actions = actions_for(run, events);
        assert(actions =~= seq![action] + actions.drop_first());
        if next.stage is Failed {
            lemma_over_is_final(next, rest);
            assert(!(action is OpenSink));
            assert(names.subrange(begun as int, begun as int) =~= Seq::<Seq<char>>::empty());
            begun
        } else {
            let reached = lemma_opens_following_tables(next, rest);
            if action is OpenSink {
                assert(tables_begun(next) == begun + 1);
                assert(action->OpenSink_file_name == names[begun as int]);
                assert(seq![names[begun as int]] + names.subrange(begun as int + 1, reached as int)
                    =~= names.subrange(begun as int, reached as int));
            } else {
                assert(tables_begun(next) == begun);
            }
            reached
        }
    }
}

/// From a run that has not yet listed its tables, the files asked for in
/// answer to the events are those of the tables that the catalog then
/// lists, in order and without a gap, up to the table reached. Returns the
/// index of the first table not yet begun at the end.
pub proof fn lemma_opens_listed_tables(run: RunModel, events: Seq<EventModel>) -> (reached: nat)
    requires
        run.wf(),
        run.stage is Connecting || run.stage is OpeningRoot || run.stage is Listing,
    ensures
        ({
            let end = run_after(run, events);
            let names = file_names(run.schema, end.tables, run.compressed);
            &&& reached <= end.tables.len()
            &&& opened_files(actions_for(run, events)) == names.subrange(0, reached as int)
            &&& end.stage is Finished ==> opened_files(actions_for(run, events)) == names
        }),
    decreases events.len(),
{
    let end = run_after(run, events);
    let names = file_names(run.schema, end.tables, run.compressed);
    assert(names.subrange(0, 0) =~= Seq::<Seq<char>>::empty());
    if events.len() == 0 {
        0
    } else {
        let (next, action) = step_model(run, events[0]);
        let rest = events.drop_first();
        lemma_step_keeps_wf(run, events[0]);
        lemma_actions_unfold(run, events);
        let actions = actions_for(run, events);
        assert(actions =~= seq![action] + actions.drop_first());
        if next.stage is Failed {
            lemma_over_is_final(next, rest);
            0
        } else if next.stage is Exporting || next.stage is Finished {
            let reached = lemma_opens_following_tables(next, rest);
            if action is OpenSink {
                assert(action->OpenSink_file_name == names[0]);
                assert(seq![names[0]] + names.subrange(1, reached as int) =~= names.subrange(
                    0,
                    reached as int,
                ));
            }
            if end.stage is Finished {
                assert(names.subrange(0, reached as int) =~= names);
            }
            reached
        } else {
            lemma_opens_listed_tables(next, rest)
        }
    }
}

/// A run asks for the files of the listed tables in the order of the
/// listing, for each once and for none besides; a run that finishes has
/// asked for them all. So a finished run has produced one file per table
/// and no other file. Returns the number of tables begun.
pub proof fn lemma_run_opens_one_file_per_table(
    schema: Seq<char>,
    compressed: bool,
    events: Seq<EventModel>,
) -> (reached: nat)
    requires
        is_valid_schema_name(schema),
    ensures
        ({
            let end = run_after(RunModel::initial(schema, compressed), events);
            let names = file_names(schema, end.tables, compressed);
            &&& reached <= end.tables.len()
            &&& opened_files(whole_run(schema, compressed, events)) == names.subrange(
                0,
                reached as int,
            )
            &&& end.stage is Finished ==> opened_files(whole_run(schema, compressed, events))
                == names
        }),
{
    let start = RunModel::initial(schema, compressed);
    let answers = actions_for(start, events);
    assert(whole_run(schema, compressed, events).drop_first() =~= answers);
    assert(opened_files(whole_run(schema, compressed, events)) == opened_files(answers));
    lemma_opens_listed_tables(start, events)
}

/// Splitting the events splits the run: the second part starts where the
/// first part ends.
pub proof fn lemma_run_splits(run: RunModel, first: Seq<EventModel>, second: Seq<EventModel>)
    ensures
        run_after(run, first + second) == run_after(run_after(run, first), second),
        actions_for(run, first + second) == actions_for(run, first) + actions_for(
            run_after(run, first),
            second,
        ),
    decreases first.len(),
{
    if first.len() == 0 {
        assert(first + second =~= second);
        assert(actions_for(run, first) + actions_for(run, second) =~= actions_for(run, second));
    } else {
        let next = step_model(run, first[0]).0;
        assert((first + second).drop_first() =~= first.drop_first() + second);
        lemma_run_splits(next, first.drop_first(), second);
        assert(seq![step_model(run, first[0]).1] + (actions_for(next, first.drop_first())
            + actions_for(run_after(next, first.drop_first()), second)) =~= (seq![
            step_model(run, first[0]).1,
        ] + actions_for(next, first.drop_first())) + actions_for(
            run_after(next, first.drop_first()),
            second,
        ));
    }
}

/// The step that ends a run hands out the finish or the abort, and so does
/// every step after it.
pub proof fn lemma_run_ends_with_final_action(run: RunModel, events: Seq<EventModel>)
    requires
        events.len() > 0,
        run_after(run, events).is_over(),
    ensures
        actions_for(run, events).last() is Finish || actions_for(run, events).last() is Abort,
    decreases events.len(),
{
    lemma_actions_unfold(run, events);
    let actions = actions_for(run, events);
    if events.len() > 1 {
        lemma_run_ends_with_final_action(step_model(run, events[0]).0, events.drop_first());
        lemma_actions_unfold(step_model(run, events[0]).0, events.drop_first());
        assert(actions.last() == actions.drop_first().last());
    } else {
        assert(run_after(step_model(run, events[0]).0, events.drop_first()) == step_model(
            run,
            events[0],
        ).0);
    }
}

/// A run that is over has left no sink open.
pub proof fn lemma_over_run_leaves_no_sink_open(
    run: RunModel,
    events: Seq<EventModel>,
    storage: Storage,
)
    requires
        events.len() > 0,
        run_after(run, events).is_over(),
    ensures
        deliver(storage, actions_for(run, events)).open is None,
{
    let actions = actions_for(run, events);
    lemma_actions_unfold(run, events);
    lemma_run_ends_with_final_action(run, events);
    assert(actions =~= actions.drop_last() + seq![actions.last()]);
    lemma_deliver_concat(storage, actions.drop_last(), seq![actions.last()]);
    lemma_deliver_one(deliver(storage, actions.drop_last()), actions.last());
}

/// Running a finished export a second time, against a database that
/// answers as before and into the output root that the first run left,
/// changes nothing: every file that the run writes is written again with
/// the same payload, and no other file is touched.
pub proof fn lemma_second_run_changes_nothing(
    schema: Seq<char>,
    compressed: bool,
    events: Seq<EventModel>,
    storage: Storage,
)
    requires
        storage.open is None,
        run_after(RunModel::initial(schema, compressed), events).stage is Finished,
    ensures
        ({
            let actions = whole_run(schema, compressed, events);
            deliver(deliver(storage, actions), actions) == deliver(storage, actions)
        }),
{
    let start = RunModel::initial(schema, compressed);
    let actions = whole_run(schema, compressed, events);
    assert(actions.drop_first() =~= actions_for(start, events));
    assert(perform(storage, actions[0]) == storage);
    lemma_over_run_leaves_no_sink_open(start, events, storage);
    lemma_repeating_changes_nothing(storage, actions);
}

/// When the row stream fails, the run ends there. It is aborted with a
/// stream error that carries the report; whatever is reported afterwards it
/// stays aborted, turns to no further table, opens no file and writes no
/// chunk. The output root keeps every file with the payload it had when the
/// stream failed, the partly written file among them: nothing is deleted.
pub proof fn lemma_stream_failure_ends_the_run(
    run: RunModel,
    report: Seq<char>,
    later: Seq<EventModel>,
    storage: Storage,
)
    requires
        run.wf(),
        run.stage matches StageModel::Exporting { step, .. } && step == JobStep::Reading,
    ensures
        ({
            let error = ErrorModel { kind: ErrorKind::StreamError, message: report };
            let events = seq![EventModel::Failed(report)] + later;
            let actions = actions_for(run, events);
            &&& run_after(run, events) == run.at(StageModel::Failed(error))
            &&& actions.len() == events.len()
            &&& forall|i: int|
                0 <= i < actions.len() ==> #[trigger] actions[i] == (ActionModel::Abort { error })
            &&& opened_files(actions) == Seq::<Seq<char>>::empty()
            &&& written_chunks(actions) == Seq::<Seq<u8>>::empty()
            &&& deliver(storage, actions).payload == storage.payload
        }),
{
    let error = ErrorModel { kind: ErrorKind::StreamError, message: report };
    let events = seq![EventModel::Failed(report)] + later;
    let failed = step_model(run, events[0]).0;
    assert(events.drop_first() =~= later);
    lemma_actions_unfold(run, events);
    lemma_over_is_final(failed, later);
    let actions = actions_for(run, events);
    assert forall|i: int| 0 <= i < actions.len() implies #[trigger] actions[i] == (
    ActionModel::Abort { error }) by {
        if i > 0 {
            assert(actions[i] == actions.drop_first()[i - 1]);
        }
    }
    lemma_aborts_keep_every_payload(actions, storage);
}

/// Aborts change no payload.
proof fn lemma_aborts_keep_every_payload(actions: Seq<ActionModel>, storage: Storage)
    requires
        forall|i: int| 0 <= i < actions.len() ==> #[trigger] actions[i] is Abort,
    ensures
        deliver(storage, actions).payload == storage.payload,
    decreases actions.len(),
{
    if actions.len() > 0 {
        let rest = actions.drop_first();
        assert(actions[0] is Abort);
        assert forall|i: int| 0 <= i < rest.len() implies #[trigger] rest[i] is Abort by {
            assert(rest[i] == actions[i + 1]);
        }
        lemma_aborts_keep_every_payload(rest, perform(storage, actions[0]));
    }
}

/// What a run holds at some moment: a sink, a row stream, both or neither.
pub struct Held {
    pub sink: bool,
    pub stream: bool,
}

/// Whether the actions take and release the sink and the row stream in
/// order, starting from what is held: a sink is opened only when nothing is
/// held, a stream only behind an open sink; chunks are read and written
/// only while both are held; the sink is finalized when the stream is done
/// with and closed after it has been finalized; and the run connects,
/// opens the output root, lists and finishes with nothing held. An abort
/// drops whatever is held.
pub open spec fn orderly(held: Held, actions: Seq<ActionModel>) -> bool
    decreases actions.len(),
{
    if actions.len() == 0 {
        true
    } else {
        let rest = actions.drop_first();
        let nothing = Held { sink: false, stream: false };
        match actions[0] {
            ActionModel::Connect
            | ActionModel::OpenRoot
            | ActionModel::ListTables { .. }
            | ActionModel::Finish => held == nothing && orderly(held, rest),
            ActionModel::OpenSink { .. } => held == nothing && orderly(
                Held { sink: true, stream: false },
                rest,
            ),
            ActionModel::OpenStream { .. } => held == (Held { sink: true, stream: false })
                && orderly(Held { sink: true, stream: true }, rest),
            ActionModel::ReadChunk | ActionModel::WriteChunk { .. } => held == (Held {
                sink: true,
                stream: true,
            }) && orderly(held, rest),
            ActionModel::Finalize => held == (Held { sink: true, stream: true }) && orderly(
                Held { sink: true, stream: false },
                rest,
            ),
            ActionModel::CloseSink => held == (Held { sink: true, stream: false }) && orderly(
                nothing,
                rest,
            ),
            ActionModel::Abort { .. } => orderly(nothing, rest),
        }
    }
}

/// What a run holds once the action it has handed out last is carried out.
pub open spec fn held_at(run: RunModel) -> Held {
    match run.stage {
        StageModel::Exporting { step, .. } => match step {
            JobStep::OpeningSink | JobStep::Finalizing => Held { sink: true, stream: false },
            JobStep::OpeningStream | JobStep::Reading | JobStep::Writing => Held {
                sink: true,
                stream: true,
            },
            JobStep::Closing => Held { sink: false, stream: false },
        },
        _ => Held { sink: false, stream: false },
    }
}

/// From wherever a run stands, whatever is reported to it, it takes and
/// releases its sink and its stream in order.
pub proof fn lemma_run_is_orderly_from(run: RunModel, events: Seq<EventModel>)
    ensures
        orderly(held_at(run), actions_for(run, events)),
    decreases events.len(),
{
    if events.len() > 0 {
        lemma_actions_unfold(run, events);
        lemma_run_is_orderly_from(step_model(run, events[0]).0, events.drop_first());
    }
}

/// Every run keeps its resources in order, whatever is reported to it: one
/// sink at a time, one row stream per sink, each job's sink finalized and
/// then closed before the next job's sink is opened, and nothing held when
/// the run finishes.
pub proof fn lemma_run_is_orderly(schema: Seq<char>, compressed: bool, events: Seq<EventModel>)
    ensures
        orderly(Held { sink: false, stream: false }, whole_run(schema, compressed, events)),
{
    let start = RunModel::initial(schema, compressed);
    lemma_run_is_orderly_from(start, events);
    assert(whole_run(schema, compressed, events).drop_first() =~= actions_for(start, events));
}

} // verus!
