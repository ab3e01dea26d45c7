//! The two modes side by side: a compressed export hands to its sinks what
//! a plain export writes to its files.

use crate::identifier::is_valid_schema_name;
use crate::naming::{file_name_text, lemma_file_name_determines_table};
use crate::payload::tables_index;
use crate::protocol::{ActionModel, EventModel};
use crate::run::{step_model, RunModel};
use crate::storage::{deliver, perform, Storage};
use crate::trace::{actions_for, lemma_actions_unfold, lemma_step_keeps_wf, run_after, whole_run};
use vstd::prelude::*;

verus! {

/// The run in the given mode, otherwise unchanged.
pub open spec fn in_mode(run: RunModel, compressed: bool) -> RunModel {
    RunModel { compressed, ..run }
}

/// Two output roots hold the same for every table, the one under the file
/// names of `first_mode`, the other under those of `second_mode`: a table's
/// file exists in both or in neither, with the same payload, and the same
/// table's sink is open in both or none is.
pub open spec fn same_payloads(
    schema: Seq<char>,
    first: Storage,
    first_mode: bool,
    second: Storage,
    second_mode: bool,
) -> bool {
    &&& first.wf()
    &&& second.wf()
    &&& match first.open {
        Some(name) => exists|table: Seq<char>|
            #![trigger file_name_text(schema, table, first_mode)]
            name == file_name_text(schema, table, first_mode) && second.open == Some(
                file_name_text(schema, table, second_mode),
            ),
        None => second.open is None,
    }
    &&& forall|table: Seq<char>|
        #![trigger file_name_text(schema, table, first_mode)]
        #![trigger file_name_text(schema, table, second_mode)]
        {
            &&& first.payload.contains_key(file_name_text(schema, table, first_mode))
                == second.payload.contains_key(file_name_text(schema, table, second_mode))
            &&& first.payload.contains_key(file_name_text(schema, table, first_mode))
                ==> first.payload[file_name_text(schema, table, first_mode)]
                == second.payload[file_name_text(schema, table, second_mode)]
        }
}

/// Writing the same payload to a table's file in both modes keeps the two
/// output roots holding the same for every table.
proof fn lemma_same_after_write(
    schema: Seq<char>,
    first: Storage,
    first_mode: bool,
    second: Storage,
    second_mode: bool,
    current: Seq<char>,
    payload: Seq<u8>,
)
    requires
        same_payloads(schema, first, first_mode, second, second_mode),
    ensures
        same_payloads(
            schema,
            Storage {
                payload: first.payload.insert(
                    file_name_text(schema, current, first_mode),
                    payload,
                ),
                open: Some(file_name_text(schema, current, first_mode)),
            },
            first_mode,
            Storage {
                payload: second.payload.insert(
                    file_name_text(schema, current, second_mode),
                    payload,
                ),
                open: Some(file_name_text(schema, current, second_mode)),
            },
            second_mode,
        ),
{
    let here = file_name_text(schema, current, first_mode);
    let there = file_name_text(schema, current, second_mode);
    let after_one = Storage { payload: first.payload.insert(here, payload), open: Some(here) };
    let after_two = Storage { payload: second.payload.insert(there, payload), open: Some(there) };
    assert forall|table: Seq<char>|
        #![trigger file_name_text(schema, table, first_mode)]
        #![trigger file_name_text(schema, table, second_mode)]
        {
            &&& after_one.payload.contains_key(file_name_text(schema, table, first_mode))
                == after_two.payload.contains_key(file_name_text(schema, table, second_mode))
            &&& after_one.payload.contains_key(file_name_text(schema, table, first_mode))
                ==> after_one.payload[file_name_text(schema, table, first_mode)]
                == after_two.payload[file_name_text(schema, table, second_mode)]
        } by {
        if file_name_text(schema, table, first_mode) == here {
            lemma_file_name_determines_table(schema, table, current, first_mode);
        }
        if file_name_text(schema, table, second_mode) == there {
            lemma_file_name_determines_table(schema, table, current, second_mode);
        }
    }
}

/// One step in both modes: the runs stay the same but for the mode, and the
/// output roots go on holding the same for every table.
proof fn lemma_step_in_both_modes(
    run: RunModel,
    event: EventModel,
    first: Storage,
    other_mode: bool,
    second: Storage,
)
    requires
        run.wf(),
        same_payloads(run.schema, first, run.compressed, second, other_mode),
    ensures
        step_model(in_mode(run, other_mode), event).0 == in_mode(
            step_model(run, event).0,
            other_mode,
        ),
        same_payloads(
            run.schema,
            perform(first, step_model(run, event).1),
            run.compressed,
            perform(second, step_model(in_mode(run, other_mode), event).1),
            other_mode,
        ),
{
    let schema = run.schema;
    let mode = run.compressed;
    let (next, one) = step_model(run, event);
    let two = step_model(in_mode(run, other_mode), event).1;
    match one {
        ActionModel::OpenSink { .. } => {
            let current = next.tables[tables_index(next)];
            assert(one == ActionModel::OpenSink {
                file_name: file_name_text(schema, current, mode),
                compressed: mode,
            });
            assert(two == ActionModel::OpenSink {
                file_name: file_name_text(schema, current, other_mode),
                compressed: other_mode,
            });
            lemma_same_after_write(schema, first, mode, second, other_mode, current, Seq::empty());
        },
        ActionModel::WriteChunk { bytes } => {
            assert(two == one);
            match first.open {
                Some(name) => {
                    let current = choose|table: Seq<char>|
                        #![trigger file_name_text(schema, table, mode)]
                        name == file_name_text(schema, table, mode) && second.open == Some(
                            file_name_text(schema, table, other_mode),
                        );
                    lemma_same_after_write(
                        schema,
                        first,
                        mode,
                        second,
                        other_mode,
                        current,
                        first.payload[name] + bytes,
                    );
                },
                None => {},
            }
        },
        _ => {
            assert(two == one);
        },
    }
}

/// The same events in both modes: the runs stay the same but for the mode,
/// and the output roots go on holding the same for every table.
pub proof fn lemma_modes_keep_same_payloads(
    run: RunModel,
    events: Seq<EventModel>,
    first: Storage,
    other_mode: bool,
    second: Storage,
)
    requires
        run.wf(),
        same_payloads(run.schema, first, run.compressed, second, other_mode),
    ensures
        run_after(in_mode(run, other_mode), events) == in_mode(run_after(run, events), other_mode),
        same_payloads(
            run.schema,
            deliver(first, actions_for(run, events)),
            run.compressed,
            deliver(second, actions_for(in_mode(run, other_mode), events)),
            other_mode,
        ),
    decreases events.len(),
{
    if events.len() > 0 {
        let other = in_mode(run, other_mode);
        lemma_step_in_both_modes(run, events[0], first, other_mode, second);
        lemma_step_keeps_wf(run, events[0]);
        lemma_actions_unfold(run, events);
        lemma_actions_unfold(other, events);
        lemma_modes_keep_same_payloads(
            step_model(run, events[0]).0,
            events.drop_first(),
            perform(first, step_model(run, events[0]).1),
            other_mode,
            perform(second, step_model(other, events[0]).1),
        );
    }
}

/// The compressed and the plain export of the same data carry the same
/// payload: given the same events, what the compressed run hands to the
/// sink of a table's `csv.gz` file is, byte for byte, what the plain run
/// writes to that table's `csv` file. So what a compressed file decompresses
/// to is the content of the plain file, as far as the compressor gives back
/// what it was given.
pub proof fn lemma_compressed_payload_is_plain_content(
    schema: Seq<char>,
    events: Seq<EventModel>,
    table: Seq<char>,
)
    requires
        is_valid_schema_name(schema),
    ensures
        ({
            let compressed = deliver(Storage::empty(), whole_run(schema, true, events));
            let plain = deliver(Storage::empty(), whole_run(schema, false, events));
            &&& compressed.payload.contains_key(file_name_text(schema, table, true))
                == plain.payload.contains_key(file_name_text(schema, table, false))
            &&& compressed.payload.contains_key(file_name_text(schema, table, true))
                ==> compressed.payload[file_name_text(schema, table, true)]
                == plain.payload[file_name_text(schema, table, false)]
        }),
{
    let start = RunModel::initial(schema, true);
    assert(in_mode(start, false) == RunModel::initial(schema, false));
    let empty = Storage::empty();
    lemma_modes_keep_same_payloads(start, events, empty, false, empty);
    let with = whole_run(schema, true, events);
    let without = whole_run(schema, false, events);
    assert(with.drop_first() =~= actions_for(start, events));
    assert(without.drop_first() =~= actions_for(in_mode(start, false), events));
    assert(perform(empty, with[0]) == empty);
    assert(perform(empty, without[0]) == empty);
    let compressed = deliver(empty, with);
    let plain = deliver(empty, without);
    assert(same_payloads(schema, compressed, true, plain, false));
    assert(compressed.payload.contains_key(file_name_text(schema, table, true))
        == plain.payload.contains_key(file_name_text(schema, table, false)));
}

} // verus!
