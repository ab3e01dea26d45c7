//! A model of the output root, to say what a run leaves behind.
//!
//! The model keeps, for each file, the payload that was handed to its sink:
//! for a plain file its content, for a compressed file what its content
//! decompresses to. It is ghost code only; nothing here is executed.

use crate::protocol::ActionModel;
use vstd::prelude::*;

verus! {

/// The output root: the payload of each file in it, and the file whose sink
/// is open, if one is.
pub struct Storage {
    pub payload: Map<Seq<char>, Seq<u8>>,
    pub open: Option<Seq<char>>,
}

impl Storage {
    /// An output root without files.
    pub open spec fn empty() -> Storage {
        Storage { payload: Map::empty(), open: None }
    }

    /// The open sink, if there is one, belongs to a file that exists.
    pub open spec fn wf(self) -> bool {
        self.open matches Some(name) ==> self.payload.contains_key(name)
    }
}

/// The output root after `action` has been carried out with success.
///
/// Opening a sink creates the file or empties it. A write appends to the
/// file whose sink is open. Closing, finishing and aborting leave no sink
/// open and every payload as it is: nothing ever removes a file.
pub open spec fn perform(storage: Storage, action: ActionModel) -> Storage {
    match action {
        ActionModel::OpenSink { file_name, .. } => Storage {
            payload: storage.payload.insert(file_name, Seq::empty()),
            open: Some(file_name),
        },
        ActionModel::WriteChunk { bytes } => match storage.open {
            Some(name) => Storage {
                payload: storage.payload.insert(name, storage.payload[name] + bytes),
                open: storage.open,
            },
            None => storage,
        },
        ActionModel::CloseSink | ActionModel::Finish | ActionModel::Abort { .. } => Storage {
            payload: storage.payload,
            open: None,
        },
        _ => storage,
    }
}

/// The output root after the actions have been carried out in order.
pub open spec fn deliver(storage: Storage, actions: Seq<ActionModel>) -> Storage
    decreases actions.len(),
{
    if actions.len() == 0 {
        storage
    } else {
        deliver(perform(storage, actions[0]), actions.drop_first())
    }
}

/// The names of the files whose sinks the actions open, in order.
pub open spec fn opened_files(actions: Seq<ActionModel>) -> Seq<Seq<char>>
    decreases actions.len(),
{
    if actions.len() == 0 {
        Seq::empty()
    } else {
        match actions[0] {
            ActionModel::OpenSink { file_name, .. } => seq![file_name] + opened_files(
                actions.drop_first(),
            ),
            _ => opened_files(actions.drop_first()),
        }
    }
}

/// The chunks that the actions write, in order.
pub open spec fn written_chunks(actions: Seq<ActionModel>) -> Seq<Seq<u8>>
    decreases actions.len(),
{
    if actions.len() == 0 {
        Seq::empty()
    } else {
        match actions[0] {
            ActionModel::WriteChunk { bytes } => seq![bytes] + written_chunks(
                actions.drop_first(),
            ),
            _ => written_chunks(actions.drop_first()),
        }
    }
}

/// Two output roots have the same sink open and agree on every file in
/// `names`: on whether it exists and on its payload.
pub open spec fn agree_on(first: Storage, second: Storage, names: Set<Seq<char>>) -> bool {
    &&& first.open == second.open
    &&& first.open matches Some(name) ==> names.contains(name)
    &&& forall|name: Seq<char>| #[trigger]
        names.contains(name) ==> {
            &&& first.payload.contains_key(name) == second.payload.contains_key(name)
            &&& first.payload[name] == second.payload[name]
        }
}

/// Delivering a single action is performing it.
pub proof fn lemma_deliver_one(storage: Storage, action: ActionModel)
    ensures
        deliver(storage, seq![action]) == perform(storage, action),
{
    let one = seq![action];
    assert(one.drop_first() =~= Seq::<ActionModel>::empty());
    assert(deliver(perform(storage, one[0]), one.drop_first()) == perform(storage, action));
}

/// Delivering one sequence after another is delivering their concatenation.
pub proof fn lemma_deliver_concat(
    storage: Storage,
    first: Seq<ActionModel>,
    second: Seq<ActionModel>,
)
    ensures
        deliver(storage, first + second) == deliver(deliver(storage, first), second),
    decreases first.len(),
{
    if first.len() == 0 {
        assert(first + second =~= second);
    } else {
        assert((first + second).drop_first() =~= first.drop_first() + second);
        lemma_deliver_concat(perform(storage, first[0]), first.drop_first(), second);
    }
}

/// A single action writes its chunk if it is a write, and nothing if not.
pub proof fn lemma_written_chunks_one(action: ActionModel)
    ensures
        written_chunks(seq![action]) == (match action {
            ActionModel::WriteChunk { bytes } => seq![bytes],
            _ => Seq::empty(),
        }),
{
    let one = seq![action];
    assert(one.drop_first() =~= Seq::<ActionModel>::empty());
    assert(written_chunks(one.drop_first()) =~= Seq::<Seq<u8>>::empty());
    match action {
        ActionModel::WriteChunk { bytes } => {
            assert(seq![bytes] + written_chunks(one.drop_first()) =~= seq![bytes]);
        },
        _ => {},
    }
}

/// The chunks written by one sequence after another are those of the first,
/// then those of the second.
pub proof fn lemma_written_chunks_concat(first: Seq<ActionModel>, second: Seq<ActionModel>)
    ensures
        written_chunks(first + second) == written_chunks(first) + written_chunks(second),
    decreases first.len(),
{
    if first.len() == 0 {
        assert(first + second =~= second);
        assert(written_chunks(first) + written_chunks(second) =~= written_chunks(second));
    } else {
        assert((first + second).drop_first() =~= first.drop_first() + second);
        lemma_written_chunks_concat(first.drop_first(), second);
        let rest = written_chunks(first.drop_first());
        match first[0] {
            ActionModel::WriteChunk { bytes } => {
                assert((seq![bytes] + rest) + written_chunks(second) =~= seq![bytes] + (rest
                    + written_chunks(second)));
            },
            _ => {},
        }
    }
}

/// Whatever is done, a file that exists goes on existing: no action deletes
/// a file, an abort no more than any other.
pub proof fn lemma_no_file_is_removed(
    storage: Storage,
    actions: Seq<ActionModel>,
    name: Seq<char>,
)
    requires
        storage.payload.contains_key(name),
    ensures
        deliver(storage, actions).payload.contains_key(name),
    decreases actions.len(),
{
    if actions.len() > 0 {
        lemma_no_file_is_removed(perform(storage, actions[0]), actions.drop_first(), name);
    }
}

/// A file that is neither open at the start nor opened by the actions is
/// left exactly as it was.
pub proof fn lemma_untouched_file_is_kept(
    storage: Storage,
    actions: Seq<ActionModel>,
    name: Seq<char>,
)
    requires
        storage.open != Some(name),
        !opened_files(actions).contains(name),
    ensures
        deliver(storage, actions).payload.contains_key(name) == storage.payload.contains_key(name),
        deliver(storage, actions).payload[name] == storage.payload[name],
    decreases actions.len(),
{
    if actions.len() > 0 {
        let rest = actions.drop_first();
        let next = perform(storage, actions[0]);
        match actions[0] {
            ActionModel::OpenSink { file_name, .. } => {
                let names = seq![file_name] + opened_files(rest);
                assert(names[0] == file_name);
                assert(file_name != name);
                assert forall|i: int| 0 <= i < opened_files(rest).len() implies opened_files(
                    rest,
                )[i] != name by {
                    assert(names[i + 1] == opened_files(rest)[i]);
                }
            },
            _ => {},
        }
        lemma_untouched_file_is_kept(next, rest, name);
    }
}

/// What the actions leave in the files they open, and which sink they leave
/// open, does not depend on what was there before: if two output roots agree
/// on some files and on the open sink, then after the same actions they
/// agree on those files and on every file that the actions open.
pub proof fn lemma_deliver_keeps_agreement(
    first: Storage,
    second: Storage,
    names: Set<Seq<char>>,
    actions: Seq<ActionModel>,
)
    requires
        agree_on(first, second, names),
    ensures
        agree_on(
            deliver(first, actions),
            deliver(second, actions),
            names.union(opened_files(actions).to_set()),
        ),
    decreases actions.len(),
{
    if actions.len() == 0 {
        assert(opened_files(actions).to_set() =~= Set::<Seq<char>>::empty());
        assert(names.union(opened_files(actions).to_set()) =~= names);
    } else {
        let rest = actions.drop_first();
        let grown = match actions[0] {
            ActionModel::OpenSink { file_name, .. } => names.insert(file_name),
            _ => names,
        };
        assert(agree_on(perform(first, actions[0]), perform(second, actions[0]), grown));
        lemma_deliver_keeps_agreement(
            perform(first, actions[0]),
            perform(second, actions[0]),
            grown,
            rest,
        );
        assert(grown.union(opened_files(rest).to_set()) =~= names.union(
            opened_files(actions).to_set(),
        )) by {
            match actions[0] {
                ActionModel::OpenSink { file_name, .. } => {
                    let all = seq![file_name] + opened_files(rest);
                    assert(all[0] == file_name);
                    assert forall|name: Seq<char>| all.contains(name) <==> (name == file_name
                        || opened_files(rest).contains(name)) by {
                        if opened_files(rest).contains(name) {
                            let i = choose|i: int|
                                0 <= i < opened_files(rest).len() && opened_files(rest)[i] == name;
                            assert(all[i + 1] == name);
                        }
                        if all.contains(name) && name != file_name {
                            let i = choose|i: int| 0 <= i < all.len() && all[i] == name;
                            assert(opened_files(rest)[i - 1] == name);
                        }
                    }
                },
                _ => {},
            }
        }
    }
}

/// Carrying out the same actions a second time changes nothing: the files
/// they open are rewritten with the same payload, and every other file is
/// left alone.
pub proof fn lemma_repeating_changes_nothing(storage: Storage, actions: Seq<ActionModel>)
    requires
        storage.open is None,
        deliver(storage, actions).open is None,
    ensures
        deliver(deliver(storage, actions), actions) == deliver(storage, actions),
{
    let once = deliver(storage, actions);
    let twice = deliver(once, actions);
    let opened = opened_files(actions).to_set();
    lemma_deliver_keeps_agreement(storage, once, Set::empty(), actions);
    assert(Set::<Seq<char>>::empty().union(opened) =~= opened);
    assert forall|name: Seq<char>|
        #![trigger once.payload.dom().contains(name)]
        #![trigger twice.payload.dom().contains(name)]
        once.payload.dom().contains(name) == twice.payload.dom().contains(name) && (
        once.payload.dom().contains(name) ==> once.payload[name] == twice.payload[name]) by {
        if opened.contains(name) {
        } else {
            lemma_untouched_file_is_kept(once, actions, name);
        }
    }
    assert(once.payload =~= twice.payload);
}

} // verus!
