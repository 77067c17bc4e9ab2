//! Index keys that hold the record's own key, filled in once the engine has generated it.

use vstd::prelude::*;

use crate::indexeddb::engine::put::{keys_view, updates_view, UpdateView};
use crate::indexeddb::key::{option_key, IndexedDBKeyType};
use crate::indexeddb::operation::{KvsIndexUpdate, RecordKeyPlacement};

verus! {

/// The parts of a sequence with the key at each hole.
pub open spec fn completed(parts: Seq<Option<IndexedDBKeyType>>, key: Seq<u8>) -> Seq<Seq<u8>> {
    parts.map_values(
        |part: Option<IndexedDBKeyType>|
            match part {
                Some(own) => own@,
                None => key,
            },
    )
}

/// The update waits for a sequence that holds the record's key.
pub open spec fn awaits_sequence(update: KvsIndexUpdate) -> bool {
    update.record_key_placement matches Some(RecordKeyPlacement::InSequence(_))
}

/// The parts of the sequence that an update waits for, if it waits for one.
pub open spec fn awaited(update: KvsIndexUpdate, key: Seq<u8>) -> Option<Seq<Seq<u8>>> {
    match update.record_key_placement {
        Some(RecordKeyPlacement::InSequence(parts)) => Some(completed(parts@, key)),
        _ => None,
    }
}

/// The sequence is what the update waits for.
pub open spec fn is_sequence_of(
    update: KvsIndexUpdate,
    key: Seq<u8>,
    sequence: Option<Vec<IndexedDBKeyType>>,
) -> bool {
    match sequence {
        Some(parts) => awaited(update, key) == Some(keys_view(parts@)),
        None => awaited(update, key) is None,
    }
}

/// The keys of an update once the record has its key. `array` is the array key that the awaited
/// sequence makes.
pub open spec fn keys_with(
    update: KvsIndexUpdate,
    key: Seq<u8>,
    array: Option<Seq<u8>>,
) -> Seq<Seq<u8>> {
    match (update.record_key_placement, array) {
        (Some(RecordKeyPlacement::WholeKey), _) => seq![key],
        (Some(RecordKeyPlacement::InSequence(_)), Some(array)) => seq![array],
        _ => keys_view(update.keys@),
    }
}

/// The update with its keys filled in: nothing waits for the record's key any more.
pub open spec fn is_filled(
    before: KvsIndexUpdate,
    after: KvsIndexUpdate,
    key: Seq<u8>,
    array: Option<IndexedDBKeyType>,
) -> bool {
    &&& after.index_name@ == before.index_name@
    &&& after.record_key_placement is None
    &&& keys_view(after.keys@) == keys_with(before, key, option_key(array))
}

/// Each update with its keys filled in.
pub open spec fn all_filled(
    before: Seq<KvsIndexUpdate>,
    after: Seq<KvsIndexUpdate>,
    key: Seq<u8>,
    arrays: Seq<Option<IndexedDBKeyType>>,
) -> bool {
    &&& after.len() == before.len()
    &&& forall|i: int|
        0 <= i < before.len() ==> is_filled(before[i], #[trigger] after[i], key, arrays[i])
}

/// There is an array for each update that waits for one.
pub open spec fn arrays_for(
    updates: Seq<KvsIndexUpdate>,
    arrays: Seq<Option<IndexedDBKeyType>>,
) -> bool {
    &&& arrays.len() == updates.len()
    &&& forall|i: int|
        0 <= i < updates.len() && #[trigger] awaits_sequence(updates[i]) ==> arrays[i] is Some
}

/// The parts of a sequence with the key at each hole.
fn complete(parts: &Vec<Option<IndexedDBKeyType>>, key: &IndexedDBKeyType) -> (sequence: Vec<
    IndexedDBKeyType,
>)
    ensures
        keys_view(sequence@) == completed(parts@, key@),
{
    let mut sequence: Vec<IndexedDBKeyType> = Vec::new();
    let mut i: usize = 0;
    while i < parts.len()
        invariant
            i <= parts.len(),
            keys_view(sequence@) =~= completed(parts@, key@).take(i as int),
        decreases parts.len() - i,
    {
        let ghost so_far = sequence@;
        let part = match &parts[i] {
            Some(own) => own.clone(),
            None => key.clone(),
        };
        sequence.push(part);
        assert(keys_view(sequence@) =~= keys_view(so_far).push(part@));
        i += 1;
    }
    assert(completed(parts@, key@).take(i as int) =~= completed(parts@, key@));
    sequence
}

/// For each update the sequence that it waits for, if it waits for one, with `key` as the record's
/// key.
pub fn sequences(updates: &Vec<KvsIndexUpdate>, key: &IndexedDBKeyType) -> (sequences: Vec<
    Option<Vec<IndexedDBKeyType>>,
>)
    ensures
        sequences@.len() == updates@.len(),
        forall|i: int|
            0 <= i < updates@.len() ==> is_sequence_of(
                updates@[i],
                key@,
                #[trigger] sequences@[i],
            ),
{
    let mut sequences: Vec<Option<Vec<IndexedDBKeyType>>> = Vec::new();
    let mut i: usize = 0;
    while i < updates.len()
        invariant
            i <= updates.len(),
            sequences@.len() == i,
            forall|j: int|
                0 <= j < i ==> is_sequence_of(updates@[j], key@, #[trigger] sequences@[j]),
        decreases updates.len() - i,
    {
        let sequence = match &updates[i].record_key_placement {
            Some(RecordKeyPlacement::InSequence(parts)) => Some(complete(parts, key)),
            _ => None,
        };
        sequences.push(sequence);
        i += 1;
    }
    sequences
}

/// Fills the record's key into the updates. `arrays` are the array keys that their sequences make.
pub fn fill(
    updates: Vec<KvsIndexUpdate>,
    key: &IndexedDBKeyType,
    arrays: Vec<Option<IndexedDBKeyType>>,
) -> (filled: Vec<KvsIndexUpdate>)
    requires
        arrays_for(updates@, arrays@),
    ensures
        all_filled(updates@, filled@, key@, arrays@),
{
    let mut filled: Vec<KvsIndexUpdate> = Vec::new();
    let ghost all = updates@;
    for update in it: updates
        invariant
            it.seq() == updates@,
            all == updates@,
            arrays_for(all, arrays@),
            filled@.len() == it.index(),
            forall|j: int|
                0 <= j < it.index() ==> is_filled(all[j], #[trigger] filled@[j], key@, arrays@[j]),
    {
        let array = &arrays[filled.len()];
        let ghost before = update;
        let keys = match (update.record_key_placement, array) {
            (Some(RecordKeyPlacement::WholeKey), _) => vec![key.clone()],
            (Some(RecordKeyPlacement::InSequence(_)), Some(array)) => vec![array.clone()],
            _ => update.keys,
        };
        assert(keys_view(keys@) =~= keys_with(before, key@, option_key(*array)));
        filled.push(
            KvsIndexUpdate { index_name: update.index_name, keys, record_key_placement: None },
        );
    }
    filled
}

/// An index on the record's own key holds a record under the generated key, and under no other.
pub proof fn generated_key_is_indexed(
    before: Seq<KvsIndexUpdate>,
    after: Seq<KvsIndexUpdate>,
    key: Seq<u8>,
    arrays: Seq<Option<IndexedDBKeyType>>,
    i: int,
)
    requires
        all_filled(before, after, key, arrays),
        0 <= i < before.len(),
        before[i].record_key_placement matches Some(RecordKeyPlacement::WholeKey),
    ensures
        updates_view(after)[i] == (UpdateView { name: before[i].index_name@, keys: seq![key] }),
{
    assert(is_filled(before[i], after[i], key, arrays[i]));
}

} // verus!
