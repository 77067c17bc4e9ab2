//! The records that a read hands back.

use vstd::prelude::*;

use crate::indexeddb::key::{copy_bytes, key_lt, IndexedDBKeyType};

verus! {

/// One record of an object store or an index. For an index, `key` is the index key and
/// `primary_key` the key of the object store; for an object store the two are the same key.
#[derive(Debug)]
pub struct IndexedDBRecord {
    pub key: IndexedDBKeyType,
    pub primary_key: IndexedDBKeyType,
    pub value: Vec<u8>,
}

/// What a record holds.
pub struct RecordView {
    pub key: Seq<u8>,
    pub primary_key: Seq<u8>,
    pub value: Seq<u8>,
}

impl View for IndexedDBRecord {
    type V = RecordView;

    open spec fn view(&self) -> RecordView {
        RecordView { key: self.key@, primary_key: self.primary_key@, value: self.value@ }
    }
}

impl Clone for IndexedDBRecord {
    fn clone(&self) -> (copy: Self)
        ensures
            copy@ == self@,
    {
        IndexedDBRecord {
            key: self.key.clone(),
            primary_key: self.primary_key.clone(),
            value: copy_bytes(&self.value),
        }
    }
}

/// What a list of records holds.
pub open spec fn records_view(records: Seq<IndexedDBRecord>) -> Seq<RecordView> {
    records.map_values(|record: IndexedDBRecord| record@)
}

/// `a` comes before `b` by key, and by primary key where the keys are equal.
pub open spec fn record_lt(a: RecordView, b: RecordView) -> bool {
    key_lt(a.key, b.key) || (a.key == b.key && key_lt(a.primary_key, b.primary_key))
}

/// The records stand in the order in which the engine answers: ascending by key, then by primary
/// key, no two alike.
pub open spec fn in_record_order(records: Seq<RecordView>) -> bool {
    forall|i: int, j: int|
        0 <= i < j < records.len() ==> record_lt(#[trigger] records[i], #[trigger] records[j])
}

/// Which columns a read asks for.
#[derive(Clone, Copy, Debug, PartialEq, Eq, Structural)]
pub enum RecordsShape {
    WithValues,
    KeysOnly,
}

} // verus!
