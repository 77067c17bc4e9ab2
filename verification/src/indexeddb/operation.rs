//! The operations that a request sends to the engine.

use vstd::prelude::*;

use crate::indexeddb::key::IndexedDBKeyType;

verus! {

/// Which of an object store's surfaces a request addresses.
#[derive(Debug)]
pub enum KvsOperationTarget {
    ObjectStore,
    Index { name: String },
}

/// Where in an index key the record's own key goes, once the engine has generated it.
#[derive(Debug)]
pub enum RecordKeyPlacement {
    /// The index key is the record's key.
    WholeKey,
    /// The index key is a sequence, with the record's key at each `None`.
    InSequence(Vec<Option<IndexedDBKeyType>>),
}

/// The index keys that one index takes from a record.
#[derive(Debug)]
pub struct KvsIndexUpdate {
    pub index_name: String,
    pub keys: Vec<IndexedDBKeyType>,
    pub record_key_placement: Option<RecordKeyPlacement>,
}

/// What goes to the engine beside an operation.
#[derive(Debug)]
pub struct KvsOperationContext {
    pub target: KvsOperationTarget,
    pub index_updates: Vec<KvsIndexUpdate>,
}

impl Default for KvsOperationContext {
    /// The context of a plain object store request.
    fn default() -> (context: Self)
        ensures
            context.target is ObjectStore,
            context.index_updates@ == Seq::<KvsIndexUpdate>::empty(),
    {
        KvsOperationContext { target: KvsOperationTarget::ObjectStore, index_updates: Vec::new() }
    }
}

/// The context addresses the index of the given name and carries no index updates.
pub open spec fn addresses_index(context: KvsOperationContext, name: Seq<char>) -> bool {
    &&& context.target matches KvsOperationTarget::Index { name: target } && target@ == name
    &&& context.index_updates@ == Seq::<KvsIndexUpdate>::empty()
}

/// The context addresses the object store and carries no index updates.
pub open spec fn addresses_store(context: KvsOperationContext) -> bool {
    context.target is ObjectStore && context.index_updates@ == Seq::<KvsIndexUpdate>::empty()
}

/// The context of a request on an index.
pub fn index_context(name: &String) -> (context: KvsOperationContext)
    ensures
        addresses_index(context, name@),
{
    KvsOperationContext {
        target: KvsOperationTarget::Index { name: name.clone() },
        index_updates: Vec::new(),
    }
}

} // verus!
