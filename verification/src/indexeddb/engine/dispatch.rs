//! The requests of a transaction: what each of them comes to.

use vstd::prelude::*;
use vstd::string::*;

use crate::indexeddb::engine::backfill::IndexBackfillEntry;
use crate::indexeddb::engine::command::{writes, Command};
use crate::indexeddb::engine::model::{
    corrupt_storage, is_corrupt_storage, request_error, BackendError, EngineError, PutItemResult, SqlError, StoreModel,
};
use crate::indexeddb::engine::placement::{self, all_filled, arrays_for, is_sequence_of};
use crate::indexeddb::engine::put::{delete_index_records, drop_all_writes};
use crate::indexeddb::engine::query::{delete_records, range_deletion, BuiltQuery};
use crate::indexeddb::key::{IndexedDBKeyRange, IndexedDBKeyType};
use crate::indexeddb::operation::{KvsIndexUpdate, KvsOperationContext, KvsOperationTarget};
use crate::indexeddb::record::{records_view, IndexedDBRecord, RecordView, RecordsShape};

verus! {

/// The mode of a transaction, as the engine sees it.
#[derive(Clone, Copy, Debug, PartialEq, Eq, Structural)]
pub enum IndexedDBTxnMode {
    Readonly,
    Readwrite,
    Versionchange,
}

/// What a request asks of the engine. A key path is as it is stored.
#[derive(Debug)]
pub enum AsyncOperation {
    PutItem {
        key: Option<IndexedDBKeyType>,
        value: Vec<u8>,
        should_overwrite: bool,
        key_generator_current_number: Option<i64>,
    },
    BackfillIndex { index_name: String, entries: Vec<IndexBackfillEntry> },
    RemoveItem { key_range: IndexedDBKeyRange },
    Clear,
    GetItem { key_range: IndexedDBKeyRange },
    GetKey { key_range: IndexedDBKeyRange },
    Count { key_range: IndexedDBKeyRange },
    Iterate { key_range: IndexedDBKeyRange, count: Option<u32>, shape: RecordsShape },
    CreateObjectStore { key_path: Option<Vec<u8>>, auto_increment: bool },
    CreateIndex { index_name: String, key_path: Vec<u8>, unique: bool, multi_entry: bool },
    DeleteIndex { index_name: String },
    DeleteObjectStore,
    RenameObjectStore { new_name: String },
    RenameIndex { index_name: String, new_name: String },
}

/// One request of a transaction.
#[derive(Debug)]
pub struct KvsOperation {
    pub store_name: String,
    pub context: KvsOperationContext,
    pub operation: AsyncOperation,
    /// The number of the channel that the answer goes out on.
    pub callback: u64,
}

/// The key that a record is stored under.
#[derive(Debug)]
pub enum RecordKey {
    Given(IndexedDBKeyType),
    /// The number that the store's key generator gave.
    Generated(i64),
}

/// What a request comes to once its store is known.
#[derive(Debug)]
pub enum Work {
    Put {
        store_id: i32,
        key: RecordKey,
        value: Vec<u8>,
        should_overwrite: bool,
        key_generator_current_number: Option<i64>,
        index_updates: Vec<KvsIndexUpdate>,
    },
    /// The request is answered with this, and nothing is stored.
    RefusePut(Result<PutItemResult, BackendError>),
    Backfill { store_id: i32, index_name: String, entries: Vec<IndexBackfillEntry> },
    Remove { store_id: i32, key_range: IndexedDBKeyRange },
    Clear { store_id: i32 },
    Get { store_id: i32, target: KvsOperationTarget, key_range: IndexedDBKeyRange },
    GetKey { store_id: i32, target: KvsOperationTarget, key_range: IndexedDBKeyRange },
    Count { store_id: i32, target: KvsOperationTarget, key_range: IndexedDBKeyRange },
    Iterate {
        store_id: i32,
        target: KvsOperationTarget,
        key_range: IndexedDBKeyRange,
        count: Option<u32>,
        shape: RecordsShape,
    },
    CreateIndex {
        store: StoreModel,
        index_name: String,
        key_path: Vec<u8>,
        unique: bool,
        multi_entry: bool,
    },
    DeleteIndex { store: StoreModel, index_name: String },
    DeleteStore { store: StoreModel },
    RenameStore { store: StoreModel, new_name: String },
    RenameIndex { store: StoreModel, index_name: String, new_name: String },
    /// The request is answered with this error.
    Refuse(BackendError),
}

/// How a transaction is run: on which of the two pools, and whether its writes are recorded so
/// that they can be undone.
#[derive(Clone, Copy, Debug, PartialEq, Eq, Structural)]
pub struct TransactionPlan {
    pub on_read_pool: bool,
    pub undo_logged: bool,
}

/// How a transaction of this mode is run. Only a readwrite transaction is undone row by row: an
/// upgrade is reverted by rebuilding its schema, and a readonly transaction writes nothing.
pub fn plan_transaction(mode: IndexedDBTxnMode) -> (plan: TransactionPlan)
    ensures
        plan.on_read_pool == (mode == IndexedDBTxnMode::Readonly),
        plan.undo_logged == (mode == IndexedDBTxnMode::Readwrite),
{
    TransactionPlan {
        on_read_pool: mode == IndexedDBTxnMode::Readonly,
        undo_logged: mode == IndexedDBTxnMode::Readwrite,
    }
}

/// The answers to the requests of a transaction that cannot be run at all: each gets the error.
pub fn refuse_all(requests: &Vec<KvsOperation>, error: &SqlError) -> (answers: Vec<
    (u64, BackendError),
>)
    ensures
        answers.len() == requests.len(),
        forall|i: int|
            0 <= i < requests.len() ==> (#[trigger] answers[i]).0 == requests[i].callback && (
            answers[i].1 matches BackendError::DbErr(text) && text@ == error.description@),
{
    let mut answers: Vec<(u64, BackendError)> = Vec::new();
    let mut i: usize = 0;
    while i < requests.len()
        invariant
            i <= requests.len(),
            answers.len() == i,
            forall|j: int|
                0 <= j < i ==> (#[trigger] answers[j]).0 == requests[j].callback && (
                answers[j].1 matches BackendError::DbErr(text) && text@ == error.description@),
        decreases requests.len() - i,
    {
        answers.push((requests[i].callback, BackendError::DbErr(error.description.clone())));
        i += 1;
    }
    answers
}

/// What a request does first.
#[derive(Debug)]
pub enum FirstStep {
    /// Creates its store: there is none to look up yet.
    CreateStore { store_name: String, key_path: Option<Vec<u8>>, auto_increment: bool },
    /// Looks its store up, and then goes on with [`dispatch`].
    LookUp(KvsOperation),
}

/// What a request does first.
pub fn first_step(request: KvsOperation) -> (step: FirstStep)
    ensures
        match request.operation {
            AsyncOperation::CreateObjectStore { key_path, auto_increment } => step
                == (FirstStep::CreateStore {
                store_name: request.store_name,
                key_path,
                auto_increment,
            }),
            _ => step == FirstStep::LookUp(request),
        },
{
    match request.operation {
        AsyncOperation::CreateObjectStore { key_path, auto_increment } => FirstStep::CreateStore {
            store_name: request.store_name,
            key_path,
            auto_increment,
        },
        operation => FirstStep::LookUp(
            KvsOperation {
                store_name: request.store_name,
                context: request.context,
                operation,
                callback: request.callback,
            },
        ),
    }
}

/// The largest number that a key generator gives.
pub const GENERATOR_MAXIMUM: i64 = 9_007_199_254_740_992;

/// The work is a refusal with this text.
pub open spec fn refuses_put(work: Work, text: Seq<char>) -> bool {
    work matches Work::RefusePut(Err(BackendError::DbErr(error))) && error@ == text
}

/// The work that a request with a known store comes to.
pub open spec fn comes_to(request: KvsOperation, store: StoreModel, work: Work) -> bool {
    match request.operation {
        AsyncOperation::PutItem {
            key,
            value,
            should_overwrite,
            key_generator_current_number,
        } => match key {
            Some(key) => work == (Work::Put {
                store_id: store.id,
                key: RecordKey::Given(key),
                value,
                should_overwrite,
                key_generator_current_number,
                index_updates: request.context.index_updates,
            }),
            // A store without a key generator cannot name the record; a generator that has passed
            // its maximum has no number left; any other gives its number and moves on by one.
            None => if store.auto_increment == 0 {
                refuses_put(work, "Missing key for PutItem request"@)
            } else if store.auto_increment > GENERATOR_MAXIMUM {
                work == Work::RefusePut(Ok(PutItemResult::KeyGeneratorExhausted))
            } else {
                work == (Work::Put {
                    store_id: store.id,
                    key: RecordKey::Generated(store.auto_increment),
                    value,
                    should_overwrite,
                    key_generator_current_number: Some((store.auto_increment + 1) as i64),
                    index_updates: request.context.index_updates,
                })
            },
        },
        AsyncOperation::BackfillIndex { index_name, entries } => work == (Work::Backfill {
            store_id: store.id,
            index_name,
            entries,
        }),
        AsyncOperation::RemoveItem { key_range } => work == (Work::Remove {
            store_id: store.id,
            key_range,
        }),
        AsyncOperation::Clear => work == (Work::Clear { store_id: store.id }),
        AsyncOperation::GetItem { key_range } => work == (Work::Get {
            store_id: store.id,
            target: request.context.target,
            key_range,
        }),
        AsyncOperation::GetKey { key_range } => work == (Work::GetKey {
            store_id: store.id,
            target: request.context.target,
            key_range,
        }),
        AsyncOperation::Count { key_range } => work == (Work::Count {
            store_id: store.id,
            target: request.context.target,
            key_range,
        }),
        AsyncOperation::Iterate { key_range, count, shape } => work == (Work::Iterate {
            store_id: store.id,
            target: request.context.target,
            key_range,
            count,
            shape,
        }),
        AsyncOperation::CreateIndex { index_name, key_path, unique, multi_entry } => work
            == (Work::CreateIndex { store, index_name, key_path, unique, multi_entry }),
        AsyncOperation::CreateObjectStore { .. } => work matches Work::Refuse(BackendError::DbErr(
            text,
        )) && text@
            == "CreateObjectStore reached the main dispatch; the pre-pass above should have handled it"@,
        AsyncOperation::DeleteIndex { index_name } => work == (Work::DeleteIndex {
            store,
            index_name,
        }),
        AsyncOperation::DeleteObjectStore => work == (Work::DeleteStore { store }),
        AsyncOperation::RenameObjectStore { new_name } => work == (Work::RenameStore {
            store,
            new_name,
        }),
        AsyncOperation::RenameIndex { index_name, new_name } => work == (Work::RenameIndex {
            store,
            index_name,
            new_name,
        }),
    }
}

/// What a request comes to, given what looking its store up gave: a request against a store that
/// is not there, or that cannot be read, is refused.
pub fn dispatch(request: KvsOperation, store: Result<Option<StoreModel>, SqlError>) -> (work: Work)
    ensures
        match store {
            Ok(Some(store)) => comes_to(request, store, work),
            Ok(None) => work == Work::Refuse(BackendError::StoreNotFound),
            Err(error) => work == Work::Refuse(BackendError::DbErr(error.description)),
        },
{
    let store = match store {
        Ok(Some(store)) => store,
        Ok(None) => return Work::Refuse(BackendError::StoreNotFound),
        Err(error) => return Work::Refuse(BackendError::DbErr(error.description)),
    };
    let store_id = store.id;
    let target = request.context.target;
    match request.operation {
        AsyncOperation::PutItem {
            key,
            value,
            should_overwrite,
            key_generator_current_number,
        } => {
            let (key, key_generator_current_number) = match key {
                Some(key) => (RecordKey::Given(key), key_generator_current_number),
                None => {
                    if store.auto_increment == 0 {
                        return Work::RefusePut(
                            Err(BackendError::DbErr("Missing key for PutItem request".to_owned())),
                        );
                    }
                    if store.auto_increment > GENERATOR_MAXIMUM {
                        return Work::RefusePut(Ok(PutItemResult::KeyGeneratorExhausted));
                    }
                    (RecordKey::Generated(store.auto_increment), Some(store.auto_increment + 1))
                },
            };
            Work::Put {
                store_id,
                key,
                value,
                should_overwrite,
                key_generator_current_number,
                index_updates: request.context.index_updates,
            }
        },
        AsyncOperation::BackfillIndex { index_name, entries } => Work::Backfill {
            store_id,
            index_name,
            entries,
        },
        AsyncOperation::RemoveItem { key_range } => Work::Remove { store_id, key_range },
        AsyncOperation::Clear => Work::Clear { store_id },
        AsyncOperation::GetItem { key_range } => Work::Get { store_id, target, key_range },
        AsyncOperation::GetKey { key_range } => Work::GetKey { store_id, target, key_range },
        AsyncOperation::Count { key_range } => Work::Count { store_id, target, key_range },
        AsyncOperation::Iterate { key_range, count, shape } => Work::Iterate {
            store_id,
            target,
            key_range,
            count,
            shape,
        },
        AsyncOperation::CreateIndex { index_name, key_path, unique, multi_entry } => {
            Work::CreateIndex { store, index_name, key_path, unique, multi_entry }
        },
        AsyncOperation::CreateObjectStore { .. } => Work::Refuse(
            BackendError::DbErr(
                "CreateObjectStore reached the main dispatch; the pre-pass above should have handled it".to_owned(),
            ),
        ),
        AsyncOperation::DeleteIndex { index_name } => Work::DeleteIndex { store, index_name },
        AsyncOperation::DeleteObjectStore => Work::DeleteStore { store },
        AsyncOperation::RenameObjectStore { new_name } => Work::RenameStore { store, new_name },
        AsyncOperation::RenameIndex { index_name, new_name } => Work::RenameIndex {
            store,
            index_name,
            new_name,
        },
    }
}

/// A generated key lies within the generator's range, and the generator moves past it: no number
/// is given twice, and after the last one the generator is exhausted.
pub proof fn generator_gives_each_number_once(request: KvsOperation, store: StoreModel, work: Work)
    requires
        comes_to(request, store, work),
        store.auto_increment >= 0,
    ensures
        work matches Work::Put {
            key: RecordKey::Generated(number),
            key_generator_current_number,
            ..
        } ==> 1 <= number <= GENERATOR_MAXIMUM && key_generator_current_number == Some(
            (number + 1) as i64,
        ),
{
}

/// One record as the tables hold it.
#[derive(Debug)]
pub struct SourceRecord {
    /// The key that the request's range applied to.
    pub key: Vec<u8>,
    /// The key of the object store.
    pub primary_key: Vec<u8>,
    pub data: Vec<u8>,
    /// Whether the bytes of `key` stand for a key.
    pub key_decodes: bool,
    /// Whether the bytes of `primary_key` stand for a key.
    pub primary_key_decodes: bool,
}

impl SourceRecord {
    /// Both keys of the record can be read.
    pub open spec fn decodes(self) -> bool {
        self.key_decodes && self.primary_key_decodes
    }
}

/// The value that a `get` on an index answers with: that of the first record, if there is one.
pub fn first_value(mut records: Vec<SourceRecord>) -> (value: Option<Vec<u8>>)
    ensures
        value == if records@.len() == 0 {
            None
        } else {
            Some(records@[0].data)
        },
{
    if records.len() == 0 {
        None
    } else {
        Some(records.remove(0).data)
    }
}

/// The key that stored bytes stand for, given whether they stand for one.
pub fn decode_key(bytes: Vec<u8>, decodes: bool) -> (key: Result<IndexedDBKeyType, EngineError>)
    ensures
        if decodes {
            key == Ok::<_, EngineError>(IndexedDBKeyType { encoded: bytes })
        } else {
            key matches Err(error) && is_corrupt_storage(error, "key"@)
        },
{
    if decodes {
        Ok(IndexedDBKeyType { encoded: bytes })
    } else {
        Err(corrupt_storage("key"))
    }
}

/// The key that a `getKey` on an index answers with: the primary key of the first record, if
/// there is one.
pub fn first_primary_key(mut records: Vec<SourceRecord>) -> (key: Result<
    Option<IndexedDBKeyType>,
    EngineError,
>)
    ensures
        if records@.len() == 0 {
            key == Ok::<Option<IndexedDBKeyType>, EngineError>(None)
        } else if records@[0].primary_key_decodes {
            key matches Ok(Some(own)) && own@ == records@[0].primary_key@
        } else {
            key matches Err(error) && is_corrupt_storage(error, "key"@)
        },
{
    if records.len() == 0 {
        Ok(None)
    } else {
        let record = records.remove(0);
        match decode_key(record.primary_key, record.primary_key_decodes) {
            Ok(key) => Ok(Some(key)),
            Err(error) => Err(error),
        }
    }
}

/// The removal of a range: the index records of the removed objects are dropped first, and then
/// the objects are deleted.
#[derive(Debug)]
pub struct Removal {
    pub commands: Vec<Command>,
    pub delete: BuiltQuery,
}

/// The removal of a range. `removed` are the keys of the store that the range covers: they have to
/// be read before the rows that define them are gone.
pub fn delete_item(
    store_id: i32,
    key_range: &IndexedDBKeyRange,
    removed: &Vec<Vec<u8>>,
) -> (removal: Removal)
    ensures
        writes(removal.commands@) == drop_all_writes(store_id as int, removed@),
        removal.delete.parts() == range_deletion(store_id as int, key_range@),
{
    Removal {
        commands: delete_index_records(store_id, removed),
        delete: delete_records(store_id, key_range),
    }
}

/// The answer to a request, given what its work came to.
pub fn reply<T>(outcome: Result<T, EngineError>) -> (answer: Result<T, BackendError>)
    ensures
        match outcome {
            Ok(value) => answer == Ok::<T, BackendError>(value),
            Err(error) => answer matches Err(BackendError::DbErr(text)) && text@ == error.text(),
        },
{
    match outcome {
        Ok(value) => Ok(value),
        Err(error) => Err(request_error(error)),
    }
}

/// What a schema request is told, given what its work came to: only a failure is told.
pub fn schema_reply<T>(outcome: Result<T, EngineError>) -> (told: Option<BackendError>)
    ensures
        match outcome {
            Ok(_) => told is None,
            Err(error) => told matches Some(BackendError::DbErr(text)) && text@ == error.text(),
        },
{
    match outcome {
        Ok(_) => None,
        Err(error) => Some(request_error(error)),
    }
}

/// What a row is as a record.
pub open spec fn row_view(row: SourceRecord) -> RecordView {
    RecordView { key: row.key@, primary_key: row.primary_key@, value: row.data@ }
}

/// The records that a request is answered with, given the rows: none of them, where a key of one
/// cannot be read.
pub fn request_records(rows: Vec<SourceRecord>) -> (records: Result<
    Vec<IndexedDBRecord>,
    EngineError,
>)
    ensures
        match records {
            Ok(records) => {
                &&& forall|i: int| 0 <= i < rows@.len() ==> (#[trigger] rows@[i]).decodes()
                &&& records_view(records@) == rows@.map_values(|row: SourceRecord| row_view(row))
            },
            Err(error) => {
                &&& exists|i: int| 0 <= i < rows@.len() && !(#[trigger] rows@[i]).decodes()
                &&& is_corrupt_storage(error, "key"@)
            },
        },
{
    let ghost all = rows@.map_values(|row: SourceRecord| row_view(row));
    let mut records: Vec<IndexedDBRecord> = Vec::new();
    assert(records_view(records@) =~= all.take(0));
    for row in it: rows
        invariant
            it.seq() == rows@,
            all == rows@.map_values(|row: SourceRecord| row_view(row)),
            records_view(records@) == all.take(it.index() as int),
            forall|i: int| 0 <= i < it.index() ==> (#[trigger] rows@[i]).decodes(),
    {
        let ghost so_far = records@;
        assert(row == rows@[it.index() as int]);
        let key = match decode_key(row.key, row.key_decodes) {
            Ok(key) => key,
            Err(error) => return Err(error),
        };
        let primary_key = match decode_key(row.primary_key, row.primary_key_decodes) {
            Ok(key) => key,
            Err(error) => return Err(error),
        };
        let record = IndexedDBRecord { key, primary_key, value: row.data };
        records.push(record);
        assert(records_view(records@) =~= records_view(so_far).push(record@));
        assert(all.take(it.index() + 1) =~= all.take(it.index() as int).push(record@));
    }
    assert(all.take(all.len() as int) =~= all);
    Ok(records)
}

impl Work {
    /// The index updates of a `put`; no other work has any.
    pub open spec fn updates(self) -> Seq<KvsIndexUpdate> {
        match self {
            Work::Put { index_updates, .. } => index_updates@,
            _ => Seq::empty(),
        }
    }

    /// For each index update the sequence that waits for the record's key, if one does. Each is
    /// encoded as an array key before the work goes on.
    pub fn sequences(&self, key: &IndexedDBKeyType) -> (sequences: Vec<
        Option<Vec<IndexedDBKeyType>>,
    >)
        ensures
            sequences@.len() == self.updates().len(),
            forall|i: int|
                0 <= i < self.updates().len() ==> is_sequence_of(
                    self.updates()[i],
                    key@,
                    #[trigger] sequences@[i],
                ),
    {
        match self {
            Work::Put { index_updates, .. } => placement::sequences(index_updates, key),
            _ => Vec::new(),
        }
    }

    /// The same work with the record named `key`: the key that its store's generator gave. The
    /// index updates that wait for it get it; `arrays` are the array keys that their sequences
    /// make.
    pub fn with_key(self, key: IndexedDBKeyType, arrays: Vec<Option<IndexedDBKeyType>>) -> (work:
        Work)
        requires
            arrays_for(self.updates(), arrays@),
        ensures
            match self {
                Work::Put {
                    store_id,
                    key: _,
                    value,
                    should_overwrite,
                    key_generator_current_number,
                    index_updates,
                } => {
                    &&& work matches Work::Put {
                        store_id: own_store_id,
                        key: own_key,
                        value: own_value,
                        should_overwrite: own_should_overwrite,
                        key_generator_current_number: own_number,
                        index_updates: filled,
                    }
                    &&& own_store_id == store_id
                    &&& own_key == RecordKey::Given(key)
                    &&& own_value == value
                    &&& own_should_overwrite == should_overwrite
                    &&& own_number == key_generator_current_number
                    &&& all_filled(index_updates@, filled@, key@, arrays@)
                },
                other => work == other,
            },
    {
        match self {
            Work::Put {
                store_id,
                key: _,
                value,
                should_overwrite,
                key_generator_current_number,
                index_updates,
            } => {
                let index_updates = placement::fill(index_updates, &key, arrays);
                Work::Put {
                    store_id,
                    key: RecordKey::Given(key),
                    value,
                    should_overwrite,
                    key_generator_current_number,
                    index_updates,
                }
            },
            other => other,
        }
    }
}

} // verus!
