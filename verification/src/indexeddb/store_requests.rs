//! The requests that an object store places.

use vstd::prelude::*;

use crate::error::Error;
use crate::indexeddb::cursor::{IDBCursor, IDBCursorDirection, IterationParam, ObjectStoreOrIndex};
use crate::indexeddb::engine::backfill::IndexBackfillEntry;
use crate::indexeddb::engine::dispatch::AsyncOperation;
use crate::indexeddb::get_all::GetAllRequest;
use crate::indexeddb::index::{opens, projection, read_all, reads_first, IDBIndex};
use crate::indexeddb::key::{IndexedDBKeyRange, IndexedDBKeyType, RangeView};
use crate::indexeddb::key_path::KeyPath;
use crate::indexeddb::object_store::IDBObjectStore;
use crate::indexeddb::operation::{
    addresses_store, KvsIndexUpdate, KvsOperationContext, KvsOperationTarget,
};
use crate::indexeddb::record::RecordsShape;
use crate::indexeddb::request::{
    paired, places, ActionView, IDBRequest, OutboundHold, PlacedRequest, RecordsParam,
    RequestEnvironment, RequestSource, TransactionAction,
};

verus! {

/// The request is placed on the object store itself.
pub open spec fn places_on_store(
    result: Result<PlacedRequest, Error>,
    before: RequestEnvironment,
    after: RequestEnvironment,
    operation: AsyncOperation,
    records_param: Option<RecordsParam>,
) -> bool {
    exists|context: KvsOperationContext|
        addresses_store(context) && #[trigger] places(
            result,
            before,
            after,
            None,
            context,
            operation,
            None,
            records_param,
            OutboundHold::Respect,
        )
}

/// `get`.
pub fn get(environment: &mut RequestEnvironment, key_range: IndexedDBKeyRange) -> (result: Result<
    PlacedRequest,
    Error,
>)
    requires
        old(environment).next_request_id < u64::MAX,
    ensures
        places_on_store(
            result,
            *old(environment),
            *final(environment),
            AsyncOperation::GetItem { key_range },
            None,
        ),
{
    IDBRequest::execute_async(environment, AsyncOperation::GetItem { key_range }, None, None)
}

/// `getKey`.
pub fn get_key(environment: &mut RequestEnvironment, key_range: IndexedDBKeyRange) -> (result:
    Result<PlacedRequest, Error>)
    requires
        old(environment).next_request_id < u64::MAX,
    ensures
        places_on_store(
            result,
            *old(environment),
            *final(environment),
            AsyncOperation::GetKey { key_range },
            None,
        ),
{
    IDBRequest::execute_async(environment, AsyncOperation::GetKey { key_range }, None, None)
}

/// `count`.
pub fn count(environment: &mut RequestEnvironment, key_range: IndexedDBKeyRange) -> (result: Result<
    PlacedRequest,
    Error,
>)
    requires
        old(environment).next_request_id < u64::MAX,
    ensures
        places_on_store(
            result,
            *old(environment),
            *final(environment),
            AsyncOperation::Count { key_range },
            None,
        ),
{
    IDBRequest::execute_async(environment, AsyncOperation::Count { key_range }, None, None)
}

/// `delete`.
pub fn delete(environment: &mut RequestEnvironment, key_range: IndexedDBKeyRange) -> (result:
    Result<PlacedRequest, Error>)
    requires
        old(environment).next_request_id < u64::MAX,
    ensures
        places_on_store(
            result,
            *old(environment),
            *final(environment),
            AsyncOperation::RemoveItem { key_range },
            None,
        ),
{
    IDBRequest::execute_async(environment, AsyncOperation::RemoveItem { key_range }, None, None)
}

/// `clear`.
pub fn clear(environment: &mut RequestEnvironment) -> (result: Result<PlacedRequest, Error>)
    requires
        old(environment).next_request_id < u64::MAX,
    ensures
        places_on_store(
            result,
            *old(environment),
            *final(environment),
            AsyncOperation::Clear,
            None,
        ),
{
    IDBRequest::execute_async(environment, AsyncOperation::Clear, None, None)
}

/// `getAll`, `getAllKeys` and `getAllRecords`, once the arguments are resolved.
pub fn get_all(environment: &mut RequestEnvironment, request: GetAllRequest) -> (result: Result<
    PlacedRequest,
    Error,
>)
    requires
        old(environment).next_request_id < u64::MAX,
    ensures
        places_on_store(
            result,
            *old(environment),
            *final(environment),
            read_all(request),
            Some(projection(request)),
        ),
{
    let shape = request.kind.shape();
    IDBRequest::execute_async(
        environment,
        AsyncOperation::Iterate { key_range: request.key_range, count: request.count, shape },
        None,
        Some(
            RecordsParam::GetAll {
                kind: request.kind,
                direction: request.direction,
                count: request.answer_count,
            },
        ),
    )
}

/// `openCursor` and `openKeyCursor`: the cursor, and the read that moves it onto its first record.
/// `cursor` is the number of the cursor's handle, and `request` that of the request that is made:
/// the cursor keeps it for its lifetime.
pub fn open_cursor(
    environment: &mut RequestEnvironment,
    cursor: u64,
    request: u64,
    range: IndexedDBKeyRange,
    direction: IDBCursorDirection,
    key_only: bool,
) -> (result: (IDBCursor, Result<PlacedRequest, Error>))
    requires
        old(environment).next_request_id < u64::MAX,
    ensures
        opens(
            result.0,
            ObjectStoreOrIndex::ObjectStore,
            range,
            direction,
            key_only,
            if result.1 is Ok {
                Some(request)
            } else {
                None
            },
        ),
        exists|read: AsyncOperation, param: RecordsParam| #[trigger]
            reads_first(read, param, cursor, range) && places_on_store(
                result.1,
                *old(environment),
                *final(environment),
                read,
                Some(param),
            ),
{
    let mut own = IDBCursor::new_inherited(
        direction,
        false,
        ObjectStoreOrIndex::ObjectStore,
        range.clone(),
        key_only,
    );
    let read = AsyncOperation::Iterate {
        key_range: range,
        count: None,
        shape: RecordsShape::WithValues,
    };
    let param = RecordsParam::Cursor {
        cursor,
        param: IterationParam { key: None, primary_key: None, count: None },
    };
    assert(reads_first(read, param, cursor, range));
    let placed = IDBRequest::execute_async(environment, read, None, Some(param));
    if placed.is_ok() {
        own.set_request(request);
    }
    (own, placed)
}

/// The context carries the index updates of a record that is stored.
pub open spec fn carries(context: KvsOperationContext, updates: Vec<KvsIndexUpdate>) -> bool {
    context.target is ObjectStore && context.index_updates == updates
}

/// `put` and `add`, once the key and the index updates are known. A record without a key is left
/// for the engine to name.
pub fn put(
    environment: &mut RequestEnvironment,
    key: Option<IndexedDBKeyType>,
    value: Vec<u8>,
    no_overwrite: bool,
    index_updates: Vec<KvsIndexUpdate>,
) -> (result: Result<PlacedRequest, Error>)
    requires
        old(environment).next_request_id < u64::MAX,
    ensures
        exists|context: KvsOperationContext|
            #[trigger] carries(context, index_updates) && places(
                result,
                *old(environment),
                *final(environment),
                None,
                context,
                AsyncOperation::PutItem {
                    key,
                    value,
                    should_overwrite: !no_overwrite,
                    key_generator_current_number: None,
                },
                None,
                None,
                OutboundHold::Respect,
            ),
{
    let context = KvsOperationContext { target: KvsOperationTarget::ObjectStore, index_updates };
    assert(carries(context, index_updates));
    IDBRequest::execute_async_with_context(
        environment,
        context,
        AsyncOperation::PutItem {
            key,
            value,
            should_overwrite: !no_overwrite,
            key_generator_current_number: None,
        },
        None,
        None,
    )
}

/// The write of a cursor's `update`: the record keeps the key that it is stored under.
pub fn store_record_with_known_key(
    environment: &mut RequestEnvironment,
    source: RequestSource,
    key: IndexedDBKeyType,
    value: Vec<u8>,
    index_updates: Vec<KvsIndexUpdate>,
) -> (result: Result<PlacedRequest, Error>)
    requires
        old(environment).next_request_id < u64::MAX,
    ensures
        exists|context: KvsOperationContext|
            #[trigger] carries(context, index_updates) && places(
                result,
                *old(environment),
                *final(environment),
                Some(source),
                context,
                AsyncOperation::PutItem {
                    key: Some(key),
                    value,
                    should_overwrite: true,
                    key_generator_current_number: None,
                },
                None,
                None,
                OutboundHold::Respect,
            ),
{
    let context = KvsOperationContext { target: KvsOperationTarget::ObjectStore, index_updates };
    assert(carries(context, index_updates));
    IDBRequest::execute_async_from_source(
        environment,
        source,
        context,
        AsyncOperation::PutItem {
            key: Some(key),
            value,
            should_overwrite: true,
            key_generator_current_number: None,
        },
        None,
        None,
    )
}

/// The removal of a cursor's `delete`: the one key that the cursor stands on.
pub fn delete_record_with_known_key(
    environment: &mut RequestEnvironment,
    source: RequestSource,
    key: IndexedDBKeyType,
) -> (result: Result<PlacedRequest, Error>)
    requires
        old(environment).next_request_id < u64::MAX,
    ensures
        exists|context: KvsOperationContext, key_range: IndexedDBKeyRange|
            addresses_store(context) && key_range@ == (RangeView {
                lower: Some(key@),
                upper: Some(key@),
                lower_open: false,
                upper_open: false,
            }) && #[trigger] places(
                result,
                *old(environment),
                *final(environment),
                Some(source),
                context,
                AsyncOperation::RemoveItem { key_range },
                None,
                None,
                OutboundHold::Respect,
            ),
{
    let context = KvsOperationContext::default();
    let key_range = IndexedDBKeyRange::only(key);
    IDBRequest::execute_async_from_source(
        environment,
        source,
        context,
        AsyncOperation::RemoveItem { key_range },
        None,
        None,
    )
}

/// The request is one of a backfill: it goes to the store that the engine knows by `store_name`,
/// and no hold delays it.
pub open spec fn places_backfill(
    result: Result<PlacedRequest, Error>,
    before: RequestEnvironment,
    after: RequestEnvironment,
    store_name: String,
    operation: AsyncOperation,
    records_param: Option<RecordsParam>,
) -> bool {
    let named = RequestEnvironment { store_name, ..before };
    exists|context: KvsOperationContext|
        addresses_store(context) && #[trigger] places(
            result,
            named,
            RequestEnvironment { store_name, ..after },
            None,
            context,
            operation,
            None,
            records_param,
            OutboundHold::Bypass,
        )
}

fn execute_backfill_operation(
    environment: &mut RequestEnvironment,
    store_name: &String,
    operation: AsyncOperation,
    records_param: Option<RecordsParam>,
) -> (result: Result<PlacedRequest, Error>)
    requires
        paired(operation, records_param),
        old(environment).next_request_id < u64::MAX,
    ensures
        final(environment).store_name == old(environment).store_name,
        places_backfill(
            result,
            *old(environment),
            *final(environment),
            *store_name,
            operation,
            records_param,
        ),
{
    let own_name = environment.store_name.clone();
    environment.store_name = store_name.clone();
    let result = IDBRequest::execute_async_bypassing_hold(environment, operation, records_param);
    environment.store_name = own_name;
    result
}

/// The first half of filling a new index: reads back every record that the store holds. Only
/// script's side can evaluate the key path, so the records make a round trip. The store is named
/// as the engine knows it, since the round trip outlives the call that started it.
pub fn start_index_backfill(
    environment: &mut RequestEnvironment,
    store_name: &String,
    index_name: String,
    key_path: KeyPath,
    multi_entry: bool,
) -> (result: Result<PlacedRequest, Error>)
    requires
        old(environment).next_request_id < u64::MAX,
    ensures
        final(environment).store_name == old(environment).store_name,
        exists|key_range: IndexedDBKeyRange|
            key_range@ == (RangeView {
                lower: None,
                upper: None,
                lower_open: false,
                upper_open: false,
            }) && #[trigger] places_backfill(
                result,
                *old(environment),
                *final(environment),
                *store_name,
                AsyncOperation::Iterate { key_range, count: None, shape: RecordsShape::WithValues },
                Some(
                    RecordsParam::IndexBackfill {
                        store_name: *store_name,
                        index_name,
                        key_path,
                        multi_entry,
                    },
                ),
            ),
{
    let key_range = IndexedDBKeyRange::default();
    let param = RecordsParam::IndexBackfill {
        store_name: store_name.clone(),
        index_name,
        key_path,
        multi_entry,
    };
    execute_backfill_operation(
        environment,
        store_name,
        AsyncOperation::Iterate { key_range, count: None, shape: RecordsShape::WithValues },
        Some(param),
    )
}

/// The read that begins to fill a new index, and what the transaction does once it is placed.
#[derive(Debug)]
pub struct IndexFill {
    pub read: PlacedRequest,
    pub action: TransactionAction,
}

/// The read that begins to fill an index, or why it could not be placed.
pub open spec fn fill_read(result: Result<IndexFill, Error>) -> Result<PlacedRequest, Error> {
    match result {
        Ok(fill) => Ok(fill.read),
        Err(error) => Err(error),
    }
}

/// The records of the store are read, for the index. What script places after that waits until the
/// index is filled: a later request would otherwise find the index empty.
pub open spec fn fills_index(
    result: Result<IndexFill, Error>,
    before: RequestEnvironment,
    after: RequestEnvironment,
    store_name: Seq<char>,
    index: IDBIndex,
) -> bool {
    &&& after.store_name == before.store_name
    &&& result matches Ok(fill) ==> fill.action@ == ActionView::HoldOutboundAfterBackfill
    &&& exists|read: AsyncOperation, param: RecordsParam, name: String| #[trigger]
        reads_all_for(read, param, store_name, index) && name@ == store_name
            && #[trigger] places_backfill(
            fill_read(result),
            before,
            after,
            name,
            read,
            Some(param),
        )
}

/// The read is of every record with its value, and its answer fills the index.
pub open spec fn reads_all_for(
    read: AsyncOperation,
    param: RecordsParam,
    store_name: Seq<char>,
    index: IDBIndex,
) -> bool {
    &&& read matches AsyncOperation::Iterate { key_range, count: None, shape } && key_range@ == (
    RangeView { lower: None, upper: None, lower_open: false, upper_open: false }) && shape
        == RecordsShape::WithValues
    &&& param matches RecordsParam::IndexBackfill {
        store_name: own,
        index_name,
        key_path,
        multi_entry,
    } && own@ == store_name && index_name@ == index.name@ && key_path@ == index.key_path@
        && multi_entry == index.multi_entry
}

/// Goes on after [`IDBObjectStore::created_index`] has answered `handle`: the new index has to hold
/// a record for every record that the store holds already.
pub fn fill_created_index(
    store: &IDBObjectStore,
    environment: &mut RequestEnvironment,
    handle: usize,
) -> (result: Result<IndexFill, Error>)
    requires
        handle < store.handles.len(),
        old(environment).next_request_id < u64::MAX,
    ensures
        fills_index(
            result,
            *old(environment),
            *final(environment),
            store.name@,
            store.handles@[handle as int],
        ),
{
    let index = &store.handles[handle];
    let index_name = index.name.clone();
    let key_path = index.key_path.clone();
    let ghost param = RecordsParam::IndexBackfill {
        store_name: store.name,
        index_name,
        key_path,
        multi_entry: index.multi_entry,
    };
    let ghost before = *environment;
    let placed = start_index_backfill(
        environment,
        &store.name,
        index_name,
        key_path,
        index.multi_entry,
    );
    let ghost own = placed;
    let result = match placed {
        Ok(read) => Ok(IndexFill { read, action: TransactionAction::HoldOutboundAfterBackfill }),
        Err(error) => Err(error),
    };
    proof {
        let key_range = choose|key_range: IndexedDBKeyRange|
            key_range@ == (RangeView {
                lower: None,
                upper: None,
                lower_open: false,
                upper_open: false,
            }) && #[trigger] places_backfill(
                own,
                before,
                *environment,
                store.name,
                AsyncOperation::Iterate { key_range, count: None, shape: RecordsShape::WithValues },
                Some(param),
            );
        let read = AsyncOperation::Iterate {
            key_range,
            count: None,
            shape: RecordsShape::WithValues,
        };
        assert(fill_read(result) == own);
        assert(reads_all_for(read, param, store.name@, *index));
        assert(places_backfill(
            fill_read(result),
            before,
            *environment,
            store.name,
            read,
            Some(param),
        ));
    }
    result
}

/// The second half of filling a new index: sends the index keys out.
pub fn send_index_backfill(
    environment: &mut RequestEnvironment,
    store_name: &String,
    index_name: String,
    entries: Vec<IndexBackfillEntry>,
) -> (result: Result<PlacedRequest, Error>)
    requires
        old(environment).next_request_id < u64::MAX,
    ensures
        final(environment).store_name == old(environment).store_name,
        places_backfill(
            result,
            *old(environment),
            *final(environment),
            *store_name,
            AsyncOperation::BackfillIndex { index_name, entries },
            None,
        ),
{
    execute_backfill_operation(
        environment,
        store_name,
        AsyncOperation::BackfillIndex { index_name, entries },
        None,
    )
}

} // verus!
