//! Indexes, as script sees them.

use vstd::prelude::*;

use crate::error::{failed, says, Error, ErrorKind, ErrorView};
use crate::indexeddb::cursor::{
    CursorView, IDBCursor, IDBCursorDirection, IterationParam, ObjectStoreOrIndex,
};
use crate::indexeddb::engine::dispatch::AsyncOperation;
use crate::indexeddb::get_all::{GetAllKind, GetAllRequest};
use crate::indexeddb::key::IndexedDBKeyRange;
use crate::indexeddb::key_path::KeyPath;
use crate::indexeddb::operation::{addresses_index, index_context, KvsOperationContext};
use crate::indexeddb::record::RecordsShape;
use crate::indexeddb::request::{
    places, IDBRequest, OutboundHold, PlacedRequest, RecordsParam, RequestEnvironment,
    RequestSource,
};

verus! {

/// An index handle.
#[derive(Debug)]
pub struct IDBIndex {
    pub name: String,
    pub multi_entry: bool,
    pub unique: bool,
    pub key_path: KeyPath,
    /// An index created during an upgrade goes where the upgrade aborts; any other gets its name
    /// back.
    pub newly_created_during_transaction: bool,
    /// The name that the index had when the upgrade began, once it has been renamed.
    pub rollback_name: Option<String>,
    /// The value handed out for the key path, which never changes.
    pub cached_key_path: Option<u64>,
}

impl IDBIndex {
    /// A new index handle.
    pub fn new_inherited(
        name: String,
        multi_entry: bool,
        unique: bool,
        key_path: KeyPath,
        newly_created_during_transaction: bool,
    ) -> (index: IDBIndex)
        ensures
            index == (IDBIndex {
                name,
                multi_entry,
                unique,
                key_path,
                newly_created_during_transaction,
                rollback_name: None,
                cached_key_path: None,
            }),
    {
        IDBIndex {
            name,
            multi_entry,
            unique,
            key_path,
            newly_created_during_transaction,
            rollback_name: None,
            cached_key_path: None,
        }
    }

    /// The handle with the name that it had when the upgrade began.
    pub open spec fn restored(self) -> IDBIndex {
        IDBIndex {
            name: match self.rollback_name {
                Some(name) => name,
                None => self.name,
            },
            rollback_name: None,
            ..self
        }
    }

    /// Gives the handle back the name that it had when the upgrade began, and answers that name.
    pub fn restore_name_after_abort(&mut self) -> (name: String)
        ensures
            *final(self) == old(self).restored(),
            name@ == final(self).name@,
    {
        match self.rollback_name.take() {
            Some(name) => {
                self.name = name;
            },
            None => {},
        }
        self.name.clone()
    }

    /// What goes to the engine beside the index's requests: they travel over the object store,
    /// and the name says that they range over index records.
    pub fn operation_context(&self) -> (context: KvsOperationContext)
        ensures
            addresses_index(context, self.name@),
    {
        index_context(&self.name)
    }

    /// Refuses a request on a deleted index, or on an index of a deleted store.
    pub fn verify_not_deleted(&self, has_index: bool, store_exists: bool) -> (result: Result<
        (),
        Error,
    >)
        ensures
            result is Ok <==> has_index && store_exists,
            result is Err ==> failed(result, index_deleted()),
    {
        if !has_index || !store_exists {
            return Err(
                Error::says(ErrorKind::InvalidState, "Index or its object store has been deleted"),
            );
        }
        Ok(())
    }

    /// The checks that come before a request's arguments are converted.
    pub fn check_request(
        &self,
        environment: &RequestEnvironment,
        has_index: bool,
        store_exists: bool,
    ) -> (result: Result<(), Error>)
        ensures
            match request_refusal(*environment, has_index, store_exists) {
                Some(refusal) => failed(result, refusal),
                None => result is Ok,
            },
    {
        match self.verify_not_deleted(has_index, store_exists) {
            Err(error) => return Err(error),
            Ok(()) => {},
        }
        environment.status.check_transaction_active()
    }

    /// Places a read on the index, once [`Self::check_request`] has passed.
    fn place(
        &self,
        environment: &mut RequestEnvironment,
        handle: u64,
        operation: AsyncOperation,
        records_param: Option<RecordsParam>,
    ) -> (result: Result<PlacedRequest, Error>)
        requires
            crate::indexeddb::request::paired(operation, records_param),
            old(environment).next_request_id < u64::MAX,
        ensures
            places_on_index(
                result,
                *old(environment),
                *final(environment),
                handle,
                self.name@,
                operation,
                records_param,
            ),
    {
        IDBRequest::execute_async_from_source(
            environment,
            RequestSource::Index(handle),
            self.operation_context(),
            operation,
            None,
            records_param,
        )
    }

    /// `get`.
    pub fn get(
        &self,
        environment: &mut RequestEnvironment,
        handle: u64,
        key_range: IndexedDBKeyRange,
    ) -> (result: Result<PlacedRequest, Error>)
        requires
            old(environment).next_request_id < u64::MAX,
        ensures
            places_on_index(
                result,
                *old(environment),
                *final(environment),
                handle,
                self.name@,
                AsyncOperation::GetItem { key_range },
                None,
            ),
    {
        self.place(environment, handle, AsyncOperation::GetItem { key_range }, None)
    }

    /// `getKey`.
    pub fn get_key(
        &self,
        environment: &mut RequestEnvironment,
        handle: u64,
        key_range: IndexedDBKeyRange,
    ) -> (result: Result<PlacedRequest, Error>)
        requires
            old(environment).next_request_id < u64::MAX,
        ensures
            places_on_index(
                result,
                *old(environment),
                *final(environment),
                handle,
                self.name@,
                AsyncOperation::GetKey { key_range },
                None,
            ),
    {
        self.place(environment, handle, AsyncOperation::GetKey { key_range }, None)
    }

    /// `count`.
    pub fn count(
        &self,
        environment: &mut RequestEnvironment,
        handle: u64,
        key_range: IndexedDBKeyRange,
    ) -> (result: Result<PlacedRequest, Error>)
        requires
            old(environment).next_request_id < u64::MAX,
        ensures
            places_on_index(
                result,
                *old(environment),
                *final(environment),
                handle,
                self.name@,
                AsyncOperation::Count { key_range },
                None,
            ),
    {
        self.place(environment, handle, AsyncOperation::Count { key_range }, None)
    }

    /// `getAll`, `getAllKeys` and `getAllRecords`, once the arguments are resolved.
    pub fn get_all(
        &self,
        environment: &mut RequestEnvironment,
        handle: u64,
        request: GetAllRequest,
    ) -> (result: Result<PlacedRequest, Error>)
        requires
            old(environment).next_request_id < u64::MAX,
        ensures
            places_on_index(
                result,
                *old(environment),
                *final(environment),
                handle,
                self.name@,
                read_all(request),
                Some(projection(request)),
            ),
    {
        let shape = request.kind.shape();
        self.place(
            environment,
            handle,
            AsyncOperation::Iterate { key_range: request.key_range, count: request.count, shape },
            Some(
                RecordsParam::GetAll {
                    kind: request.kind,
                    direction: request.direction,
                    count: request.answer_count,
                },
            ),
        )
    }

    /// `openCursor` and `openKeyCursor`: the cursor, and the read that moves it onto its first
    /// record. `cursor` is the number of the cursor's handle, and `request` that of the request
    /// that is made: the cursor keeps it for its lifetime.
    pub fn open_cursor(
        &self,
        environment: &mut RequestEnvironment,
        handle: u64,
        cursor: u64,
        request: u64,
        range: IndexedDBKeyRange,
        direction: IDBCursorDirection,
        key_only: bool,
    ) -> (result: (IDBCursor, Result<PlacedRequest, Error>))
        requires
            old(environment).next_request_id < u64::MAX,
        ensures
            opens(
                result.0,
                ObjectStoreOrIndex::Index,
                range,
                direction,
                key_only,
                if result.1 is Ok {
                    Some(request)
                } else {
                    None
                },
            ),
            exists|read: AsyncOperation, param: RecordsParam| #[trigger]
                reads_first(read, param, cursor, range) && places_on_index(
                    result.1,
                    *old(environment),
                    *final(environment),
                    handle,
                    self.name@,
                    read,
                    Some(param),
                ),
    {
        let mut own = IDBCursor::new_inherited(
            direction,
            false,
            ObjectStoreOrIndex::Index,
            range.clone(),
            key_only,
        );
        let read = AsyncOperation::Iterate {
            key_range: range,
            count: None,
            shape: RecordsShape::WithValues,
        };
        let param = RecordsParam::Cursor {
            cursor,
            param: IterationParam { key: None, primary_key: None, count: None },
        };
        assert(reads_first(read, param, cursor, range));
        let placed = self.place(environment, handle, read, Some(param));
        if placed.is_ok() {
            own.set_request(request);
        }
        (own, placed)
    }

    /// The `keyPath` attribute: the value handed out before, or none where the path is still to be
    /// converted.
    pub fn cached_key_path(&self) -> (cached: Option<u64>)
        ensures
            cached == self.cached_key_path,
    {
        self.cached_key_path
    }

    /// Keeps the value that the key path was converted to.
    pub fn keep_key_path(&mut self, value: u64)
        ensures
            *final(self) == (IDBIndex { cached_key_path: Some(value), ..*old(self) }),
    {
        self.cached_key_path = Some(value);
    }
}

/// The refusal of a request on what has been deleted.
pub open spec fn index_deleted() -> ErrorView {
    says(ErrorKind::InvalidState, "Index or its object store has been deleted"@)
}

/// Why a request on the index is refused, if it is.
pub open spec fn request_refusal(
    environment: RequestEnvironment,
    has_index: bool,
    store_exists: bool,
) -> Option<ErrorView> {
    if !has_index || !store_exists {
        Some(index_deleted())
    } else if !environment.status.accepts_requests() {
        Some(crate::error::plain(ErrorKind::TransactionInactive))
    } else {
        None
    }
}

/// The request is placed with the index as its source and as what it ranges over.
pub open spec fn places_on_index(
    result: Result<PlacedRequest, Error>,
    before: RequestEnvironment,
    after: RequestEnvironment,
    handle: u64,
    name: Seq<char>,
    operation: AsyncOperation,
    records_param: Option<RecordsParam>,
) -> bool {
    exists|context: KvsOperationContext|
        addresses_index(context, name) && #[trigger] places(
            result,
            before,
            after,
            Some(RequestSource::Index(handle)),
            context,
            operation,
            None,
            records_param,
            OutboundHold::Respect,
        )
}

/// The read of a resolved request.
pub open spec fn read_all(request: GetAllRequest) -> AsyncOperation {
    AsyncOperation::Iterate {
        key_range: request.key_range,
        count: request.count,
        shape: if request.kind == GetAllKind::PrimaryKeys {
            RecordsShape::KeysOnly
        } else {
            RecordsShape::WithValues
        },
    }
}

/// What is made of the answer to a resolved request.
pub open spec fn projection(request: GetAllRequest) -> RecordsParam {
    RecordsParam::GetAll {
        kind: request.kind,
        direction: request.direction,
        count: request.answer_count,
    }
}

/// The cursor is new, over the range, has not been iterated, and has this request.
pub open spec fn opens(
    cursor: IDBCursor,
    source: ObjectStoreOrIndex,
    range: IndexedDBKeyRange,
    direction: IDBCursorDirection,
    key_only: bool,
    request: Option<u64>,
) -> bool {
    cursor@ == (CursorView {
        range: range@,
        source,
        direction,
        position: None,
        key: None,
        cached_key: None,
        cached_primary_key: None,
        value: None,
        got_value: false,
        object_store_position: None,
        key_only,
        request,
    })
}

/// The read is of the whole range with values, and moves the cursor onto its first record.
pub open spec fn reads_first(
    read: AsyncOperation,
    param: RecordsParam,
    cursor: u64,
    range: IndexedDBKeyRange,
) -> bool {
    &&& read == (AsyncOperation::Iterate {
        key_range: range,
        count: None,
        shape: RecordsShape::WithValues,
    })
    &&& param == (RecordsParam::Cursor {
        cursor,
        param: IterationParam { key: None, primary_key: None, count: None },
    })
}

} // verus!
