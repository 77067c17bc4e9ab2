//! Requests: how one is placed, and what happens when the engine has answered it.

use vstd::prelude::*;
use vstd::string::*;

use crate::error::{failed, plain, says, Error, ErrorKind, ErrorView};
use crate::indexeddb::cursor::{IDBCursorDirection, IterationParam};
use crate::indexeddb::engine::dispatch::{AsyncOperation, IndexedDBTxnMode};
use crate::indexeddb::engine::model::{BackendError, BackfillIndexResult, PutItemResult};
use crate::indexeddb::get_all::{project_records, projected, GetAllKind};
use crate::indexeddb::key::{option_key, IndexedDBKeyType};
use crate::indexeddb::key_path::KeyPath;
use crate::indexeddb::operation::{addresses_store, KvsOperationContext, KvsOperationTarget};
use crate::indexeddb::record::{records_view, IndexedDBRecord};
use crate::indexeddb::transaction::{IDBTransactionMode, TransactionStatus};

verus! {

/// The surface that a request was placed on, by the number of its handle.
#[derive(Clone, Copy, Debug, PartialEq, Eq, Structural)]
pub enum RequestSource {
    ObjectStore(u64),
    Index(u64),
    Cursor(u64),
}

/// Whether a request has been answered.
#[derive(Clone, Copy, Debug, PartialEq, Eq, Structural)]
pub enum IDBRequestReadyState {
    Pending,
    Done,
}

/// The result of a request, as script sees it.
#[derive(Clone, Copy, Debug, PartialEq, Eq, Structural)]
pub enum JsAnswer {
    Undefined,
    Null,
    Number(u64),
    /// A JavaScript value, by the number of its handle.
    Value(u64),
}

/// A request.
#[derive(Debug)]
pub struct IDBRequest {
    pub result: JsAnswer,
    pub error: Option<Error>,
    pub source: Option<RequestSource>,
    /// The transaction that the request belongs to, by the number of its handle.
    pub transaction: Option<u64>,
    pub ready_state: IDBRequestReadyState,
}

impl IDBRequest {
    /// A request that has not been placed yet.
    pub fn new_inherited() -> (request: IDBRequest)
        ensures
            request == (IDBRequest {
                result: JsAnswer::Undefined,
                error: None,
                source: None,
                transaction: None,
                ready_state: IDBRequestReadyState::Pending,
            }),
    {
        IDBRequest {
            result: JsAnswer::Undefined,
            error: None,
            source: None,
            transaction: None,
            ready_state: IDBRequestReadyState::Pending,
        }
    }

    /// A new request of a transaction, by the number of the transaction's handle.
    pub open spec fn fresh(source: RequestSource, transaction: u64) -> IDBRequest {
        IDBRequest {
            result: JsAnswer::Undefined,
            error: None,
            source: Some(source),
            transaction: Some(transaction),
            ready_state: IDBRequestReadyState::Pending,
        }
    }

    /// A new request with `source` as its source, for a transaction.
    pub fn new(source: RequestSource, transaction: u64) -> (request: IDBRequest)
        ensures
            request == Self::fresh(source, transaction),
    {
        let mut request = IDBRequest::new_inherited();
        request.set_source(source);
        request.set_transaction(transaction);
        request
    }

    pub fn set_source(&mut self, source: RequestSource)
        ensures
            *final(self) == (IDBRequest { source: Some(source), ..*old(self) }),
    {
        self.source = Some(source);
    }

    pub fn set_ready_state_done(&mut self)
        ensures
            *final(self) == (IDBRequest { ready_state: IDBRequestReadyState::Done, ..*old(self) }),
    {
        self.ready_state = IDBRequestReadyState::Done;
    }

    /// Reopens a completed request, so that it can carry the result of another operation: a cursor
    /// holds one request for its lifetime.
    pub fn set_ready_state_pending(&mut self)
        ensures
            *final(self) == (IDBRequest { ready_state: IDBRequestReadyState::Pending, ..*old(self) }),
    {
        self.ready_state = IDBRequestReadyState::Pending;
    }

    pub fn set_result(&mut self, result: JsAnswer)
        ensures
            *final(self) == (IDBRequest { result, ..*old(self) }),
    {
        self.result = result;
    }

    /// Sets or clears the error. `created` says whether an exception object could be made for it;
    /// where none could, the error stays as it was.
    pub fn set_error(&mut self, error: Option<Error>, created: bool)
        ensures
            *final(self) == if error is Some && !created {
                *old(self)
            } else {
                IDBRequest { error, ..*old(self) }
            },
    {
        match error {
            Some(error) => {
                if created {
                    self.error = Some(error);
                }
            },
            None => {
                self.error = None;
            },
        }
    }

    pub fn set_transaction(&mut self, transaction: u64)
        ensures
            *final(self) == (IDBRequest { transaction: Some(transaction), ..*old(self) }),
    {
        self.transaction = Some(transaction);
    }

    pub fn clear_transaction(&mut self)
        ensures
            *final(self) == (IDBRequest { transaction: None, ..*old(self) }),
    {
        self.transaction = None;
    }

    /// The `result` attribute, which a request that is still pending does not have.
    pub fn get_result(&self) -> (result: Result<JsAnswer, Error>)
        ensures
            self.ready_state == IDBRequestReadyState::Done ==> result == Ok::<JsAnswer, Error>(
                self.result,
            ),
            self.ready_state == IDBRequestReadyState::Pending ==> failed(
                result,
                says(
                    ErrorKind::InvalidState,
                    "Cannot get result on a request that is still pending."@,
                ),
            ),
    {
        if self.ready_state != IDBRequestReadyState::Done {
            return Err(
                Error::says(
                    ErrorKind::InvalidState,
                    "Cannot get result on a request that is still pending.",
                ),
            );
        }
        Ok(self.result)
    }

    /// The `error` attribute, which a request that is still pending does not have.
    pub fn get_error(&self) -> (result: Result<Option<Error>, Error>)
        ensures
            self.ready_state == IDBRequestReadyState::Done ==> result == Ok::<
                Option<Error>,
                Error,
            >(self.error),
            self.ready_state == IDBRequestReadyState::Pending ==> failed(
                result,
                says(
                    ErrorKind::InvalidState,
                    "Cannot get error on a request that is still pending."@,
                ),
            ),
    {
        if self.ready_state != IDBRequestReadyState::Done {
            return Err(
                Error::says(
                    ErrorKind::InvalidState,
                    "Cannot get error on a request that is still pending.",
                ),
            );
        }
        match &self.error {
            Some(error) => Ok(Some(error.clone())),
            None => Ok(None),
        }
    }
}

/// What is made of the records that a read answers with. A cursor's iteration and the `getAll`
/// family read the same records; this is what tells them apart.
#[derive(Debug)]
pub enum RecordsParam {
    /// Moves a cursor, by the number of its handle, onto the record that the iteration selects.
    Cursor { cursor: u64, param: IterationParam },
    /// Answers with a projection of the records.
    GetAll { kind: GetAllKind, direction: IDBCursorDirection, count: Option<u32> },
    /// Extracts an index's keys from the records, and sends them back out as the write that fills
    /// the index. Script does not see this request.
    IndexBackfill {
        store_name: String,
        index_name: String,
        key_path: KeyPath,
        multi_entry: bool,
    },
}

/// Whether the transaction's hold on outgoing messages may delay a request.
#[derive(Clone, Copy, Debug, PartialEq, Eq, Structural)]
pub enum OutboundHold {
    /// The hold, where it is set, takes this request.
    Respect,
    /// The request that the hold waits for: holding it would stall the transaction on itself.
    Bypass,
}

/// The request object that carries an operation's answer.
#[derive(Clone, Copy, Debug, PartialEq, Eq, Structural)]
pub enum RequestUse {
    /// A request that exists already, by the number of its handle.
    Reuse(u64),
    /// A new request with this source.
    Create(RequestSource),
}

/// What goes out to the storage thread for a request.
#[derive(Debug)]
pub struct AsyncMessage {
    pub origin: String,
    pub db_name: String,
    pub store_name: String,
    pub context: KvsOperationContext,
    pub serial_number: u64,
    pub request_id: u64,
    pub mode: IndexedDBTxnMode,
    pub operation: AsyncOperation,
}

/// A request that is placed: the object that carries its answer, the message, and whether the
/// message may be held back.
#[derive(Debug)]
pub struct PlacedRequest {
    pub request: RequestUse,
    /// The new request, where none was reused.
    pub created: Option<IDBRequest>,
    pub message: AsyncMessage,
    pub records_param: Option<RecordsParam>,
    /// The key of the record that the answer's value belongs to, where the operation says it.
    pub record_key: Option<IndexedDBKeyType>,
    pub hold: OutboundHold,
}

/// The key of the record whose value answers an operation, where the operation says it: a `get` of
/// one key from an object store.
pub open spec fn asked_key(context: KvsOperationContext, operation: AsyncOperation) -> Option<
    Seq<u8>,
> {
    match (context.target, operation) {
        (KvsOperationTarget::ObjectStore, AsyncOperation::GetItem { key_range }) => {
            if key_range@.is_singleton() {
                key_range@.lower
            } else {
                None
            }
        },
        _ => None,
    }
}

/// The key of the record whose value answers an operation, where the operation says it.
fn record_key_of(context: &KvsOperationContext, operation: &AsyncOperation) -> (key: Option<
    IndexedDBKeyType,
>)
    ensures
        option_key(key) == asked_key(*context, *operation),
{
    match (&context.target, operation) {
        (KvsOperationTarget::ObjectStore, AsyncOperation::GetItem { key_range }) => {
            match key_range.as_singleton() {
                Some(key) => Some(key.clone()),
                None => None,
            }
        },
        _ => None,
    }
}

/// What a request reads of its transaction, and of the store that it travels over.
#[derive(Debug)]
pub struct RequestEnvironment {
    pub status: TransactionStatus,
    pub origin: String,
    pub db_name: String,
    pub serial_number: u64,
    /// The transaction's handle.
    pub transaction: u64,
    /// The transaction's request list, in the order in which the requests were placed.
    pub requests: Vec<RequestUse>,
    /// The number that the transaction gives its next request.
    pub next_request_id: u64,
    /// The store's handle.
    pub store: u64,
    pub store_name: String,
}

/// The mode of a transaction as the engine sees it.
pub open spec fn engine_mode(mode: IDBTransactionMode) -> IndexedDBTxnMode {
    match mode {
        IDBTransactionMode::Readonly => IndexedDBTxnMode::Readonly,
        IDBTransactionMode::Readwrite => IndexedDBTxnMode::Readwrite,
        IDBTransactionMode::Versionchange => IndexedDBTxnMode::Versionchange,
    }
}

/// A read of records, and nothing else, says what is made of them.
pub open spec fn paired(operation: AsyncOperation, records_param: Option<RecordsParam>) -> bool {
    operation is Iterate <==> records_param is Some
}

impl RequestEnvironment {
    /// What a request leaves as it is: everything but the next number and the request list.
    pub open spec fn same_transaction(&self, before: RequestEnvironment) -> bool {
        &&& self.status == before.status
        &&& self.origin == before.origin
        &&& self.db_name == before.db_name
        &&& self.serial_number == before.serial_number
        &&& self.transaction == before.transaction
        &&& self.store == before.store
        &&& self.store_name == before.store_name
    }
}

/// The request that was placed is the one that was asked for, and it is the last of the
/// transaction's request list.
pub open spec fn places(
    result: Result<PlacedRequest, Error>,
    before: RequestEnvironment,
    after: RequestEnvironment,
    source: Option<RequestSource>,
    context: KvsOperationContext,
    operation: AsyncOperation,
    request: Option<u64>,
    records_param: Option<RecordsParam>,
    hold: OutboundHold,
) -> bool {
    if !before.status.accepts_requests() {
        failed(result, plain(ErrorKind::TransactionInactive)) && after == before
    } else {
        &&& after.same_transaction(before)
        &&& after.next_request_id == before.next_request_id + 1
        &&& result matches Ok(placed) && {
            &&& after.requests@ == before.requests@.push(placed.request)
            &&& placed.created == match placed.request {
                RequestUse::Reuse(_) => None,
                RequestUse::Create(source) => Some(IDBRequest::fresh(source, before.transaction)),
            }
            &&& option_key(placed.record_key) == asked_key(context, operation)
            &&& placed.request == match request {
                Some(request) => RequestUse::Reuse(request),
                None => RequestUse::Create(
                    match source {
                        Some(source) => source,
                        None => RequestSource::ObjectStore(before.store),
                    },
                ),
            }
            &&& placed.message == (AsyncMessage {
                origin: before.origin,
                db_name: before.db_name,
                store_name: before.store_name,
                context,
                serial_number: before.serial_number,
                request_id: before.next_request_id,
                mode: engine_mode(before.status.mode),
                operation,
            })
            &&& placed.records_param == records_param
            &&& placed.hold == hold
        }
    }
}

fn to_engine_mode(mode: IDBTransactionMode) -> (own: IndexedDBTxnMode)
    ensures
        own == engine_mode(mode),
{
    match mode {
        IDBTransactionMode::Readonly => IndexedDBTxnMode::Readonly,
        IDBTransactionMode::Readwrite => IndexedDBTxnMode::Readwrite,
        IDBTransactionMode::Versionchange => IndexedDBTxnMode::Versionchange,
    }
}

impl IDBRequest {
    fn execute_async_inner(
        environment: &mut RequestEnvironment,
        source: Option<RequestSource>,
        context: KvsOperationContext,
        operation: AsyncOperation,
        request: Option<u64>,
        records_param: Option<RecordsParam>,
        hold: OutboundHold,
    ) -> (result: Result<PlacedRequest, Error>)
        requires
            paired(operation, records_param),
            old(environment).next_request_id < u64::MAX,
        ensures
            places(
                result,
                *old(environment),
                *final(environment),
                source,
                context,
                operation,
                request,
                records_param,
                hold,
            ),
    {
        match environment.status.check_transaction_active() {
            Err(error) => return Err(error),
            Ok(()) => {},
        }
        let request_id: u64 = environment.next_request_id;
        environment.next_request_id = request_id + 1;
        let request = match request {
            Some(request) => RequestUse::Reuse(request),
            None => RequestUse::Create(
                match source {
                    Some(source) => source,
                    None => RequestSource::ObjectStore(environment.store),
                },
            ),
        };
        environment.requests.push(request);
        let created = match request {
            RequestUse::Reuse(_) => None,
            RequestUse::Create(source) => Some(IDBRequest::new(source, environment.transaction)),
        };
        let record_key = record_key_of(&context, &operation);
        let message = AsyncMessage {
            origin: environment.origin.clone(),
            db_name: environment.db_name.clone(),
            store_name: environment.store_name.clone(),
            context,
            serial_number: environment.serial_number,
            request_id,
            mode: to_engine_mode(environment.status.mode),
            operation,
        };
        Ok(PlacedRequest { request, created, message, records_param, record_key, hold })
    }

    /// Places a request on an object store.
    pub fn execute_async(
        environment: &mut RequestEnvironment,
        operation: AsyncOperation,
        request: Option<u64>,
        records_param: Option<RecordsParam>,
    ) -> (result: Result<PlacedRequest, Error>)
        requires
            paired(operation, records_param),
            old(environment).next_request_id < u64::MAX,
        ensures
            exists|context: KvsOperationContext|
                addresses_store(context) && #[trigger] places(
                    result,
                    *old(environment),
                    *final(environment),
                    None,
                    context,
                    operation,
                    request,
                    records_param,
                    OutboundHold::Respect,
                ),
    {
        Self::execute_async_with_context(
            environment,
            KvsOperationContext::default(),
            operation,
            request,
            records_param,
        )
    }

    /// Places a request whose source is not the object store that it travels over.
    pub fn execute_async_from_source(
        environment: &mut RequestEnvironment,
        source: RequestSource,
        context: KvsOperationContext,
        operation: AsyncOperation,
        request: Option<u64>,
        records_param: Option<RecordsParam>,
    ) -> (result: Result<PlacedRequest, Error>)
        requires
            paired(operation, records_param),
            old(environment).next_request_id < u64::MAX,
        ensures
            places(
                result,
                *old(environment),
                *final(environment),
                Some(source),
                context,
                operation,
                request,
                records_param,
                OutboundHold::Respect,
            ),
    {
        Self::execute_async_inner(
            environment,
            Some(source),
            context,
            operation,
            request,
            records_param,
            OutboundHold::Respect,
        )
    }

    /// Places a request on an object store, naming which of the store's surfaces it addresses.
    pub fn execute_async_with_context(
        environment: &mut RequestEnvironment,
        context: KvsOperationContext,
        operation: AsyncOperation,
        request: Option<u64>,
        records_param: Option<RecordsParam>,
    ) -> (result: Result<PlacedRequest, Error>)
        requires
            paired(operation, records_param),
            old(environment).next_request_id < u64::MAX,
        ensures
            places(
                result,
                *old(environment),
                *final(environment),
                None,
                context,
                operation,
                request,
                records_param,
                OutboundHold::Respect,
            ),
    {
        Self::execute_async_inner(
            environment,
            None,
            context,
            operation,
            request,
            records_param,
            OutboundHold::Respect,
        )
    }

    /// Places a request that the transaction's hold must not delay: the read and the write of a
    /// new index's backfill, which the hold exists for.
    pub fn execute_async_bypassing_hold(
        environment: &mut RequestEnvironment,
        operation: AsyncOperation,
        records_param: Option<RecordsParam>,
    ) -> (result: Result<PlacedRequest, Error>)
        requires
            paired(operation, records_param),
            old(environment).next_request_id < u64::MAX,
        ensures
            exists|context: KvsOperationContext|
                addresses_store(context) && #[trigger] places(
                    result,
                    *old(environment),
                    *final(environment),
                    None,
                    context,
                    operation,
                    None,
                    records_param,
                    OutboundHold::Bypass,
                ),
    {
        Self::execute_async_inner(
            environment,
            None,
            KvsOperationContext::default(),
            operation,
            None,
            records_param,
            OutboundHold::Bypass,
        )
    }
}

/// What the engine answered, whatever the operation was.
#[derive(Debug)]
pub enum IdbResult {
    Key(IndexedDBKeyType),
    Keys(Vec<IndexedDBKeyType>),
    Value(Vec<u8>),
    Values(Vec<Vec<u8>>),
    Count(u64),
    /// The records that a range covers. What is made of them the request's parameter says.
    Records(Vec<IndexedDBRecord>),
    Error(Error),
    /// There is nothing to answer with.
    Empty,
}

impl From<IndexedDBKeyType> for IdbResult {
    fn from(value: IndexedDBKeyType) -> (result: Self) {
        IdbResult::Key(value)
    }
}

impl vstd::std_specs::convert::FromSpecImpl<IndexedDBKeyType> for IdbResult {
    open spec fn obeys_from_spec() -> bool {
        true
    }

    open spec fn from_spec(value: IndexedDBKeyType) -> Self {
        IdbResult::Key(value)
    }
}

impl From<Vec<IndexedDBKeyType>> for IdbResult {
    fn from(value: Vec<IndexedDBKeyType>) -> (result: Self) {
        IdbResult::Keys(value)
    }
}

impl vstd::std_specs::convert::FromSpecImpl<Vec<IndexedDBKeyType>> for IdbResult {
    open spec fn obeys_from_spec() -> bool {
        true
    }

    open spec fn from_spec(value: Vec<IndexedDBKeyType>) -> Self {
        IdbResult::Keys(value)
    }
}

impl From<Vec<u8>> for IdbResult {
    fn from(value: Vec<u8>) -> (result: Self) {
        IdbResult::Value(value)
    }
}

impl vstd::std_specs::convert::FromSpecImpl<Vec<u8>> for IdbResult {
    open spec fn obeys_from_spec() -> bool {
        true
    }

    open spec fn from_spec(value: Vec<u8>) -> Self {
        IdbResult::Value(value)
    }
}

impl From<Vec<Vec<u8>>> for IdbResult {
    fn from(value: Vec<Vec<u8>>) -> (result: Self) {
        IdbResult::Values(value)
    }
}

impl vstd::std_specs::convert::FromSpecImpl<Vec<Vec<u8>>> for IdbResult {
    open spec fn obeys_from_spec() -> bool {
        true
    }

    open spec fn from_spec(value: Vec<Vec<u8>>) -> Self {
        IdbResult::Values(value)
    }
}

impl From<Vec<IndexedDBRecord>> for IdbResult {
    fn from(value: Vec<IndexedDBRecord>) -> (result: Self) {
        IdbResult::Records(value)
    }
}

impl vstd::std_specs::convert::FromSpecImpl<Vec<IndexedDBRecord>> for IdbResult {
    open spec fn obeys_from_spec() -> bool {
        true
    }

    open spec fn from_spec(value: Vec<IndexedDBRecord>) -> Self {
        IdbResult::Records(value)
    }
}

impl From<u64> for IdbResult {
    fn from(value: u64) -> (result: Self) {
        IdbResult::Count(value)
    }
}

impl vstd::std_specs::convert::FromSpecImpl<u64> for IdbResult {
    open spec fn obeys_from_spec() -> bool {
        true
    }

    open spec fn from_spec(value: u64) -> Self {
        IdbResult::Count(value)
    }
}

impl From<()> for IdbResult {
    fn from(value: ()) -> (result: Self) {
        IdbResult::Empty
    }
}

impl vstd::std_specs::convert::FromSpecImpl<()> for IdbResult {
    open spec fn obeys_from_spec() -> bool {
        true
    }

    open spec fn from_spec(value: ()) -> Self {
        IdbResult::Empty
    }
}

/// The message of a refusal by a unique index.
pub open spec fn unique_index_message(index_name: Seq<char>) -> Seq<char> {
    "Unique index \""@ + index_name + "\" already holds that key"@
}

impl IdbResult {
    /// What a `put` is answered with.
    pub fn from_put(value: PutItemResult) -> (result: Self)
        ensures
            match value {
                PutItemResult::Key(key) => result == IdbResult::Key(key),
                PutItemResult::CannotOverwrite
                | PutItemResult::KeyGeneratorExhausted => result matches IdbResult::Error(error)
                    && error@ == plain(ErrorKind::Constraint),
                PutItemResult::IndexConstraintViolated(index_name) => {
                    result matches IdbResult::Error(error) && error@ == says(
                        ErrorKind::Constraint,
                        unique_index_message(index_name@),
                    )
                },
            },
    {
        match value {
            PutItemResult::Key(key) => IdbResult::Key(key),
            PutItemResult::CannotOverwrite | PutItemResult::KeyGeneratorExhausted => {
                IdbResult::Error(Error::plain(ErrorKind::Constraint))
            },
            PutItemResult::IndexConstraintViolated(index_name) => {
                let mut message = "Unique index \"".to_owned();
                message.append(index_name.as_str());
                message.append("\" already holds that key");
                IdbResult::Error(Error { kind: ErrorKind::Constraint, message: Some(message) })
            },
        }
    }

    /// What filling a new index is answered with. An error here aborts the upgrade: no script sees
    /// the request, so none can prevent it.
    pub fn from_backfill(value: BackfillIndexResult) -> (result: Self)
        ensures
            match value {
                BackfillIndexResult::Done => result is Empty,
                BackfillIndexResult::UniqueConstraintViolated => result matches IdbResult::Error(
                    error,
                ) && error@ == says(
                    ErrorKind::Constraint,
                    "A unique index cannot be created over records that already share a key"@,
                ),
            },
    {
        match value {
            BackfillIndexResult::Done => IdbResult::Empty,
            BackfillIndexResult::UniqueConstraintViolated => IdbResult::Error(
                Error::says(
                    ErrorKind::Constraint,
                    "A unique index cannot be created over records that already share a key",
                ),
            ),
        }
    }

    /// What a read of one value is answered with.
    pub fn from_value(value: Option<Vec<u8>>) -> (result: Self)
        ensures
            result == match value {
                Some(value) => IdbResult::Value(value),
                None => IdbResult::Empty,
            },
    {
        match value {
            Some(value) => IdbResult::from(value),
            None => IdbResult::Empty,
        }
    }

    /// What a read of one key is answered with.
    pub fn from_key(key: Option<IndexedDBKeyType>) -> (result: Self)
        ensures
            result == match key {
                Some(key) => IdbResult::Key(key),
                None => IdbResult::Empty,
            },
    {
        match key {
            Some(key) => IdbResult::from(key),
            None => IdbResult::Empty,
        }
    }
}

/// How an answer becomes the request's result.
#[derive(Debug)]
pub enum Conversion {
    /// The key is converted to a value.
    Key(IndexedDBKeyType),
    /// The keys are converted to an array.
    Keys(Vec<IndexedDBKeyType>),
    /// The bytes are read back into a value. `key` is the key of the record that they belong to:
    /// the answer to a `get` holds no key, so there it is known only where the request named one.
    Value { value: Vec<u8>, key: Option<IndexedDBKeyType> },
    /// The byte strings are read back into an array.
    Values(Vec<Vec<u8>>),
    Count(u64),
    /// The cursor is moved; it is the result, or null where no record is left. The value of the
    /// record that it moves onto is made as an element of `GetAllKind::Values` is.
    Cursor { cursor: u64, param: IterationParam, records: Vec<IndexedDBRecord> },
    /// The key, the primary key and the value of the record become the members of one object.
    Record(IndexedDBRecord),
    /// These records, each by its `GetAllKind::element`, become an array.
    GetAll { kind: GetAllKind, records: Vec<IndexedDBRecord> },
    /// The index keys of the records go out as the write that fills the index. Each record's value
    /// is made as an element of `GetAllKind::Values` is, so that an index on the store's key path
    /// finds the key. The transaction is
    /// made active for it where it is inactive; what it holds back goes out after it.
    Backfill {
        store: u64,
        store_name: String,
        index_name: String,
        key_path: KeyPath,
        multi_entry: bool,
        records: Vec<IndexedDBRecord>,
    },
    /// A backfill that no store asked for: what the transaction holds back is discarded, and the
    /// request fails.
    AbandonBackfill(Error),
    /// The result is undefined.
    Nothing,
    /// The request fails.
    Fail(Error),
}

/// How a record becomes an element of the result of a `getAll` of this kind.
pub open spec fn element_of(kind: GetAllKind, record: IndexedDBRecord) -> Conversion {
    match kind {
        GetAllKind::Values => Conversion::Value {
            value: record.value,
            key: Some(record.primary_key),
        },
        GetAllKind::PrimaryKeys => Conversion::Key(record.primary_key),
        GetAllKind::Records => Conversion::Record(record),
    }
}

impl GetAllKind {
    /// How a record becomes an element of the result.
    pub fn element(self, record: IndexedDBRecord) -> (conversion: Conversion)
        ensures
            conversion == element_of(self, record),
    {
        match self {
            GetAllKind::Values => Conversion::Value {
                value: record.value,
                key: Some(record.primary_key),
            },
            GetAllKind::PrimaryKeys => Conversion::Key(record.primary_key),
            GetAllKind::Records => Conversion::Record(record),
        }
    }
}

/// The conversion that an answer calls for.
pub open spec fn calls_for(
    result: Result<IdbResult, BackendError>,
    records_param: Option<RecordsParam>,
    record_key: Option<IndexedDBKeyType>,
    source: Option<RequestSource>,
    conversion: Conversion,
) -> bool {
    match result {
        Err(_) => conversion matches Conversion::Fail(error) && error@ == plain(ErrorKind::Data),
        Ok(data) => match data {
            IdbResult::Key(key) => conversion == Conversion::Key(key),
            IdbResult::Keys(keys) => conversion == Conversion::Keys(keys),
            IdbResult::Value(value) => conversion == (Conversion::Value { value, key: record_key }),
            IdbResult::Values(values) => conversion == Conversion::Values(values),
            IdbResult::Count(count) => conversion == Conversion::Count(count),
            IdbResult::Empty => conversion is Nothing,
            IdbResult::Error(error) => conversion == Conversion::Fail(error),
            IdbResult::Records(records) => match records_param {
                Some(RecordsParam::Cursor { cursor, param }) => conversion == (Conversion::Cursor {
                    cursor,
                    param,
                    records,
                }),
                Some(RecordsParam::GetAll { kind, direction, count }) => {
                    conversion matches Conversion::GetAll { kind: own, records: answer } && own
                        == kind && records_view(answer@) == projected(
                        direction,
                        count,
                        records_view(records@),
                    )
                },
                Some(
                    RecordsParam::IndexBackfill { store_name, index_name, key_path, multi_entry },
                ) => match source {
                    Some(RequestSource::ObjectStore(store)) => conversion
                        == (Conversion::Backfill {
                        store,
                        store_name,
                        index_name,
                        key_path,
                        multi_entry,
                        records,
                    }),
                    _ => conversion matches Conversion::AbandonBackfill(error) && error@ == plain(
                        ErrorKind::InvalidState,
                    ),
                },
                None => conversion matches Conversion::Fail(error) && error@ == plain(
                    ErrorKind::InvalidState,
                ),
            },
        },
    }
}

/// The event that a request fires.
#[derive(Clone, Copy, Debug, PartialEq, Eq, Structural)]
pub struct RequestEvent {
    pub is_error: bool,
    pub bubbles: bool,
    pub cancelable: bool,
}

/// What is done with the transaction of a request.
#[derive(Debug)]
pub enum TransactionAction {
    /// The transaction becomes active where it is inactive.
    Activate,
    /// What the transaction holds back is dropped.
    DiscardHeldOutbound,
    /// What is placed from now on is held back until the backfill has been sent.
    HoldOutboundAfterBackfill,
    /// What the transaction holds back goes out, up to the next backfill.
    ResumeAfterBackfill,
    SetInactive,
    /// Aborts the transaction with this error.
    Abort(Error),
    /// Tells the engine of the abort.
    RequestBackendAbort,
    /// One request fewer is outstanding.
    RequestFinished,
    /// Tells the engine that script has handled the request.
    SendRequestHandled(u64),
    MarkRequestHandled(u64),
    /// Commits the transaction where it is ready to.
    MaybeCommit,
}

/// What an action is.
pub enum ActionView {
    Activate,
    DiscardHeldOutbound,
    HoldOutboundAfterBackfill,
    ResumeAfterBackfill,
    SetInactive,
    Abort(ErrorView),
    RequestBackendAbort,
    RequestFinished,
    SendRequestHandled(u64),
    MarkRequestHandled(u64),
    MaybeCommit,
}

impl View for TransactionAction {
    type V = ActionView;

    open spec fn view(&self) -> ActionView {
        match self {
            TransactionAction::Activate => ActionView::Activate,
            TransactionAction::DiscardHeldOutbound => ActionView::DiscardHeldOutbound,
            TransactionAction::HoldOutboundAfterBackfill => ActionView::HoldOutboundAfterBackfill,
            TransactionAction::ResumeAfterBackfill => ActionView::ResumeAfterBackfill,
            TransactionAction::SetInactive => ActionView::SetInactive,
            TransactionAction::Abort(error) => ActionView::Abort(error@),
            TransactionAction::RequestBackendAbort => ActionView::RequestBackendAbort,
            TransactionAction::RequestFinished => ActionView::RequestFinished,
            TransactionAction::SendRequestHandled(id) => ActionView::SendRequestHandled(*id),
            TransactionAction::MarkRequestHandled(id) => ActionView::MarkRequestHandled(*id),
            TransactionAction::MaybeCommit => ActionView::MaybeCommit,
        }
    }
}

/// What each of the actions is.
pub open spec fn actions_view(actions: Seq<TransactionAction>) -> Seq<ActionView> {
    actions.map_values(|action: TransactionAction| action@)
}

/// What follows the dispatch of any request's event.
pub open spec fn handled(request_id: u64) -> Seq<ActionView> {
    seq![
        ActionView::RequestFinished,
        ActionView::SendRequestHandled(request_id),
        ActionView::MarkRequestHandled(request_id),
        ActionView::MaybeCommit,
    ]
}

/// What follows the dispatch of a success event: a transaction that is active becomes inactive,
/// and is aborted where a listener threw.
pub open spec fn after_success(active: bool, listeners_threw: bool, request_id: u64) -> Seq<
    ActionView,
> {
    (if !active {
        seq![]
    } else if listeners_threw {
        seq![
            ActionView::SetInactive,
            ActionView::Abort(plain(ErrorKind::Abort)),
            ActionView::RequestBackendAbort,
        ]
    } else {
        seq![ActionView::SetInactive]
    }) + handled(request_id)
}

/// What follows the dispatch of an error event: a transaction that is active becomes inactive. It
/// is aborted with an `AbortError` where a listener threw, and otherwise with the request's error
/// unless a listener prevented it.
pub open spec fn after_error(
    active: bool,
    listeners_threw: bool,
    default_not_prevented: bool,
    error: ErrorView,
    request_id: u64,
) -> Seq<ActionView> {
    (if !active {
        seq![]
    } else if listeners_threw {
        seq![
            ActionView::SetInactive,
            ActionView::Abort(plain(ErrorKind::Abort)),
            ActionView::RequestBackendAbort,
        ]
    } else if default_not_prevented {
        seq![ActionView::SetInactive, ActionView::Abort(error), ActionView::RequestBackendAbort]
    } else {
        seq![ActionView::SetInactive]
    }) + handled(request_id)
}

pub(crate) fn push_action(actions: &mut Vec<TransactionAction>, action: TransactionAction)
    ensures
        actions_view(final(actions)@) == actions_view(old(actions)@).push(action@),
{
    let ghost before = actions@;
    actions.push(action);
    assert(actions_view(actions@) =~= actions_view(before).push(action@));
}

fn push_handled(actions: &mut Vec<TransactionAction>, request_id: u64)
    ensures
        actions_view(final(actions)@) == actions_view(old(actions)@) + handled(request_id),
{
    let ghost before = actions_view(actions@);
    push_action(actions, TransactionAction::RequestFinished);
    push_action(actions, TransactionAction::SendRequestHandled(request_id));
    push_action(actions, TransactionAction::MarkRequestHandled(request_id));
    push_action(actions, TransactionAction::MaybeCommit);
    assert(actions_view(actions@) =~= before + handled(request_id));
}

/// A request that waits for its answer.
#[derive(Debug)]
pub struct RequestListener {
    pub request_id: u64,
    pub records_param: Option<RecordsParam>,
    /// The key of the record that the answer's value belongs to, where the request named one.
    pub record_key: Option<IndexedDBKeyType>,
}

impl RequestListener {
    /// Takes the engine's answer in: the request is done, and this is how the answer becomes its
    /// result.
    pub fn handle_async_request_finished(
        self,
        request: &mut IDBRequest,
        result: Result<IdbResult, BackendError>,
    ) -> (conversion: Conversion)
        ensures
            *final(request) == (IDBRequest {
                ready_state: IDBRequestReadyState::Done,
                ..*old(request)
            }),
            calls_for(
                result,
                self.records_param,
                self.record_key,
                old(request).source,
                conversion,
            ),
    {
        request.set_ready_state_done();
        let data = match result {
            Ok(data) => data,
            Err(_) => return Conversion::Fail(Error::plain(ErrorKind::Data)),
        };
        match data {
            IdbResult::Key(key) => Conversion::Key(key),
            IdbResult::Keys(keys) => Conversion::Keys(keys),
            IdbResult::Value(value) => Conversion::Value { value, key: self.record_key },
            IdbResult::Values(values) => Conversion::Values(values),
            IdbResult::Count(count) => Conversion::Count(count),
            IdbResult::Empty => Conversion::Nothing,
            IdbResult::Error(error) => Conversion::Fail(error),
            IdbResult::Records(records) => match self.records_param {
                Some(RecordsParam::Cursor { cursor, param }) => Conversion::Cursor {
                    cursor,
                    param,
                    records,
                },
                Some(RecordsParam::GetAll { kind, direction, count }) => Conversion::GetAll {
                    kind,
                    records: project_records(direction, count, records),
                },
                Some(
                    RecordsParam::IndexBackfill { store_name, index_name, key_path, multi_entry },
                ) => match request.source {
                    Some(RequestSource::ObjectStore(store)) => Conversion::Backfill {
                        store,
                        store_name,
                        index_name,
                        key_path,
                        multi_entry,
                        records,
                    },
                    _ => Conversion::AbandonBackfill(Error::plain(ErrorKind::InvalidState)),
                },
                None => Conversion::Fail(Error::plain(ErrorKind::InvalidState)),
            },
        }
    }

    /// The request has its result: what it fires.
    pub fn succeed(request: &mut IDBRequest, answer: JsAnswer) -> (event: RequestEvent)
        ensures
            *final(request) == (IDBRequest { result: answer, error: None, ..*old(request) }),
            event == (RequestEvent { is_error: false, bubbles: false, cancelable: false }),
    {
        request.set_result(answer);
        request.set_error(None, true);
        RequestEvent { is_error: false, bubbles: false, cancelable: false }
    }

    /// The request has failed: what it fires, and whether the transaction is aborted with the
    /// error before that, which it is where it is committing. `created` says whether an exception
    /// object could be made for the error.
    pub fn handle_async_request_error(
        request: &mut IDBRequest,
        error: &Error,
        created: bool,
        committing: bool,
    ) -> (outcome: (RequestEvent, bool))
        ensures
            final(request).result == JsAnswer::Undefined,
            final(request).error == if created {
                Some(*error)
            } else {
                old(request).error
            },
            final(request).source == old(request).source,
            final(request).transaction == old(request).transaction,
            final(request).ready_state == old(request).ready_state,
            outcome.0 == (RequestEvent { is_error: true, bubbles: true, cancelable: true }),
            outcome.1 == committing,
    {
        request.set_result(JsAnswer::Undefined);
        request.set_error(Some(error.clone()), created);
        (RequestEvent { is_error: true, bubbles: true, cancelable: true }, committing)
    }

    /// What follows the dispatch of the request's success event.
    pub fn after_success(active: bool, listeners_threw: bool, request_id: u64) -> (actions: Vec<
        TransactionAction,
    >)
        ensures
            actions_view(actions@) == after_success(active, listeners_threw, request_id),
    {
        let mut actions: Vec<TransactionAction> = Vec::new();
        if active {
            push_action(&mut actions, TransactionAction::SetInactive);
            if listeners_threw {
                push_action(
                    &mut actions,
                    TransactionAction::Abort(Error::plain(ErrorKind::Abort)),
                );
                push_action(&mut actions, TransactionAction::RequestBackendAbort);
            }
        }
        push_handled(&mut actions, request_id);
        assert(actions_view(actions@) =~= after_success(active, listeners_threw, request_id));
        actions
    }

    /// What follows the dispatch of the request's error event.
    pub fn after_error(
        active: bool,
        listeners_threw: bool,
        default_not_prevented: bool,
        error: &Error,
        request_id: u64,
    ) -> (actions: Vec<TransactionAction>)
        ensures
            actions_view(actions@) == after_error(
                active,
                listeners_threw,
                default_not_prevented,
                error@,
                request_id,
            ),
    {
        let mut actions: Vec<TransactionAction> = Vec::new();
        if active {
            push_action(&mut actions, TransactionAction::SetInactive);
            if listeners_threw {
                push_action(
                    &mut actions,
                    TransactionAction::Abort(Error::plain(ErrorKind::Abort)),
                );
                push_action(&mut actions, TransactionAction::RequestBackendAbort);
            } else if default_not_prevented {
                push_action(&mut actions, TransactionAction::Abort(error.clone()));
                push_action(&mut actions, TransactionAction::RequestBackendAbort);
            }
        }
        push_handled(&mut actions, request_id);
        assert(actions_view(actions@) =~= after_error(
            active,
            listeners_threw,
            default_not_prevented,
            error@,
            request_id,
        ));
        actions
    }
}

/// Whatever listeners do, the engine hears exactly once that a request has been handled, as the
/// last but two of what follows the event.
pub proof fn every_request_is_reported_handled(
    active: bool,
    threw: bool,
    not_prevented: bool,
    error: ErrorView,
    request_id: u64,
)
    ensures
        ({
            let success = after_success(active, threw, request_id);
            let failure = after_error(active, threw, not_prevented, error, request_id);
            &&& success[success.len() - 3] == ActionView::SendRequestHandled(request_id)
            &&& failure[failure.len() - 3] == ActionView::SendRequestHandled(request_id)
            &&& forall|i: int|
                0 <= i < success.len() && i != success.len() - 3 ==> !(
                #[trigger] success[i] is SendRequestHandled)
            &&& forall|i: int|
                0 <= i < failure.len() && i != failure.len() - 3 ==> !(
                #[trigger] failure[i] is SendRequestHandled)
        }),
{
}

/// A success event aborts the transaction only where a listener threw, and an error event aborts
/// an active transaction unless a listener prevented it without throwing.
pub proof fn when_a_request_aborts(
    active: bool,
    threw: bool,
    not_prevented: bool,
    error: ErrorView,
    request_id: u64,
)
    ensures
        after_success(active, threw, request_id).contains(ActionView::RequestBackendAbort) <==> (
        active && threw),
        after_error(active, threw, not_prevented, error, request_id).contains(
            ActionView::RequestBackendAbort,
        ) <==> (active && (threw || not_prevented)),
{
    let success = after_success(active, threw, request_id);
    let failure = after_error(active, threw, not_prevented, error, request_id);
    if active && threw {
        assert(success[2] == ActionView::RequestBackendAbort);
        assert(failure[2] == ActionView::RequestBackendAbort);
    } else if active && not_prevented {
        assert(failure[2] == ActionView::RequestBackendAbort);
    }
}

} // verus!
