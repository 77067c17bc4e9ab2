//! The IndexedDB objects that script sees.

use weblayer::error::{Error, ErrorKind};
use weblayer::indexeddb::cursor::{
    iterate_cursor, IDBCursor, IDBCursorDirection, IterationParam, KeyAnswer, ObjectStoreOrIndex,
    SourceStatus,
};
use weblayer::indexeddb::delivery::{
    cursor_answer, plain_answer, ConversionOutcome, Delivery, DeliveryNext, Dispatched, FailureContext,
};
use weblayer::indexeddb::engine::dispatch::AsyncOperation;
use weblayer::indexeddb::engine::model::{BackendError, BackfillIndexResult, PutItemResult};
use weblayer::indexeddb::get_all::{project_records, GetAllKind, GetAllRequest};
use weblayer::indexeddb::index::IDBIndex;
use weblayer::indexeddb::key::{IndexedDBKeyRange, IndexedDBKeyType, KeyOrder};
use weblayer::indexeddb::key_path::{Extraction, KeyPath, StoredKeyPath};
use weblayer::indexeddb::object_store::{
    extract_index_updates, finish_index_backfill, IDBObjectStore,
    IDBObjectStoreParameters, IndexMetadata, IndexOutcome, IndexSnapshot, Injection, PutKey,
    ReachStep, RecordKeyReach, Renaming, SchemaChange,
};
use weblayer::indexeddb::operation::{KvsOperationContext, KvsOperationTarget};
use weblayer::indexeddb::put_request::{PutAnswer, PutRequest, PutStep, StoredRecord};
use weblayer::indexeddb::read_back::{
    cursor_value, read_of, ReadBack, ReadBackAnswer, ReadBackStep,
};
use weblayer::indexeddb::record::{IndexedDBRecord, RecordsShape};
use weblayer::indexeddb::request::{
    Conversion, IDBRequest, IDBRequestReadyState, IdbResult, JsAnswer, OutboundHold,
    PlacedRequest, RecordsParam, RequestEnvironment, RequestListener, RequestSource, RequestUse,
    TransactionAction,
};
use weblayer::indexeddb::store_requests;
use weblayer::indexeddb::transaction::{IDBTransactionMode, TransactionState, TransactionStatus};

fn key(byte: u8) -> IndexedDBKeyType {
    IndexedDBKeyType { encoded: vec![byte] }
}

fn record(own: u8, primary: u8) -> IndexedDBRecord {
    IndexedDBRecord { key: key(own), primary_key: key(primary), value: vec![own, primary] }
}

/// Records of an index, in order: two of them have the key 2.
fn index_records() -> Vec<IndexedDBRecord> {
    vec![record(1, 9), record(2, 3), record(2, 7), record(4, 1)]
}

fn cursor(direction: IDBCursorDirection) -> IDBCursor {
    let mut cursor = IDBCursor::new_inherited(
        direction,
        true,
        ObjectStoreOrIndex::Index,
        IndexedDBKeyRange::default(),
        false,
    );
    cursor.set_request(70);
    cursor
}

fn step(cursor: &mut IDBCursor, records: &Vec<IndexedDBRecord>) -> Option<usize> {
    let param = IterationParam { key: None, primary_key: None, count: None };
    let found = iterate_cursor(cursor, &param, records).unwrap();
    if found.is_some() {
        cursor.finish_iteration(Ok(1)).unwrap();
    }
    found
}

fn walk(direction: IDBCursorDirection) -> Vec<usize> {
    let records = index_records();
    let mut cursor = cursor(direction);
    let mut visited = Vec::new();
    while let Some(place) = step(&mut cursor, &records) {
        visited.push(place);
    }
    visited
}

fn status(mode: IDBTransactionMode) -> TransactionStatus {
    TransactionStatus { mode, active: true, usable: true, finished: false }
}

fn readwrite() -> TransactionStatus {
    status(IDBTransactionMode::Readwrite)
}

fn upgrade() -> TransactionStatus {
    status(IDBTransactionMode::Versionchange)
}

const HERE: SourceStatus = SourceStatus { store_exists: true, index_exists: true };

fn kind<T>(result: Result<T, Error>) -> ErrorKind {
    match result {
        Ok(_) => panic!("expected an error"),
        Err(error) => error.kind,
    }
}

#[test]
fn keys_are_ordered_byte_by_byte() {
    let long = IndexedDBKeyType { encoded: vec![1, 0] };
    assert_eq!(key(1).order(&key(2)), KeyOrder::Less);
    assert_eq!(key(2).order(&key(1)), KeyOrder::Greater);
    assert_eq!(key(1).order(&key(1)), KeyOrder::Equal);
    assert!(key(1).before(&long) && long.before(&key(2)));
    assert!(key(1).at_or_before(&key(1)) && !key(1).before(&key(1)));
    assert!(key(3).same(&key(3)) && !key(3).same(&long));
}

#[test]
fn a_range_covers_what_lies_between_its_bounds() {
    let range = IndexedDBKeyRange::new(Some(key(2)), Some(key(5)), true, false);
    let covered: Vec<u8> = (0..9).filter(|byte| range.contains(&key(*byte))).collect();
    assert_eq!(covered, vec![3, 4, 5]);
    assert!(range.as_singleton().is_none());
    let only = IndexedDBKeyRange::only(key(4));
    assert!(only.as_singleton().is_some());
    assert!(only.contains(&key(4)) && !only.contains(&key(3)));
    assert!(IndexedDBKeyRange::lower_bound(key(3), true).contains(&key(4)));
    assert!(!IndexedDBKeyRange::lower_bound(key(3), true).contains(&key(3)));
    assert!(IndexedDBKeyRange::default().contains(&key(0)));
}

#[test]
fn a_cursor_walks_in_its_direction() {
    assert_eq!(walk(IDBCursorDirection::Next), vec![0, 1, 2, 3]);
    assert_eq!(walk(IDBCursorDirection::Prev), vec![3, 2, 1, 0]);
    assert_eq!(walk(IDBCursorDirection::Nextunique), vec![0, 1, 3]);
    assert_eq!(walk(IDBCursorDirection::Prevunique), vec![3, 1, 0]);
}

#[test]
fn a_cursor_goes_to_the_key_that_it_is_given() {
    let records = index_records();
    let mut forward = cursor(IDBCursorDirection::Next);
    assert_eq!(step(&mut forward, &records), Some(0));
    let iteration = forward.continue_to(&"by_size".to_owned(), Some(key(3))).unwrap();
    assert_eq!(iteration.request, 70);
    assert!(!forward.got_value);
    let found = iterate_cursor(&mut forward, &iteration.param, &records).unwrap();
    assert_eq!(found, Some(3));
    forward.finish_iteration(Ok(5)).unwrap();
    assert_eq!(forward.value, Some(5));
    let refused = forward.continue_to(&"by_size".to_owned(), Some(key(4)));
    assert_eq!(kind(refused), ErrorKind::Data);

    let mut primary = cursor(IDBCursorDirection::Next);
    assert_eq!(step(&mut primary, &records), Some(0));
    let iteration =
        primary.continue_primary_key(&"by_size".to_owned(), key(2), key(5)).unwrap();
    assert_eq!(iterate_cursor(&mut primary, &iteration.param, &records).unwrap(), Some(2));
    primary.finish_iteration(Ok(5)).unwrap();
    let refused = primary.continue_primary_key(&"by_size".to_owned(), key(2), key(7));
    assert_eq!(kind(refused), ErrorKind::Data);
}

#[test]
fn a_cursor_advances_by_several_records() {
    let records = index_records();
    let mut cursor = cursor(IDBCursorDirection::Next);
    assert_eq!(step(&mut cursor, &records), Some(0));
    let index = "by_size".to_owned();
    assert_eq!(kind(cursor.advance(&readwrite(), &HERE, &index, 0)), ErrorKind::Type);
    let iteration = cursor.advance(&readwrite(), &HERE, &index, 2).unwrap();
    assert_eq!(iteration.param.count, Some(2));
    assert!(matches!(
        iteration.context.target,
        KvsOperationTarget::Index { name } if name == "by_size"
    ));
    assert_eq!(iterate_cursor(&mut cursor, &iteration.param, &records).unwrap(), Some(2));
    // The answer is not in yet.
    let refused = cursor.advance(&readwrite(), &HERE, &index, 1);
    assert_eq!(kind(refused), ErrorKind::InvalidState);
    cursor.finish_iteration(Ok(1)).unwrap();
    let iteration = cursor.advance(&readwrite(), &HERE, &index, 5).unwrap();
    assert_eq!(iterate_cursor(&mut cursor, &iteration.param, &records).unwrap(), None);
}

#[test]
fn a_cursor_writes_under_its_effective_key() {
    let records = index_records();
    let mut cursor = cursor(IDBCursorDirection::Next);
    assert_eq!(step(&mut cursor, &records), Some(0));
    assert_eq!(cursor.update(&readwrite(), &HERE).unwrap().encoded, vec![9]);
    let range = cursor.delete(&readwrite(), &HERE).unwrap();
    assert!(range.contains(&key(9)) && !range.contains(&key(1)));
    assert!(matches!(cursor.get_key(), KeyAnswer::Convert(Some(own)) if own.encoded == vec![1]));
    assert!(
        matches!(cursor.get_primary_key(), KeyAnswer::Convert(Some(own)) if own.encoded == vec![9])
    );
    cursor.keep_key(33);
    cursor.keep_primary_key(44);
    assert!(matches!(cursor.get_key(), KeyAnswer::Cached(33)));
    assert!(matches!(cursor.get_primary_key(), KeyAnswer::Cached(44)));
    assert_eq!(cursor.get_request().unwrap(), 70);

    let readonly = status(IDBTransactionMode::Readonly);
    assert_eq!(kind(cursor.update(&readonly, &HERE)), ErrorKind::ReadOnly);
    let inactive = TransactionStatus { active: false, ..readwrite() };
    assert_eq!(kind(cursor.delete(&inactive, &HERE)), ErrorKind::TransactionInactive);
    let gone = SourceStatus { index_exists: false, ..HERE };
    assert_eq!(kind(cursor.update(&readwrite(), &gone)), ErrorKind::InvalidState);
    cursor.key_only = true;
    assert_eq!(kind(cursor.update(&readwrite(), &HERE)), ErrorKind::InvalidState);
}

#[test]
fn continuing_by_primary_key_needs_an_ordered_index_cursor() {
    let unique = cursor(IDBCursorDirection::Nextunique);
    let refused = unique.check_continue_primary_key(&readwrite(), &HERE);
    assert_eq!(kind(refused), ErrorKind::InvalidAccess);
    let mut on_store = cursor(IDBCursorDirection::Next);
    on_store.source = ObjectStoreOrIndex::ObjectStore;
    let refused = on_store.check_continue_primary_key(&readwrite(), &HERE);
    assert_eq!(kind(refused), ErrorKind::InvalidAccess);
    let fine = cursor(IDBCursorDirection::Prev);
    assert!(fine.check_continue_primary_key(&readwrite(), &HERE).is_ok());
}

fn primary_keys(records: Vec<IndexedDBRecord>) -> Vec<u8> {
    records.into_iter().map(|record| record.primary_key.encoded[0]).collect()
}

#[test]
fn all_records_are_projected_in_a_direction() {
    let project =
        |direction, count| primary_keys(project_records(direction, count, index_records()));
    assert_eq!(project(IDBCursorDirection::Next, None), vec![9, 3, 7, 1]);
    assert_eq!(project(IDBCursorDirection::Prev, None), vec![1, 7, 3, 9]);
    assert_eq!(project(IDBCursorDirection::Nextunique, None), vec![9, 3, 1]);
    assert_eq!(project(IDBCursorDirection::Prevunique, None), vec![1, 3, 9]);
    assert_eq!(project(IDBCursorDirection::Prev, Some(2)), vec![1, 7]);
    assert!(project(IDBCursorDirection::Next, Some(0)).is_empty());
}

#[test]
fn a_count_is_pushed_down_where_the_order_is_the_engines() {
    let request = |direction, count| {
        GetAllRequest::new(GetAllKind::Values, IndexedDBKeyRange::default(), direction, count)
    };
    let next = request(IDBCursorDirection::Next, Some(3));
    assert_eq!(next.count, Some(3));
    let prev = request(IDBCursorDirection::Prev, Some(3));
    assert_eq!((prev.count, prev.answer_count), (None, Some(3)));
    assert_eq!(GetAllKind::PrimaryKeys.shape(), RecordsShape::KeysOnly);
    assert_eq!(GetAllKind::Records.shape(), RecordsShape::WithValues);
}

#[test]
fn a_request_answers_once_it_is_done() {
    let mut request = IDBRequest::new_inherited();
    assert_eq!(kind(request.get_result()), ErrorKind::InvalidState);
    assert_eq!(kind(request.get_error()), ErrorKind::InvalidState);
    request.set_source(RequestSource::ObjectStore(1));
    request.set_transaction(2);
    request.set_result(JsAnswer::Number(3));
    request.set_ready_state_done();
    assert_eq!(request.get_result().unwrap(), JsAnswer::Number(3));
    assert!(request.get_error().unwrap().is_none());
    request.set_error(Some(Error::plain(ErrorKind::Data)), true);
    assert_eq!(request.get_error().unwrap().unwrap().kind, ErrorKind::Data);
    request.clear_transaction();
    assert_eq!(request.transaction, None);
    request.set_ready_state_pending();
    assert_eq!(request.ready_state, IDBRequestReadyState::Pending);
}

fn environment() -> RequestEnvironment {
    RequestEnvironment {
        status: readwrite(),
        origin: "https://example.com".to_owned(),
        db_name: "db".to_owned(),
        serial_number: 8,
        transaction: 30,
        requests: Vec::new(),
        next_request_id: 5,
        store: 21,
        store_name: "store".to_owned(),
    }
}

/// The environment of an upgrade.
fn upgrading() -> RequestEnvironment {
    RequestEnvironment { status: upgrade(), ..environment() }
}

fn placed(result: Result<PlacedRequest, Error>) -> PlacedRequest {
    result.expect("a placed request")
}

#[test]
fn store_requests_are_placed_with_their_operation() {
    let mut environment = environment();
    let request =
        placed(store_requests::get(&mut environment, IndexedDBKeyRange::only(key(1))));
    assert_eq!(request.request, RequestUse::Create(RequestSource::ObjectStore(21)));
    assert_eq!(request.hold, OutboundHold::Respect);
    let message = request.message;
    assert_eq!((message.db_name.as_str(), message.store_name.as_str()), ("db", "store"));
    assert_eq!((message.serial_number, message.request_id), (8, 5));
    assert!(matches!(message.operation, AsyncOperation::GetItem { .. }));
    assert_eq!(environment.next_request_id, 6);
    let created = request.created.expect("a new request");
    assert_eq!(created.source, Some(RequestSource::ObjectStore(21)));
    assert_eq!(created.transaction, Some(30));
    assert_eq!(created.ready_state, IDBRequestReadyState::Pending);
    assert_eq!(environment.requests, vec![RequestUse::Create(RequestSource::ObjectStore(21))]);
    assert_eq!(request.record_key.expect("the key that was asked for").encoded, vec![1]);

    let range = IndexedDBKeyRange::default;
    let request = placed(store_requests::get_key(&mut environment, range()));
    assert!(matches!(request.message.operation, AsyncOperation::GetKey { .. }));
    let request = placed(store_requests::count(&mut environment, range()));
    assert!(matches!(request.message.operation, AsyncOperation::Count { .. }));
    let request = placed(store_requests::delete(&mut environment, range()));
    assert!(matches!(request.message.operation, AsyncOperation::RemoveItem { .. }));
    let request = placed(store_requests::clear(&mut environment));
    assert!(matches!(request.message.operation, AsyncOperation::Clear));
    let all = GetAllRequest::new(
        GetAllKind::Values,
        range(),
        IDBCursorDirection::Prev,
        Some(2),
    );
    let request = placed(store_requests::get_all(&mut environment, all));
    assert!(matches!(request.message.operation, AsyncOperation::Iterate { count: None, .. }));
    assert!(matches!(
        request.records_param,
        Some(RecordsParam::GetAll { count: Some(2), .. })
    ));
    let put = store_requests::put(&mut environment, Some(key(1)), vec![1], true, Vec::new());
    match placed(put).message.operation {
        AsyncOperation::PutItem { should_overwrite, .. } => assert!(!should_overwrite),
        other => panic!("expected a put, got {other:?}"),
    }
    let (cursor, request) =
        store_requests::open_cursor(&mut environment, 9, 61, range(), IDBCursorDirection::Next, true);
    assert!(cursor.key_only);
    assert_eq!(cursor.get_request().unwrap(), 61);
    assert!(matches!(
        placed(request).records_param,
        Some(RecordsParam::Cursor { cursor: 9, .. })
    ));

    let count = environment.requests.len();
    let request = placed(store_requests::get(&mut environment, range()));
    assert!(request.record_key.is_none());
    assert_eq!(environment.requests.len(), count + 1);

    environment.status.active = false;
    let refused = store_requests::get(&mut environment, range());
    assert_eq!(kind(refused), ErrorKind::TransactionInactive);
    assert_eq!(environment.requests.len(), count + 1);
    let (cursor, refused) =
        store_requests::open_cursor(&mut environment, 9, 61, range(), IDBCursorDirection::Next, true);
    assert_eq!(kind(refused), ErrorKind::TransactionInactive);
    assert_eq!(kind(cursor.get_request()), ErrorKind::InvalidState);
}

#[test]
fn index_requests_address_the_index() {
    let index = IDBIndex::new_inherited(
        "by_size".to_owned(),
        false,
        false,
        KeyPath::String("size".to_owned()),
        false,
    );
    let mut environment = environment();
    let request =
        placed(index.get(&mut environment, 4, IndexedDBKeyRange::only(key(1))));
    assert_eq!(request.request, RequestUse::Create(RequestSource::Index(4)));
    assert!(matches!(
        request.message.context.target,
        KvsOperationTarget::Index { name } if name == "by_size"
    ));
    assert!(request.record_key.is_none());
    let (mut cursor, request) = index.open_cursor(
        &mut environment,
        4,
        9,
        61,
        IndexedDBKeyRange::default(),
        IDBCursorDirection::Next,
        false,
    );
    assert_eq!(placed(request).created.unwrap().source, Some(RequestSource::Index(4)));
    assert_eq!(cursor.get_request().unwrap(), 61);
    let param = IterationParam { key: None, primary_key: None, count: None };
    assert_eq!(iterate_cursor(&mut cursor, &param, &index_records()).unwrap(), Some(0));
    cursor.finish_iteration(Ok(7)).unwrap();
    assert!(cursor.continue_to(&"by_size".to_owned(), None).is_ok());
    assert!(index.check_request(&environment, true, true).is_ok());
    assert_eq!(kind(index.check_request(&environment, false, true)), ErrorKind::InvalidState);
    assert_eq!(kind(index.verify_not_deleted(true, false)), ErrorKind::InvalidState);
}

#[test]
fn an_answer_becomes_the_result_of_its_request() {
    let listener = || RequestListener { request_id: 1, records_param: None, record_key: None };
    let mut request = IDBRequest::new_inherited();
    let conversion =
        listener().handle_async_request_finished(&mut request, Ok(IdbResult::Count(4)));
    assert!(matches!(conversion, Conversion::Count(4)));
    assert_eq!(request.ready_state, IDBRequestReadyState::Done);
    let event = RequestListener::succeed(&mut request, JsAnswer::Number(4));
    assert!(!event.is_error && !event.bubbles && !event.cancelable);
    assert_eq!(request.get_result().unwrap(), JsAnswer::Number(4));

    let failed = Err(BackendError::DbErr("disk".to_owned()));
    let conversion = listener().handle_async_request_finished(&mut request, failed);
    let error = match conversion {
        Conversion::Fail(error) => error,
        other => panic!("expected a failure, got {other:?}"),
    };
    assert_eq!(error.kind, ErrorKind::Data);
    let (event, aborts) =
        RequestListener::handle_async_request_error(&mut request, &error, true, false);
    assert!(event.is_error && event.bubbles && event.cancelable && !aborts);
    assert_eq!(request.get_result().unwrap(), JsAnswer::Undefined);

    let records = Ok(IdbResult::Records(index_records()));
    let conversion = listener().handle_async_request_finished(&mut request, records);
    assert!(matches!(conversion, Conversion::Fail(error) if error.kind == ErrorKind::InvalidState));
    let all = RequestListener {
        request_id: 1,
        record_key: None,
        records_param: Some(RecordsParam::GetAll {
            kind: GetAllKind::Records,
            direction: IDBCursorDirection::Prevunique,
            count: Some(2),
        }),
    };
    let records = Ok(IdbResult::Records(index_records()));
    match all.handle_async_request_finished(&mut request, records) {
        Conversion::GetAll { records, .. } => assert_eq!(primary_keys(records), vec![1, 3]),
        other => panic!("expected records, got {other:?}"),
    }
}

#[test]
fn what_the_engine_says_becomes_a_result() {
    let put = |result| IdbResult::from_put(result);
    assert!(matches!(put(PutItemResult::Key(key(1))), IdbResult::Key(_)));
    for refused in [
        PutItemResult::CannotOverwrite,
        PutItemResult::IndexConstraintViolated("index".to_owned()),
        PutItemResult::KeyGeneratorExhausted,
    ] {
        match put(refused) {
            IdbResult::Error(error) => assert_eq!(error.kind, ErrorKind::Constraint),
            other => panic!("expected an error, got {other:?}"),
        }
    }
    assert!(matches!(IdbResult::from_value(None), IdbResult::Empty));
    assert!(matches!(IdbResult::from_value(Some(vec![1])), IdbResult::Value(_)));
    assert!(matches!(IdbResult::from_key(None), IdbResult::Empty));
    assert!(matches!(IdbResult::from_backfill(BackfillIndexResult::Done), IdbResult::Empty));
    let violated = IdbResult::from_backfill(BackfillIndexResult::UniqueConstraintViolated);
    assert!(matches!(violated, IdbResult::Error(error) if error.kind == ErrorKind::Constraint));
    assert!(matches!(IdbResult::from(()), IdbResult::Empty));
    assert!(matches!(IdbResult::from(7u64), IdbResult::Count(7)));
}

#[test]
fn a_throwing_listener_aborts_the_transaction() {
    let aborts = |actions: &[TransactionAction]| {
        actions.iter().any(|action| matches!(action, TransactionAction::RequestBackendAbort))
    };
    let handled = |actions: &[TransactionAction]| {
        actions.iter().any(|action| matches!(action, TransactionAction::SendRequestHandled(3)))
    };
    let error = Error::plain(ErrorKind::Constraint);
    for (active, threw, expected) in
        [(true, false, false), (true, true, true), (false, true, false)]
    {
        let actions = RequestListener::after_success(active, threw, 3);
        assert_eq!(aborts(&actions), expected);
        assert!(handled(&actions));
    }
    assert!(aborts(&RequestListener::after_error(true, false, true, &error, 3)));
    assert!(!aborts(&RequestListener::after_error(true, false, false, &error, 3)));
    assert!(!aborts(&RequestListener::after_error(false, false, true, &error, 3)));
}

#[test]
fn a_transaction_is_active_while_an_event_is_fired() {
    let mut state = TransactionState::Inactive;
    state.activate_for_event();
    assert_eq!(state, TransactionState::Active);
    let mut finished = TransactionState::Finished;
    finished.activate_for_event();
    assert_eq!(finished, TransactionState::Finished);
    assert!(readwrite().check_transaction_active().is_ok());
    let readonly = status(IDBTransactionMode::Readonly);
    assert_eq!(kind(readonly.check_readwrite_transaction_active()), ErrorKind::ReadOnly);
}

#[test]
fn key_paths_are_stored_and_read_back() {
    let single = KeyPath::from(StoredKeyPath::from(KeyPath::String("a.b".to_owned())));
    assert!(matches!(single, KeyPath::String(path) if path == "a.b"));
    let sequence = KeyPath::StringSequence(vec!["a".to_owned(), "b".to_owned()]);
    match KeyPath::from(StoredKeyPath::from(sequence)) {
        KeyPath::StringSequence(parts) => assert_eq!(parts, vec!["a", "b"]),
        other => panic!("expected a sequence, got {other:?}"),
    }
}

fn store(key_path: Option<KeyPath>, auto_increment: bool) -> IDBObjectStore {
    IDBObjectStore::new_inherited(
        "db".to_owned(),
        "store".to_owned(),
        Some(IDBObjectStoreParameters { key_path, auto_increment }),
        false,
        vec![IndexMetadata {
            name: "kept".to_owned(),
            key_path: KeyPath::String("kept".to_owned()),
            unique: false,
            multi_entry: false,
        }],
    )
}

fn path(name: &str) -> KeyPath {
    KeyPath::String(name.to_owned())
}

#[test]
fn puts_need_a_key_from_somewhere() {
    let plain = store(None, false);
    assert_eq!(kind(plain.check_put(&readwrite(), true, false)), ErrorKind::Data);
    assert!(plain.check_put(&readwrite(), true, true).is_ok());
    assert!(store(None, true).check_put(&readwrite(), true, false).is_ok());
    let inline = store(Some(path("id")), false);
    assert_eq!(kind(inline.check_put(&readwrite(), true, true)), ErrorKind::Data);
    assert!(inline.check_put(&readwrite(), true, false).is_ok());
    assert_eq!(kind(inline.check_put(&readwrite(), false, false)), ErrorKind::InvalidState);
    let readonly = status(IDBTransactionMode::Readonly);
    assert_eq!(kind(inline.check_put(&readonly, true, false)), ErrorKind::ReadOnly);

    assert!(matches!(
        inline.put_key(None, Extraction::Key(key(1))),
        Ok(PutKey::Known(Some(own))) if own.encoded == vec![1]
    ));
    assert_eq!(kind(inline.put_key(None, Extraction::Failure)), ErrorKind::Data);
    assert_eq!(kind(inline.put_key(None, Extraction::Invalid)), ErrorKind::Data);
    assert_eq!(kind(inline.put_key(None, Extraction::Threw)), ErrorKind::JSFailed);
    let generating = store(Some(path("id")), true);
    assert!(matches!(
        generating.put_key(None, Extraction::Failure),
        Ok(PutKey::CheckInjection(path)) if path == "id"
    ));
    assert!(inline.check_known_key(&Extraction::Key(key(1)), &key(1)).is_ok());
    assert_eq!(kind(inline.check_known_key(&Extraction::Key(key(1)), &key(2))), ErrorKind::Data);
    let inline = store(Some(path("id")), true);
    assert_eq!(inline.record_key_path(), Some("id".to_owned()));
    assert_eq!(inline.inject_record_key_if_absent(&Extraction::Failure), Injection::Inject);
    assert_eq!(inline.inject_record_key_if_absent(&Extraction::Threw), Injection::KeepAndClear);
    assert_eq!(inline.inject_record_key_if_absent(&Extraction::Key(key(1))), Injection::Keep);
    let sequence = store(Some(KeyPath::StringSequence(vec!["id".to_owned()])), false);
    for asked in [store(None, true), sequence] {
        assert_eq!(asked.record_key_path(), None);
        assert_eq!(asked.inject_record_key_if_absent(&Extraction::Failure), Injection::Keep);
    }
}

#[test]
fn a_generated_key_reaches_the_indexes_that_read_it() {
    let generating = store(Some(path("id")), true);
    assert!(matches!(
        generating.record_key_reach(&path("id")),
        ReachStep::Known(RecordKeyReach::WholeKey)
    ));
    assert!(matches!(
        generating.record_key_reach(&path("size")),
        ReachStep::Known(RecordKeyReach::Untouched)
    ));
    let parts = KeyPath::StringSequence(vec!["id".to_owned(), "size".to_owned()]);
    let mut reach = match generating.record_key_reach(&parts) {
        ReachStep::Sequence(reach) => reach,
        other => panic!("expected a sequence, got {other:?}"),
    };
    assert_eq!(reach.next(), Some("size".to_owned()));
    assert!(!reach.take(Extraction::Key(key(6))));
    assert_eq!(reach.next(), None);
    match reach.finish() {
        RecordKeyReach::InSequence(parts) => {
            assert!(parts[0].is_none());
            assert!(parts[1].as_ref().is_some_and(|part| part.encoded == vec![6]));
        },
        other => panic!("expected parts, got {other:?}"),
    }
}

#[test]
fn index_updates_hold_the_extracted_keys() {
    let snapshot = |name: &str, multi_entry| IndexSnapshot {
        index_name: name.to_owned(),
        key_path: path(name),
        multi_entry,
    };
    let array = || Extraction::ArrayKey {
        key: IndexedDBKeyType { encoded: vec![9, 9] },
        elements: vec![key(2), key(1), key(2)],
    };
    let updates = extract_index_updates(vec![
        (snapshot("plain", false), IndexOutcome::Extracted(Extraction::Key(key(5)))),
        (snapshot("none", false), IndexOutcome::Extracted(Extraction::Failure)),
        (snapshot("whole", false), IndexOutcome::Extracted(array())),
        (snapshot("multi", true), IndexOutcome::Extracted(array())),
        (snapshot("dropped", false), IndexOutcome::Dropped),
        (snapshot("generated", false), IndexOutcome::WholeKey),
    ]);
    let keys = |name: &str| {
        updates
            .iter()
            .find(|update| update.index_name == name)
            .map(|update| update.keys.iter().map(|own| own.encoded.clone()).collect::<Vec<_>>())
    };
    assert_eq!(keys("plain"), Some(vec![vec![5]]));
    assert_eq!(keys("whole"), Some(vec![vec![9, 9]]));
    let multi = keys("multi").unwrap();
    assert!(multi.contains(&vec![1]) && multi.contains(&vec![2]));
    assert!(keys("dropped").is_none() || keys("dropped") == Some(Vec::new()));

    let entries =
        finish_index_backfill(
            vec![(key(1), Ok(Extraction::Key(key(5)))), (key(2), Ok(Extraction::Failure))],
            false,
        )
        .unwrap();
    let filled: Vec<Vec<u8>> = entries
        .iter()
        .filter(|entry| !entry.keys.is_empty())
        .map(|entry| entry.primary_key.encoded.clone())
        .collect();
    assert_eq!(filled, vec![vec![1]]);
}

#[test]
fn an_upgrade_changes_names_and_indexes() {
    let mut store = store(None, false);
    store.add_index("kept".to_owned(), false, false, path("kept"), false);
    let message = store
        .create_index(&"new".to_owned(), &path("p"), true, false, &upgrading(), true, true)
        .unwrap();
    assert_eq!(message.origin, "https://example.com");
    assert_eq!(message.transaction_serial_number, 8);
    assert_eq!((message.database_name.as_str(), message.store_name.as_str()), ("db", "store"));
    assert!(matches!(message.change, SchemaChange::CreateIndex { multi_entry: true, .. }));
    store.created_index("new".to_owned(), path("p"), true, false, true).unwrap();
    assert!(store.has_index(&"new".to_owned()));
    let name = || "new".to_owned();
    let create = |name: &String, path: &KeyPath, multi_entry, valid| {
        kind(store.create_index(name, path, multi_entry, false, &upgrading(), true, valid))
    };
    assert_eq!(create(&name(), &path("p"), false, true), ErrorKind::Constraint);
    assert_eq!(create(&"x".to_owned(), &path("p"), false, false), ErrorKind::Syntax);
    let sequence = KeyPath::StringSequence(vec!["a".to_owned()]);
    assert_eq!(create(&"x".to_owned(), &sequence, true, true), ErrorKind::InvalidAccess);
    let refused =
        store.create_index(&"x".to_owned(), &path("p"), false, false, &environment(), true, true);
    assert_eq!(kind(refused), ErrorKind::InvalidState);

    assert!(store.index(&"kept".to_owned(), false, true).is_ok());
    assert_eq!(kind(store.index(&"lost".to_owned(), false, true)), ErrorKind::NotFound);
    assert_eq!(kind(store.index(&"kept".to_owned(), true, true)), ErrorKind::InvalidState);
    assert_eq!(kind(store.delete_index(&"lost".to_owned(), &upgrading(), true)), ErrorKind::NotFound);
    let message = store.delete_index(&"kept".to_owned(), &upgrading(), true).unwrap();
    assert!(matches!(message.change, SchemaChange::DeleteIndex { .. }));
    store.deleted_index(&"kept".to_owned(), true).unwrap();
    assert!(!store.has_index(&"kept".to_owned()));

    match store.set_name(&"renamed".to_owned(), &upgrading(), true, false).unwrap() {
        Renaming::Send(message) => assert_eq!(message.store_name, "store"),
        other => panic!("expected a message, got {other:?}"),
    }
    store.renamed("renamed".to_owned(), true).unwrap();
    assert_eq!(store.get_name(), "renamed");
    assert!(matches!(
        store.set_name(&"renamed".to_owned(), &upgrading(), true, false),
        Ok(Renaming::Unchanged)
    ));
    let taken = store.set_name(&"taken".to_owned(), &upgrading(), true, true);
    assert_eq!(kind(taken), ErrorKind::Constraint);

    // An abort brings back what the upgrade changed.
    store.restore_metadata_after_abort();
    assert!(store.has_index(&"kept".to_owned()));
    assert!(!store.has_index(&"new".to_owned()));
}

#[test]
fn an_index_is_renamed_where_the_new_name_is_free() {
    let mut store = store(None, false);
    let handle = store.add_index("first".to_owned(), false, false, path("p"), false);
    store.add_index("second".to_owned(), false, false, path("p"), false);
    let refused = store.set_index_name(handle, &"second".to_owned(), &upgrade(), true);
    assert_eq!(kind(refused), ErrorKind::Constraint);
    let refused = store.rename_index(&"lost".to_owned(), &"third".to_owned(), &upgrading());
    assert_eq!(kind(refused), ErrorKind::InvalidState);
    let message =
        store.rename_index(&"first".to_owned(), &"third".to_owned(), &upgrading()).unwrap();
    assert_eq!(message.transaction_serial_number, 8);
    assert!(matches!(message.change, SchemaChange::RenameIndex { .. }));
    store.index_renamed(&"first".to_owned(), &"third".to_owned(), true).unwrap();
    store.index_name_set(handle, "third".to_owned(), true);
    assert!(store.has_index(&"third".to_owned()) && !store.has_index(&"first".to_owned()));
    assert_eq!(store.handles[handle].name, "third");
}

#[test]
fn a_context_without_an_index_addresses_the_store() {
    let context = KvsOperationContext::default();
    assert!(matches!(context.target, KvsOperationTarget::ObjectStore));
    assert!(context.index_updates.is_empty());
}

const CALM: FailureContext = FailureContext { committing: false, created: true };
const QUIET: Dispatched =
    Dispatched { active: true, listeners_threw: false, default_not_prevented: true };

fn actions(actions: &[TransactionAction]) -> Vec<String> {
    actions
        .iter()
        .map(|action| match action {
            TransactionAction::Abort(error) => format!("Abort({:?})", error.kind),
            other => format!("{other:?}"),
        })
        .collect()
}

#[test]
fn a_delivery_ends_with_the_request_handled() {
    let mut request = IDBRequest::new_inherited();
    let listener = RequestListener { request_id: 3, records_param: None, record_key: None };
    let (delivery, step) =
        Delivery::begin(listener, &mut request, Ok(IdbResult::Value(vec![1])), CALM);
    assert!(step.actions.is_empty());
    assert!(matches!(step.next, DeliveryNext::Convert(Conversion::Value { .. })));
    let outcome = ConversionOutcome::Converted(JsAnswer::Value(8));
    let (delivery, step) = delivery.converted(&mut request, outcome, CALM);
    assert_eq!(actions(&step.actions), vec!["Activate"]);
    assert!(matches!(step.next, DeliveryNext::Fire(event) if !event.is_error));
    assert_eq!(request.get_result().unwrap(), JsAnswer::Value(8));
    let step = delivery.dispatched(QUIET);
    assert_eq!(
        actions(&step.actions),
        vec![
            "SetInactive",
            "RequestFinished",
            "SendRequestHandled(3)",
            "MarkRequestHandled(3)",
            "MaybeCommit"
        ]
    );
    assert!(matches!(step.next, DeliveryNext::Finished));
}

/// Reads a value back whose key path comes to `extraction`, and answers what was put into it.
fn read_back(
    store: &IDBObjectStore,
    begun: Option<(ReadBack, ReadBackStep)>,
    extraction: Extraction,
) -> Option<(String, Vec<u8>)> {
    let (mut state, mut step) = begun.expect("a value to read");
    let mut extraction = Some(extraction);
    let mut injected = None;
    loop {
        let answer = match step {
            ReadBackStep::Read => ReadBackAnswer::Read(Ok(12)),
            ReadBackStep::Extract(_) => ReadBackAnswer::Extracted(extraction.take().unwrap()),
            ReadBackStep::Inject { key_path, key } => {
                injected = Some((key_path, key.encoded));
                ReadBackAnswer::Injected(Ok(true))
            },
            ReadBackStep::Ready { value, .. } => {
                assert_eq!(value, 12);
                return injected;
            },
        };
        (state, step) = state.resume(store, answer).unwrap();
    }
}

#[test]
fn a_value_without_its_key_gets_it_back() {
    let inline = store(Some(path("id")), true);
    let put_back = Some(("id".to_owned(), vec![7]));
    for kind in [GetAllKind::Values, GetAllKind::Records] {
        let begun = || read_of(&kind.element(record(2, 7)));
        assert_eq!(read_back(&inline, begun(), Extraction::Failure), put_back);
        assert_eq!(read_back(&inline, begun(), Extraction::Key(key(7))), None);
        assert_eq!(read_back(&inline, begun(), Extraction::Invalid), None);
        assert_eq!(read_back(&inline, begun(), Extraction::Threw), None);
        assert_eq!(read_back(&store(None, true), begun(), Extraction::Failure), None);
    }
    assert!(read_of(&GetAllKind::PrimaryKeys.element(record(2, 7))).is_none());

    let mut moved = cursor(IDBCursorDirection::Next);
    let value = cursor_value(&moved, record(2, 7)).expect("a value to read");
    assert_eq!(read_back(&inline, read_of(&value), Extraction::Failure), put_back);
    moved.key_only = true;
    assert!(cursor_value(&moved, record(2, 7)).is_none());

    let mut request = IDBRequest::new_inherited();
    let mut environment = environment();
    let get = placed(store_requests::get(&mut environment, IndexedDBKeyRange::only(key(7))));
    let listener = RequestListener {
        request_id: get.message.request_id,
        records_param: get.records_param,
        record_key: get.record_key,
    };
    let conversion =
        listener.handle_async_request_finished(&mut request, Ok(IdbResult::Value(vec![1])));
    assert_eq!(read_back(&inline, read_of(&conversion), Extraction::Failure), put_back);
}

#[test]
fn a_value_that_cannot_be_read_back_fails() {
    let inline = store(Some(path("id")), true);
    let unreadable = || Err(Error::plain(ErrorKind::Data));
    let (state, _) = ReadBack::begin(Some(key(7)));
    assert_eq!(kind(state.resume(&inline, ReadBackAnswer::Read(unreadable()))), ErrorKind::Data);
    let (state, _) = ReadBack::begin(Some(key(7)));
    let (state, _) = state.resume(&inline, ReadBackAnswer::Read(Ok(12))).unwrap();
    let failure = ReadBackAnswer::Extracted(Extraction::Failure);
    let (state, _) = state.resume(&inline, failure).unwrap();
    let thrown = ReadBackAnswer::Injected(Err(Error::plain(ErrorKind::JSFailed)));
    assert_eq!(kind(state.resume(&inline, thrown)), ErrorKind::JSFailed);
    let (state, _) = ReadBack::begin(Some(key(7)));
    let (state, _) = state.resume(&inline, ReadBackAnswer::Read(Ok(12))).unwrap();
    let (_, step) = state.resume(&inline, ReadBackAnswer::Extracted(Extraction::Threw)).unwrap();
    assert!(matches!(step, ReadBackStep::Ready { value: 12, clear_exception: true }));

    let failed = finish_index_backfill(
        vec![(key(1), Ok(Extraction::Key(key(5)))), (key(2), Err(Error::plain(ErrorKind::Data)))],
        false,
    );
    assert_eq!(kind(failed), ErrorKind::Data);
}

#[test]
fn a_new_index_is_filled_before_anything_else_goes_out() {
    let mut store = store(None, false);
    let handle = store.created_index("new".to_owned(), path("p"), true, false, true).unwrap();
    let mut environment = upgrading();
    let fill = store_requests::fill_created_index(&store, &mut environment, handle).unwrap();
    assert!(matches!(fill.action, TransactionAction::HoldOutboundAfterBackfill));
    assert_eq!(fill.read.hold, OutboundHold::Bypass);
    assert!(matches!(
        fill.read.message.operation,
        AsyncOperation::Iterate { count: None, shape: RecordsShape::WithValues, .. }
    ));
    match fill.read.records_param {
        Some(RecordsParam::IndexBackfill { store_name, index_name, key_path, multi_entry }) => {
            assert_eq!((store_name.as_str(), index_name.as_str()), ("store", "new"));
            assert!(is_path(&key_path, "p") && multi_entry);
        },
        other => panic!("expected a backfill, got {other:?}"),
    }
    environment.status.active = false;
    let refused = store_requests::fill_created_index(&store, &mut environment, handle);
    assert_eq!(kind(refused), ErrorKind::TransactionInactive);
}

#[test]
fn a_cursor_that_runs_out_succeeds_with_null() {
    let mut request = IDBRequest::new_inherited();
    let param = || IterationParam { key: None, primary_key: None, count: None };
    let listener = RequestListener {
        request_id: 3,
        record_key: None,
        records_param: Some(RecordsParam::Cursor { cursor: 70, param: param() }),
    };
    let (delivery, step) =
        Delivery::begin(listener, &mut request, Ok(IdbResult::Records(Vec::new())), CALM);
    let DeliveryNext::Convert(Conversion::Cursor { cursor: handle, param, records }) = step.next
    else {
        panic!("expected a cursor to move");
    };
    let mut moved = cursor(IDBCursorDirection::Next);
    let outcome = cursor_answer(iterate_cursor(&mut moved, &param, &records), Ok(()), handle);
    let (delivery, step) = delivery.converted(&mut request, outcome, CALM);
    assert!(matches!(step.next, DeliveryNext::Fire(event) if !event.is_error));
    assert_eq!(request.get_result().unwrap(), JsAnswer::Null);
    assert!(matches!(delivery.dispatched(QUIET).next, DeliveryNext::Finished));
}

#[test]
fn a_cursor_with_a_record_is_the_result() {
    let failed = || Error::plain(ErrorKind::Data);
    assert!(matches!(
        cursor_answer(Ok(Some(0)), Ok(()), 70),
        ConversionOutcome::Converted(JsAnswer::Value(70))
    ));
    assert!(matches!(
        cursor_answer(Ok(Some(0)), Err(failed()), 70),
        ConversionOutcome::Failed(error) if error.kind == ErrorKind::Data
    ));
    assert!(matches!(
        cursor_answer(Err(Error::plain(ErrorKind::Operation)), Ok(()), 70),
        ConversionOutcome::Failed(error) if error.kind == ErrorKind::Operation
    ));
    assert!(matches!(
        cursor_answer(Ok(None), Err(failed()), 70),
        ConversionOutcome::Converted(JsAnswer::Null)
    ));
}

#[test]
fn answers_are_converted_by_their_kind() {
    let failed = || Err(Error::plain(ErrorKind::Data));
    let answer = |conversion, made| match plain_answer(conversion, made) {
        ConversionOutcome::Converted(answer) => Ok(answer),
        ConversionOutcome::Failed(error) => Err(error.kind),
    };
    assert_eq!(answer(Conversion::Nothing, Ok(5)), Ok(JsAnswer::Undefined));
    assert_eq!(answer(Conversion::Count(3), Ok(5)), Ok(JsAnswer::Number(3)));
    assert_eq!(answer(Conversion::Value { value: vec![1], key: None }, Ok(5)), Ok(JsAnswer::Value(5)));
    assert_eq!(answer(Conversion::Key(key(1)), failed()), Err(ErrorKind::Data));
    let error = Error::plain(ErrorKind::InvalidState);
    assert_eq!(answer(Conversion::Fail(error), Ok(5)), Err(ErrorKind::InvalidState));
}

#[test]
fn each_kind_takes_its_part_of_a_record() {
    match GetAllKind::Values.element(record(2, 7)) {
        Conversion::Value { value, key } => {
            assert_eq!(value, vec![2, 7]);
            assert_eq!(key.unwrap().encoded, vec![7]);
        },
        other => panic!("expected a value, got {other:?}"),
    }
    match GetAllKind::PrimaryKeys.element(record(2, 7)) {
        Conversion::Key(key) => assert_eq!(key.encoded, vec![7]),
        other => panic!("expected a key, got {other:?}"),
    }
    match GetAllKind::Records.element(record(2, 7)) {
        Conversion::Record(record) => {
            assert_eq!(record.key.encoded, vec![2]);
            assert_eq!(record.primary_key.encoded, vec![7]);
            assert_eq!(record.value, vec![2, 7]);
        },
        other => panic!("expected a record, got {other:?}"),
    }
}

#[test]
fn a_failed_conversion_fires_an_error() {
    let mut request = IDBRequest::new_inherited();
    let listener = RequestListener { request_id: 3, records_param: None, record_key: None };
    let committing = FailureContext { committing: true, created: true };
    let (delivery, _) =
        Delivery::begin(listener, &mut request, Ok(IdbResult::Value(vec![1])), committing);
    let outcome = ConversionOutcome::Failed(Error::plain(ErrorKind::Data));
    let (delivery, step) = delivery.converted(&mut request, outcome, committing);
    assert_eq!(
        actions(&step.actions),
        vec!["Abort(Data)", "RequestBackendAbort", "Activate"]
    );
    assert!(matches!(step.next, DeliveryNext::Fire(event) if event.is_error));
    let step = delivery.dispatched(QUIET);
    assert_eq!(
        actions(&step.actions)[..3],
        ["SetInactive", "Abort(Data)", "RequestBackendAbort"]
    );
}

#[test]
fn a_backfill_lets_what_is_held_back_go() {
    let backfill = || RequestListener {
        request_id: 3,
        record_key: None,
        records_param: Some(RecordsParam::IndexBackfill {
            store_name: "store".to_owned(),
            index_name: "index".to_owned(),
            key_path: path("p"),
            multi_entry: false,
        }),
    };
    let records = || Ok(IdbResult::Records(index_records()));
    let mut request = IDBRequest::new_inherited();
    request.set_source(RequestSource::ObjectStore(21));
    let (delivery, step) = Delivery::begin(backfill(), &mut request, records(), CALM);
    assert_eq!(actions(&step.actions), vec!["Activate"]);
    assert!(matches!(step.next, DeliveryNext::Convert(Conversion::Backfill { store: 21, .. })));
    let outcome = ConversionOutcome::Converted(JsAnswer::Undefined);
    let (_, step) = delivery.converted(&mut request, outcome, CALM);
    assert_eq!(actions(&step.actions), vec!["ResumeAfterBackfill", "Activate"]);

    let mut lost = IDBRequest::new_inherited();
    let (_, step) = Delivery::begin(backfill(), &mut lost, records(), CALM);
    assert_eq!(
        actions(&step.actions),
        vec!["Activate", "DiscardHeldOutbound", "Activate"]
    );
    assert_eq!(lost.get_error().unwrap().unwrap().kind, ErrorKind::InvalidState);
}

fn put_through(
    store: &IDBObjectStore,
    key: Option<IndexedDBKeyType>,
    mut extract: impl FnMut(&KeyPath, bool) -> Extraction,
) -> Result<StoredRecord, Error> {
    let (mut request, mut step) =
        PutRequest::begin(store, &readwrite(), true, key.is_some())?;
    loop {
        assert_eq!(step.leaves_active(), !matches!(step, PutStep::CloneValue));
        let answer = match step {
            PutStep::ConvertKey => PutAnswer::Key(Ok(key.clone().unwrap())),
            PutStep::CloneValue => PutAnswer::Cloned(Ok(())),
            PutStep::Extract { key_path, multi_entry } => {
                PutAnswer::Extracted(extract(&key_path, multi_entry))
            },
            PutStep::CheckInjection(_) => PutAnswer::CanInject(Ok(true)),
            PutStep::Serialize => PutAnswer::Serialized(Ok(Some(vec![42]))),
            PutStep::Store(record) => return Ok(record),
        };
        (request, step) = request.resume(store, answer)?;
    }
}

fn is_path(key_path: &KeyPath, name: &str) -> bool {
    matches!(key_path, KeyPath::String(path) if path == name)
}

#[test]
fn a_put_finds_its_key_and_its_index_keys() {
    let mut plain = store(None, false);
    plain.add_index("size".to_owned(), false, false, path("size"), false);
    let stored = put_through(&plain, Some(key(1)), |key_path, _| {
        assert!(is_path(key_path, "size"));
        Extraction::Key(key(9))
    })
    .unwrap();
    assert_eq!(stored.key.unwrap().encoded, vec![1]);
    assert_eq!(stored.value, vec![42]);
    assert_eq!(stored.index_updates.len(), 1);
    assert_eq!(stored.index_updates[0].keys[0].encoded, vec![9]);

    let inline = store(Some(path("id")), false);
    let stored = put_through(&inline, None, |key_path, _| {
        assert!(is_path(key_path, "id"));
        Extraction::Key(key(3))
    })
    .unwrap();
    assert_eq!(stored.key.unwrap().encoded, vec![3]);
    assert_eq!(kind(put_through(&inline, None, |_, _| Extraction::Failure)), ErrorKind::Data);
}

#[test]
fn a_generated_key_is_placed_by_the_engine() {
    let mut generating = store(Some(path("id")), true);
    generating.add_index("whole".to_owned(), false, false, path("id"), false);
    let parts = KeyPath::StringSequence(vec!["id".to_owned(), "size".to_owned()]);
    generating.add_index("parts".to_owned(), false, false, parts, false);
    generating.add_index("size".to_owned(), false, false, path("size"), false);
    let stored = put_through(&generating, None, |key_path, _| {
        if is_path(key_path, "id") {
            Extraction::Failure
        } else {
            Extraction::Key(key(9))
        }
    })
    .unwrap();
    assert!(stored.key.is_none());
    assert_eq!(stored.index_updates.len(), 3);
    let placed: Vec<&str> = stored
        .index_updates
        .iter()
        .filter(|update| update.record_key_placement.is_some())
        .map(|update| update.index_name.as_str())
        .collect();
    assert!(placed.contains(&"whole") && placed.contains(&"parts") && placed.len() == 2);

    // A component without a key takes the record out of the index.
    let stored = put_through(&generating, None, |_, _| Extraction::Failure).unwrap();
    assert_eq!(stored.index_updates.len(), 1);
    assert_eq!(stored.index_updates[0].index_name, "whole");
}

#[test]
fn a_value_that_cannot_be_stored_is_refused() {
    let plain = store(None, false);
    let (request, _) = PutRequest::begin(&plain, &readwrite(), true, true).unwrap();
    let refused = request.resume(&plain, PutAnswer::Key(Err(Error::plain(ErrorKind::Data))));
    assert_eq!(kind(refused), ErrorKind::Data);

    let (request, _) = PutRequest::begin_update(key(1));
    let (request, step) = request.resume(&plain, PutAnswer::Cloned(Ok(()))).unwrap();
    assert!(matches!(step, PutStep::Serialize));
    let refused = request.resume(&plain, PutAnswer::Serialized(Ok(None)));
    assert_eq!(kind(refused), ErrorKind::InvalidState);

    // A record cannot be moved by writing another key into it.
    let inline = store(Some(path("id")), false);
    let (request, _) = PutRequest::begin_update(key(1));
    let (request, _) = request.resume(&inline, PutAnswer::Cloned(Ok(()))).unwrap();
    let refused = request.resume(&inline, PutAnswer::Extracted(Extraction::Key(key(2))));
    assert_eq!(kind(refused), ErrorKind::Data);
}
