//! The IndexedDB engine on a real SQLite database.

use std::path::PathBuf;

use rusqlite::{params_from_iter, Connection, OptionalExtension, Row};
use weblayer::indexeddb::engine::backfill::IndexBackfillEntry;
use weblayer::indexeddb::engine::dispatch::{
    dispatch, first_step, plan_transaction, refuse_all, AsyncOperation, FirstStep,
    IndexedDBTxnMode, KvsOperation, RecordKey, SourceRecord, Work, GENERATOR_MAXIMUM,
};
use weblayer::indexeddb::engine::job::{
    resume, start, start_create_store, Job, JobEvent, JobStep, ObjectRow, ReadQuery, Reply,
};
use weblayer::indexeddb::engine::model::{
    backend_error_from_sqlite_error, corrupt_storage, BackendError, BackfillIndexResult, CreateObjectResult,
    EngineError, IndexModel, PutItemResult, SqlError, Statement, StoreModel, Value,
};
use weblayer::indexeddb::engine::put::{Answer, Question};
use weblayer::indexeddb::engine::rollback::{commit_transaction, Rollback, RollbackStep};
use weblayer::indexeddb::engine::schema::{
    create_undo_log, install_undo_log_triggers, signed_serial, undo_logged_tables,
    undo_where_clause, unsigned_value,
};
use weblayer::indexeddb::engine::stores;
use weblayer::indexeddb::engine::transaction_run::{RunNext, TransactionRun};
use weblayer::indexeddb::key::{IndexedDBKeyRange, IndexedDBKeyType};
use weblayer::indexeddb::key_path::StoredKeyPath;
use weblayer::indexeddb::operation::{
    KvsIndexUpdate, KvsOperationContext, KvsOperationTarget, RecordKeyPlacement,
};
use weblayer::indexeddb::record::RecordsShape;

/// A number key, stored so that the bytes are in the order of the numbers.
fn number(value: f64) -> IndexedDBKeyType {
    let bits = value.to_bits();
    let ordered = if bits >> 63 == 0 { bits ^ (1 << 63) } else { !bits };
    let mut encoded = vec![0x10];
    encoded.extend_from_slice(&ordered.to_be_bytes());
    IndexedDBKeyType { encoded }
}

fn string(value: &str) -> IndexedDBKeyType {
    let mut encoded = vec![0x30];
    encoded.extend_from_slice(value.as_bytes());
    IndexedDBKeyType { encoded }
}

fn array(parts: &[IndexedDBKeyType]) -> IndexedDBKeyType {
    let mut encoded = vec![0x50];
    for part in parts {
        encoded.extend_from_slice(&part.encoded);
    }
    IndexedDBKeyType { encoded }
}

/// The bytes begin as a key of one of the kinds above does.
fn decodes(encoded: &[u8]) -> bool {
    encoded.first().is_some_and(|kind| [0x10, 0x30, 0x50].contains(kind))
}

fn key_number(encoded: &[u8]) -> i32 {
    assert_eq!(encoded[0], 0x10);
    let ordered = u64::from_be_bytes(encoded[1..9].try_into().unwrap());
    let bits = if ordered >> 63 == 1 { ordered ^ (1 << 63) } else { !ordered };
    f64::from_bits(bits) as i32
}

fn bound(value: &Value) -> rusqlite::types::Value {
    match value {
        Value::Null => rusqlite::types::Value::Null,
        Value::Integer(number) => rusqlite::types::Value::Integer(*number),
        Value::Text(text) => rusqlite::types::Value::Text(text.clone()),
        Value::Blob(bytes) => rusqlite::types::Value::Blob(bytes.clone()),
    }
}

fn sql_error(error: rusqlite::Error) -> SqlError {
    SqlError { disk_full: false, description: format!("{error:?}") }
}

fn engine_error(error: rusqlite::Error) -> EngineError {
    EngineError::Sql(sql_error(error))
}

fn store_row(row: &Row) -> rusqlite::Result<StoreModel> {
    Ok(StoreModel {
        id: row.get("id")?,
        name: row.get("name")?,
        key_path: row.get("key_path")?,
        auto_increment: row.get("auto_increment")?,
    })
}

fn index_row(row: &Row) -> rusqlite::Result<IndexModel> {
    Ok(IndexModel {
        id: row.get("id")?,
        object_store_id: row.get("object_store_id")?,
        name: row.get("name")?,
        key_path: row.get("key_path")?,
        unique_index: row.get("unique_index")?,
        multi_entry_index: row.get("multi_entry_index")?,
    })
}

fn execute(connection: &Connection, statement: &Statement) -> rusqlite::Result<usize> {
    connection.execute(&statement.sql, params_from_iter(statement.values.iter().map(bound)))
}

fn optional<T>(
    connection: &Connection,
    statement: &Statement,
    read: impl FnOnce(&Row) -> rusqlite::Result<T>,
) -> rusqlite::Result<Option<T>> {
    connection
        .query_row(&statement.sql, params_from_iter(statement.values.iter().map(bound)), read)
        .optional()
}

fn record(row: &Row, plain: bool, shape: RecordsShape) -> rusqlite::Result<SourceRecord> {
    let key: Vec<u8> = row.get(0)?;
    let primary_key: Vec<u8> = if plain { row.get(1)? } else { key.clone() };
    let data: Vec<u8> = match shape {
        RecordsShape::WithValues => row.get(if plain { 2 } else { 1 })?,
        RecordsShape::KeysOnly => Vec::new(),
    };
    let (key_decodes, primary_key_decodes) = (decodes(&key), decodes(&primary_key));
    Ok(SourceRecord { key, primary_key, data, key_decodes, primary_key_decodes })
}

fn perform(connection: &Connection, step: JobStep) -> rusqlite::Result<JobEvent> {
    Ok(match step {
        JobStep::Ask(question) => {
            let statement = question.statement();
            JobEvent::Answered(match question {
                Question::Object { .. } => {
                    Answer::Object(optional(connection, &statement, |_| Ok(()))?.is_some())
                },
                Question::Index { .. } => {
                    Answer::Index(optional(connection, &statement, index_row)?)
                },
                Question::Holder { .. } => {
                    Answer::Holder(optional(connection, &statement, |row| row.get(0))?)
                },
            })
        },
        JobStep::ReadRecords(ReadQuery::Built(query), shape) => {
            let mut statement = connection.prepare(&query.sql)?;
            let rows = statement
                .query_map(&*query.values.as_params(), |row| record(row, false, shape))?
                .collect::<rusqlite::Result<Vec<_>>>()?;
            JobEvent::Records(rows)
        },
        JobStep::ReadRecords(ReadQuery::Plain(plain), shape) => {
            let mut statement = connection.prepare(&plain.sql)?;
            let rows = statement
                .query_map(params_from_iter(plain.values.iter().map(bound)), |row| {
                    record(row, true, shape)
                })?
                .collect::<rusqlite::Result<Vec<_>>>()?;
            JobEvent::Records(rows)
        },
        JobStep::ReadObject(query) => JobEvent::Object(
            connection
                .prepare(&query.sql)?
                .query_row(&*query.values.as_params(), |row| {
                    let key: Vec<u8> = row.get("key")?;
                    let key_decodes = decodes(&key);
                    Ok(ObjectRow { key, data: row.get("data")?, key_decodes })
                })
                .optional()?,
        ),
        JobStep::ReadNumber(ReadQuery::Built(query)) => JobEvent::Number(
            connection.query_row(&query.sql, &*query.values.as_params(), |row| row.get(0))?,
        ),
        JobStep::ReadNumber(ReadQuery::Plain(plain)) => JobEvent::Number(connection.query_row(
            &plain.sql,
            params_from_iter(plain.values.iter().map(bound)),
            |row| row.get(0),
        )?),
        JobStep::HasRow(statement) => {
            JobEvent::Flag(optional(connection, &statement, |_| Ok(()))?.is_some())
        },
        JobStep::ReadFlag(statement) => {
            JobEvent::Flag(optional(connection, &statement, |row| row.get(0))?.unwrap())
        },
        JobStep::Run(commands) => {
            for command in &commands {
                execute(connection, &command.statement())?;
            }
            JobEvent::Ran
        },
        JobStep::Delete(query) => {
            connection.execute(&query.sql, &*query.values.as_params())?;
            JobEvent::Ran
        },
        JobStep::Execute(statements) => {
            let mut rows = 0;
            for statement in &statements {
                rows = execute(connection, statement)?;
            }
            JobEvent::Rows(rows)
        },
        JobStep::Reply(_) => unreachable!(),
    })
}

fn run_job(connection: &Connection, job: Option<Job>, step: JobStep) -> Reply {
    let (mut job, mut step) = (job, step);
    loop {
        let current = match step {
            JobStep::Reply(reply) => {
                assert!(job.is_none());
                return reply;
            },
            step => step,
        };
        let event = match perform(connection, current) {
            Ok(event) => event,
            Err(error) => JobEvent::Failed(engine_error(error)),
        };
        (job, step) = resume(job.expect("a job that waits"), event);
    }
}

struct Db {
    _dir: tempfile::TempDir,
    path: PathBuf,
    connection: Connection,
}

fn open(path: &PathBuf) -> Connection {
    let connection = Connection::open(path).unwrap();
    let initialized = connection.table_exists(None, "database").unwrap();
    let origin = "test_origin://localhost:80".to_owned();
    for statement in stores::init_db(initialized, &"test_db".to_owned(), &origin) {
        execute(&connection, &statement).unwrap();
    }
    for sql in create_undo_log() {
        connection.execute(&sql, []).unwrap();
    }
    connection
}

impl Db {
    fn new() -> Db {
        let dir = tempfile::tempdir().unwrap();
        let path = dir.path().join("indexeddb.sqlite");
        let connection = open(&path);
        Db { _dir: dir, path, connection }
    }

    fn store(&self, name: &str) -> Result<StoreModel, EngineError> {
        let statement = stores::object_store_by_name(&name.to_owned());
        stores::found_store(optional(&self.connection, &statement, store_row).unwrap())
    }

    fn create_store(
        &self,
        name: &str,
        key_path: Option<Vec<u8>>,
        auto_increment: bool,
    ) -> CreateObjectResult {
        let name = name.to_owned();
        let exists =
            optional(&self.connection, &stores::object_store_by_name(&name), |_| Ok(())).unwrap();
        let (result, statement) =
            stores::create_store(&name, key_path, auto_increment, exists.is_some());
        if let Some(statement) = statement {
            execute(&self.connection, &statement).unwrap();
        }
        result
    }

    fn delete_store(&self, name: &str) -> Result<(), EngineError> {
        let store = self.store(name)?;
        let mut rows = 0;
        for statement in stores::delete_store(&store) {
            rows = execute(&self.connection, &statement).unwrap();
        }
        stores::deleted_store(rows)
    }

    fn version(&self) -> u64 {
        let statement = stores::read_version();
        let stored = optional(&self.connection, &statement, |row| row.get(0)).unwrap().unwrap();
        stores::version(stored)
    }

    fn run(&self, serial: u64, requests: Vec<KvsOperation>) -> Vec<Reply> {
        let plan = plan_transaction(IndexedDBTxnMode::Readwrite);
        assert!(plan.undo_logged && !plan.on_read_pool);
        let connection = Connection::open(&self.path).unwrap();
        for batch in install_undo_log_triggers(serial) {
            connection.execute_batch(&batch).unwrap();
        }
        requests.into_iter().map(|request| self.carry_out(&connection, request)).collect()
    }

    fn carry_out(&self, connection: &Connection, request: KvsOperation) -> Reply {
        let request = match first_step(request) {
            FirstStep::CreateStore { store_name, key_path, auto_increment } => {
                let (job, step) = start_create_store(store_name, key_path, auto_increment);
                return run_job(connection, Some(job), step);
            },
            FirstStep::LookUp(request) => request,
        };
        let statement = stores::object_store_by_name(&request.store_name);
        let store = optional(connection, &statement, store_row).map_err(sql_error);
        let mut work = dispatch(request, store);
        if let Work::Put { key: RecordKey::Generated(generated), .. } = &work {
            let key = number(*generated as f64);
            let sequences = work.sequences(&key).into_iter();
            let arrays = sequences.map(|parts| parts.map(|parts| array(&parts))).collect();
            work = work.with_key(key, arrays);
        }
        let (job, step) = start(work);
        run_job(connection, job, step)
    }

    fn commit(&self, serial: u64) {
        execute(&self.connection, &commit_transaction(serial)).unwrap();
    }

    fn roll_back(&self, serial: u64) -> Result<(), EngineError> {
        let mut rollback = Rollback::new(serial);
        let mut step = rollback.next();
        loop {
            let outcome = match &step {
                RollbackStep::Batch(sql) => {
                    self.connection.execute_batch(sql).map(|()| Vec::new())
                },
                RollbackStep::Load(statement) => {
                    let mut prepared = self.connection.prepare(&statement.sql).unwrap();
                    let rows = prepared
                        .query_map(params_from_iter(statement.values.iter().map(bound)), |row| {
                            row.get(0)
                        })
                        .unwrap()
                        .collect::<rusqlite::Result<Vec<String>>>();
                    rows
                },
                RollbackStep::Execute(statement) => {
                    execute(&self.connection, statement).map(|_| Vec::new())
                },
                RollbackStep::Finish(_) => unreachable!(),
            };
            let (next, after) = rollback.resume(outcome.map_err(engine_error));
            match (next, after) {
                (Some(next), after) => {
                    rollback = next;
                    step = after;
                },
                (None, RollbackStep::Finish(result)) => return result,
                (None, other) => panic!("a rollback ends with its result, not {other:?}"),
            }
        }
    }

    fn count(&self, sql: &str) -> i64 {
        self.connection.query_row(sql, [], |row| row.get(0)).unwrap()
    }
}

fn request(operation: AsyncOperation) -> KvsOperation {
    KvsOperation {
        store_name: "test_store".to_owned(),
        context: KvsOperationContext::default(),
        operation,
        callback: 0,
    }
}

fn on_index(name: &str, operation: AsyncOperation) -> KvsOperation {
    KvsOperation {
        context: KvsOperationContext {
            target: KvsOperationTarget::Index { name: name.to_owned() },
            index_updates: Vec::new(),
        },
        ..request(operation)
    }
}

fn put(key: IndexedDBKeyType, value: Vec<u8>, should_overwrite: bool) -> KvsOperation {
    request(AsyncOperation::PutItem {
        key: Some(key),
        value,
        should_overwrite,
        key_generator_current_number: None,
    })
}

fn put_indexed(key: f64, index: &str, keys: Vec<IndexedDBKeyType>) -> KvsOperation {
    KvsOperation {
        context: KvsOperationContext {
            target: KvsOperationTarget::ObjectStore,
            index_updates: vec![KvsIndexUpdate {
                index_name: index.to_owned(),
                keys,
                record_key_placement: None,
            }],
        },
        ..put(number(key), vec![key as u8], true)
    }
}

fn get(key: f64) -> KvsOperation {
    request(AsyncOperation::GetItem { key_range: IndexedDBKeyRange::only(number(key)) })
}

fn value(reply: Reply) -> Option<Vec<u8>> {
    match reply {
        Reply::Value(Ok(value)) => value,
        other => panic!("expected a value, got {other:?}"),
    }
}

fn put_result(reply: Reply) -> PutItemResult {
    match reply {
        Reply::Put(Ok(result)) => result,
        other => panic!("expected the result of a put, got {other:?}"),
    }
}

fn put_key(reply: Reply) -> Vec<u8> {
    match put_result(reply) {
        PutItemResult::Key(key) => key.encoded,
        other => panic!("expected a key, got {other:?}"),
    }
}

fn records(reply: Reply) -> Vec<(Vec<u8>, Vec<u8>, Vec<u8>)> {
    match reply {
        Reply::Records(Ok(records)) => records
            .into_iter()
            .map(|record| (record.key.encoded, record.primary_key.encoded, record.value))
            .collect(),
        other => panic!("expected records, got {other:?}"),
    }
}

fn done(reply: Reply) {
    assert!(matches!(reply, Reply::Done(Ok(()))), "{reply:?}");
}

fn schema_done(reply: Reply) {
    assert!(matches!(reply, Reply::Schema(None)), "{reply:?}");
}

#[test]
fn test_cycle() {
    let db = Db::new();
    let db = Db { connection: open(&db.path), ..db };
    assert_eq!(db.version(), 0);
    execute(&db.connection, &stores::set_version(5)).unwrap();
    assert_eq!(db.version(), 5);
}

#[test]
fn test_create_store() {
    let db = Db::new();
    assert_eq!(db.create_store("test_store", None, true), CreateObjectResult::Created);
    // Try to create the same store again
    assert_eq!(db.create_store("test_store", None, false), CreateObjectResult::AlreadyExists);
    // Ensure store was not overwritten
    let stored = db.store("test_store").unwrap().auto_increment;
    assert_eq!(stores::key_generator_current_number(Some(stored)), Some(1));
}

#[test]
fn test_create_store_empty_name() {
    let db = Db::new();
    assert_eq!(db.create_store("", None, true), CreateObjectResult::Created);
}

#[test]
fn test_injection() {
    let db = Db::new();
    // Create a normal store
    assert_eq!(db.create_store("test_store", None, true), CreateObjectResult::Created);
    // Injection
    assert_eq!(db.create_store("' OR 1=1 -- -", None, false), CreateObjectResult::Created);
}

#[test]
fn test_key_path() {
    let db = Db::new();
    // As an enum of a text and of a list of texts is stored.
    let test: Result<String, Vec<String>> = Ok("test".to_string());
    let key_path = postcard::to_stdvec(&test).unwrap();
    db.create_store("test_store", Some(key_path.clone()), true);
    let stored = stores::key_path(db.store("test_store").ok());
    assert_eq!(stored, Some(key_path));
    assert_eq!(postcard::from_bytes(&stored.unwrap()), Ok(test));
    assert_eq!(stores::key_path(db.store("no_store").ok()), None);
}

#[test]
fn test_delete_store() {
    let db = Db::new();
    db.create_store("test_store", None, false);
    // Delete the store
    db.delete_store("test_store").expect("Failed to delete store");
    // Try to delete the same store again
    assert!(db.delete_store("test_store").is_err());
    // Try to delete a non-existing store
    assert!(db.delete_store("test_store").is_err());
}

#[test]
fn test_delete_store_removes_store_records() {
    let db = Db::new();
    db.create_store("test_store", None, false);
    let store = db.store("test_store").expect("Failed to fetch store metadata");
    put_key(db.carry_out(&db.connection, put(number(1.0), vec![1, 2, 3], true)));
    let count =
        format!("SELECT COUNT(*) FROM object_data WHERE object_store_id = {}", store.id);
    assert_eq!(db.count(&count), 1);

    db.delete_store("test_store").expect("Failed to delete store");

    assert_eq!(db.count(&count), 0);
}

#[test]
fn test_async_operations() {
    let db = Db::new();
    db.create_store("test_store", None, false);
    let mut replies = db
        .run(
            0,
            vec![
                put(number(1.0), vec![1, 2, 3], false),
                put(string("2.0"), vec![4, 5, 6], false),
                put(array(&[string("3"), number(0.0)]), vec![7, 8, 9], false),
                // Try to put a duplicate key without overwrite
                put(number(1.0), vec![10, 11, 12], false),
                put(number(1.0), vec![13, 14, 15], true),
                get(1.0),
                get(5.0),
                request(AsyncOperation::Iterate {
                    key_range: IndexedDBKeyRange::lower_bound(number(0.0), false),
                    count: None,
                    shape: RecordsShape::WithValues,
                }),
                request(AsyncOperation::Count {
                    key_range: IndexedDBKeyRange::only(number(1.0)),
                }),
                request(AsyncOperation::RemoveItem {
                    key_range: IndexedDBKeyRange::only(number(1.0)),
                }),
                request(AsyncOperation::Clear),
            ],
        )
        .into_iter();
    let mut next = || replies.next().unwrap();
    put_result(next());
    put_result(next());
    put_result(next());
    assert!(matches!(put_result(next()), PutItemResult::CannotOverwrite));
    assert_eq!(put_key(next()), number(1.0).encoded);
    assert_eq!(value(next()), Some(vec![13, 14, 15]));
    assert_eq!(value(next()), None);
    let all_items: Vec<Vec<u8>> = records(next()).into_iter().map(|record| record.2).collect();
    assert_eq!(all_items.len(), 3);
    // Check that all three items are present
    assert!(all_items.contains(&vec![13, 14, 15]));
    assert!(all_items.contains(&vec![4, 5, 6]));
    assert!(all_items.contains(&vec![7, 8, 9]));
    assert!(matches!(next(), Reply::Count(Ok(1))));
    done(next());
    done(next());
    assert_eq!(db.count("SELECT COUNT(*) FROM object_data"), 0);
}

#[test]
fn test_delete_item_range_respects_open_bounds() {
    fn remaining_keys_after_delete(
        lower: i32,
        upper: i32,
        lower_open: bool,
        upper_open: bool,
    ) -> Vec<i32> {
        let db = Db::new();
        db.create_store("test_store", None, false);
        for key in 1..=10 {
            put_key(db.carry_out(&db.connection, put(number(key as f64), vec![key as u8], false)));
        }
        done(db.carry_out(
            &db.connection,
            request(AsyncOperation::RemoveItem {
                key_range: IndexedDBKeyRange::new(
                    Some(number(lower as f64)),
                    Some(number(upper as f64)),
                    lower_open,
                    upper_open,
                ),
            }),
        ));
        let remaining = db.carry_out(
            &db.connection,
            request(AsyncOperation::Iterate {
                key_range: IndexedDBKeyRange::default(),
                count: None,
                shape: RecordsShape::KeysOnly,
            }),
        );
        records(remaining).iter().map(|record| key_number(&record.0)).collect()
    }

    assert_eq!(remaining_keys_after_delete(3, 8, false, false), vec![1, 2, 9, 10]);
    assert_eq!(remaining_keys_after_delete(3, 8, true, false), vec![1, 2, 3, 9, 10]);
    assert_eq!(remaining_keys_after_delete(3, 8, false, true), vec![1, 2, 8, 9, 10]);
    assert_eq!(remaining_keys_after_delete(3, 8, true, true), vec![1, 2, 3, 8, 9, 10]);
}

#[test]
fn test_rollback_transaction_undoes_a_readwrite_transaction() {
    let db = Db::new();
    db.create_store("test_store", None, false);
    db.run(1, vec![put(number(1.0), vec![1, 2, 3], true), put(number(3.0), vec![7, 8, 9], true)]);
    db.commit(1);

    db.run(
        2,
        vec![
            put(number(1.0), vec![9, 9, 9], true),
            put(number(2.0), vec![4, 5, 6], true),
            request(AsyncOperation::RemoveItem { key_range: IndexedDBKeyRange::only(number(3.0)) }),
        ],
    );
    db.roll_back(2).expect("Failed to roll back");

    let read = |key: f64| value(db.run(3, vec![get(key)]).remove(0));
    assert_eq!(read(1.0), Some(vec![1, 2, 3]), "an overwrite was undone");
    assert_eq!(read(2.0), None, "an added record was undone");
    assert_eq!(read(3.0), Some(vec![7, 8, 9]), "a removal was undone");
}

#[test]
fn a_rollback_undoes_index_records_and_clears_its_log() {
    let db = Db::new();
    db.create_store("test_store", None, false);
    schema_done(db.carry_out(&db.connection, create_index("by_size", false)));
    db.run(1, vec![put_indexed(1.0, "by_size", vec![number(10.0)])]);
    db.commit(1);
    assert_eq!(db.count("SELECT COUNT(*) FROM undo_log"), 0);

    db.run(
        2,
        vec![put_indexed(1.0, "by_size", vec![number(20.0)]), request(AsyncOperation::Clear)],
    );
    assert!(db.count("SELECT COUNT(*) FROM undo_log") > 0);
    db.roll_back(2).unwrap();
    assert_eq!(db.count("SELECT COUNT(*) FROM undo_log"), 0);

    let found = records(db.run(3, vec![all_of("by_size")]).remove(0));
    assert_eq!(found, vec![(number(10.0).encoded, number(1.0).encoded, vec![1])]);
}

#[test]
fn a_rollback_that_fails_reports_it_and_changes_nothing() {
    let db = Db::new();
    db.create_store("test_store", None, false);
    db.run(1, vec![put(number(1.0), vec![1], true)]);
    db.connection
        .execute("INSERT INTO undo_log (transaction_serial, statement) VALUES (1, 'no sql')", [])
        .unwrap();
    assert!(matches!(db.roll_back(1), Err(EngineError::Sql(_))));
    assert_eq!(value(db.run(2, vec![get(1.0)]).remove(0)), Some(vec![1]));
    assert!(db.connection.is_autocommit());
}

fn create_index(name: &str, unique: bool) -> KvsOperation {
    request(AsyncOperation::CreateIndex {
        index_name: name.to_owned(),
        key_path: vec![1],
        unique,
        multi_entry: false,
    })
}

fn all_of(index: &str) -> KvsOperation {
    on_index(
        index,
        AsyncOperation::Iterate {
            key_range: IndexedDBKeyRange::default(),
            count: None,
            shape: RecordsShape::WithValues,
        },
    )
}

#[test]
fn index_requests_read_the_records_of_the_index() {
    let db = Db::new();
    db.create_store("test_store", None, false);
    let mut replies = db
        .run(
            1,
            vec![
                create_index("by_size", false),
                put_indexed(1.0, "by_size", vec![number(30.0)]),
                put_indexed(2.0, "by_size", vec![number(10.0)]),
                put_indexed(3.0, "by_size", vec![number(10.0), number(20.0)]),
                all_of("by_size"),
                on_index(
                    "by_size",
                    AsyncOperation::GetItem { key_range: IndexedDBKeyRange::only(number(10.0)) },
                ),
                on_index(
                    "by_size",
                    AsyncOperation::GetKey {
                        key_range: IndexedDBKeyRange::lower_bound(number(10.0), true),
                    },
                ),
                on_index(
                    "by_size",
                    AsyncOperation::Count { key_range: IndexedDBKeyRange::only(number(10.0)) },
                ),
                on_index(
                    "by_size",
                    AsyncOperation::Iterate {
                        key_range: IndexedDBKeyRange::default(),
                        count: Some(2),
                        shape: RecordsShape::KeysOnly,
                    },
                ),
                request(AsyncOperation::DeleteIndex { index_name: "by_size".to_owned() }),
                all_of("by_size"),
            ],
        )
        .into_iter();
    let mut next = || replies.next().unwrap();
    schema_done(next());
    put_key(next());
    put_key(next());
    put_key(next());
    let pairs: Vec<(i32, i32)> = records(next())
        .iter()
        .map(|record| (key_number(&record.0), key_number(&record.1)))
        .collect();
    assert_eq!(pairs, vec![(10, 2), (10, 3), (20, 3), (30, 1)]);
    assert_eq!(value(next()), Some(vec![2]));
    match next() {
        Reply::Key(Ok(Some(key))) => assert_eq!(key_number(&key.encoded), 3),
        other => panic!("expected a key, got {other:?}"),
    }
    assert!(matches!(next(), Reply::Count(Ok(2))));
    let first = records(next());
    assert_eq!(first.len(), 2);
    assert!(first.iter().all(|record| record.2.is_empty()));
    schema_done(next());
    match next() {
        Reply::Records(Ok(records)) => assert!(records.is_empty()),
        Reply::Records(Err(_)) => {},
        other => panic!("expected records, got {other:?}"),
    }
    assert_eq!(db.count("SELECT COUNT(*) FROM index_data"), 0);
}

#[test]
fn a_unique_index_holds_a_key_for_one_record() {
    let db = Db::new();
    db.create_store("test_store", None, false);
    let mut replies = db
        .run(
            1,
            vec![
                create_index("by_name", true),
                put_indexed(1.0, "by_name", vec![string("a")]),
                put_indexed(2.0, "by_name", vec![string("b"), string("a")]),
                put_indexed(1.0, "by_name", vec![string("a")]),
                get(2.0),
            ],
        )
        .into_iter();
    let mut next = || replies.next().unwrap();
    schema_done(next());
    put_key(next());
    match put_result(next()) {
        PutItemResult::IndexConstraintViolated(name) => assert_eq!(name, "by_name"),
        other => panic!("expected a violation, got {other:?}"),
    }
    put_key(next());
    assert_eq!(value(next()), None);
    assert_eq!(db.count("SELECT COUNT(*) FROM unique_index_data"), 1);
}

#[test]
fn a_new_index_is_filled_from_the_records() {
    let db = Db::new();
    db.create_store("test_store", None, false);
    let entry = |key: f64, keys: Vec<IndexedDBKeyType>| IndexBackfillEntry {
        primary_key: number(key),
        keys,
    };
    let mut replies = db
        .run(
            1,
            vec![
                put(number(1.0), vec![1], false),
                put(number(2.0), vec![2], false),
                create_index("plain", false),
                create_index("unique", true),
                request(AsyncOperation::BackfillIndex {
                    index_name: "plain".to_owned(),
                    entries: vec![
                        entry(1.0, vec![string("x")]),
                        entry(2.0, vec![string("x"), string("y")]),
                    ],
                }),
                request(AsyncOperation::BackfillIndex {
                    index_name: "unique".to_owned(),
                    entries: vec![entry(1.0, vec![string("x")]), entry(2.0, vec![string("x")])],
                }),
                all_of("plain"),
            ],
        )
        .into_iter();
    let mut next = || replies.next().unwrap();
    put_key(next());
    put_key(next());
    schema_done(next());
    schema_done(next());
    assert!(matches!(next(), Reply::Backfill(Ok(BackfillIndexResult::Done))));
    assert!(matches!(
        next(),
        Reply::Backfill(Ok(BackfillIndexResult::UniqueConstraintViolated))
    ));
    assert_eq!(records(next()).len(), 3);
}

#[test]
fn a_key_generator_gives_each_number_once() {
    let db = Db::new();
    db.create_store("test_store", None, true);
    let generated = || {
        request(AsyncOperation::PutItem {
            key: None,
            value: vec![0],
            should_overwrite: false,
            key_generator_current_number: None,
        })
    };
    let explicit = request(AsyncOperation::PutItem {
        key: Some(number(7.0)),
        value: vec![0],
        should_overwrite: false,
        key_generator_current_number: Some(8),
    });
    let mut replies = db.run(1, vec![generated(), generated(), explicit, generated()]).into_iter();
    let mut next = || key_number(&put_key(replies.next().unwrap()));
    assert_eq!(next(), 1);
    assert_eq!(next(), 2);
    assert_eq!(next(), 7);
    assert_eq!(next(), 8);

    let name = "test_store".to_owned();
    let statement =
        stores::set_key_generator_current_number(&name, GENERATOR_MAXIMUM + 1, true).unwrap();
    execute(&db.connection, &statement).unwrap();
    let reply = db.run(2, vec![generated()]).remove(0);
    assert!(matches!(put_result(reply), PutItemResult::KeyGeneratorExhausted));
}

#[test]
fn a_generated_key_fills_the_index_keys_that_wait_for_it() {
    let db = Db::new();
    db.create_store("test_store", Some(vec![1]), true);
    let update = |name: &str, keys: Vec<IndexedDBKeyType>, placement| KvsIndexUpdate {
        index_name: name.to_owned(),
        keys,
        record_key_placement: placement,
    };
    let sequence = vec![None, Some(string("b")), None];
    let put = KvsOperation {
        context: KvsOperationContext {
            target: KvsOperationTarget::ObjectStore,
            index_updates: vec![
                update("plain", vec![number(9.0)], None),
                update("whole", Vec::new(), Some(RecordKeyPlacement::WholeKey)),
                update("parts", Vec::new(), Some(RecordKeyPlacement::InSequence(sequence))),
            ],
        },
        ..request(AsyncOperation::PutItem {
            key: None,
            value: vec![5],
            should_overwrite: false,
            key_generator_current_number: None,
        })
    };
    let mut replies = db
        .run(
            1,
            vec![
                create_index("plain", false),
                create_index("whole", true),
                create_index("parts", false),
                put,
                all_of("plain"),
                all_of("whole"),
                all_of("parts"),
            ],
        )
        .into_iter()
        .skip(3);
    let mut next = || replies.next().unwrap();
    let own = number(1.0);
    assert_eq!(put_key(next()), own.encoded);
    let indexed = |key: IndexedDBKeyType| vec![(key.encoded, own.encoded.clone(), vec![5])];
    assert_eq!(records(next()), indexed(number(9.0)));
    assert_eq!(records(next()), indexed(number(1.0)));
    assert_eq!(records(next()), indexed(array(&[number(1.0), string("b"), number(1.0)])));
}

#[test]
fn stored_bytes_that_are_no_key_fail_the_request() {
    let db = Db::new();
    db.create_store("test_store", None, false);
    let corrupt = IndexedDBKeyType { encoded: vec![0xff] };
    let text = "FromSqlConversionFailure(0, Blob, Custom { kind: InvalidData, error: \"stored IndexedDB key is not decodable\" })";
    let error = rusqlite::Error::FromSqlConversionFailure(
        0,
        rusqlite::types::Type::Blob,
        Box::new(std::io::Error::new(
            std::io::ErrorKind::InvalidData,
            "stored IndexedDB key is not decodable",
        )),
    );
    assert_eq!(format!("{error:?}"), text);
    assert_eq!(corrupt_storage("key").description(), text);

    let all = || AsyncOperation::Iterate {
        key_range: IndexedDBKeyRange::default(),
        count: None,
        shape: RecordsShape::WithValues,
    };
    let only = || IndexedDBKeyRange::only(IndexedDBKeyType { encoded: vec![0xff] });
    let of_index = || IndexedDBKeyRange::only(number(3.0));
    let mut indexed = put_indexed(1.0, "by_size", vec![number(3.0)]);
    indexed.operation = put(corrupt, vec![7], true).operation;
    let mut replies = db
        .run(
            1,
            vec![
                create_index("by_size", false),
                put(number(1.0), vec![1], true),
                indexed,
                request(all()),
                on_index("by_size", all()),
                request(AsyncOperation::GetKey { key_range: only() }),
                on_index("by_size", AsyncOperation::GetKey { key_range: of_index() }),
                request(AsyncOperation::GetItem { key_range: only() }),
                on_index("by_size", AsyncOperation::GetItem { key_range: of_index() }),
                get(1.0),
                request(AsyncOperation::RemoveItem { key_range: only() }),
                request(all()),
            ],
        )
        .into_iter()
        .skip(3);
    let mut next = || replies.next().unwrap();
    for _ in 0..2 {
        match next() {
            Reply::Records(Err(BackendError::DbErr(reported))) => assert_eq!(reported, text),
            other => panic!("expected an error, got {other:?}"),
        }
    }
    for _ in 0..2 {
        match next() {
            Reply::Key(Err(BackendError::DbErr(reported))) => assert_eq!(reported, text),
            other => panic!("expected an error, got {other:?}"),
        }
    }
    assert_eq!(value(next()), Some(vec![7]));
    assert_eq!(value(next()), Some(vec![7]));
    assert_eq!(value(next()), Some(vec![1]));
    done(next());
    assert_eq!(records(next()).len(), 1);
}

#[test]
fn stored_bytes_that_are_no_key_path_are_an_error() {
    let read = stores::decoded_key_path(Some(StoredKeyPath::String("id".to_owned())));
    assert!(matches!(read, Ok(StoredKeyPath::String(path)) if path == "id"));
    let text = stores::decoded_key_path(None).unwrap_err().description();
    assert!(text.contains("stored IndexedDB key path is not decodable"));
}

#[test]
fn a_put_without_a_key_needs_a_generator() {
    let db = Db::new();
    db.create_store("test_store", None, false);
    let reply = db.run(
        1,
        vec![request(AsyncOperation::PutItem {
            key: None,
            value: vec![0],
            should_overwrite: false,
            key_generator_current_number: None,
        })],
    );
    match &reply[0] {
        Reply::Put(Err(BackendError::DbErr(text))) => {
            assert_eq!(text, "Missing key for PutItem request");
        },
        other => panic!("expected a refusal, got {other:?}"),
    }
}

#[test]
fn a_request_to_an_unknown_store_is_refused() {
    let db = Db::new();
    let reply = db.run(1, vec![get(1.0)]).remove(0);
    assert!(matches!(reply, Reply::Refused(BackendError::StoreNotFound)));
}

#[test]
fn a_failing_statement_is_reported_to_its_request() {
    let db = Db::new();
    db.create_store("test_store", None, false);
    db.connection.execute("DROP TABLE object_data", []).unwrap();
    let reply = db.carry_out(&db.connection, get(1.0));
    assert!(matches!(reply, Reply::Value(Err(BackendError::DbErr(_)))));
}

#[test]
fn schema_requests_create_rename_and_delete() {
    let db = Db::new();
    let mut replies = db
        .run(
            1,
            vec![
                request(AsyncOperation::CreateObjectStore { key_path: None, auto_increment: false }),
                request(AsyncOperation::CreateObjectStore { key_path: None, auto_increment: true }),
                create_index("first", false),
                create_index("first", true),
                request(AsyncOperation::RenameIndex {
                    index_name: "first".to_owned(),
                    new_name: "second".to_owned(),
                }),
                request(AsyncOperation::RenameObjectStore { new_name: "renamed".to_owned() }),
                get(1.0),
            ],
        )
        .into_iter();
    let mut next = || replies.next().unwrap();
    for _ in 0..6 {
        schema_done(next());
    }
    assert!(matches!(next(), Reply::Refused(BackendError::StoreNotFound)));
    let store = db.store("renamed").unwrap();
    assert_eq!(store.auto_increment, 0);
    let statement = stores::indexes_of(&store);
    let rows = vec![optional(&db.connection, &statement, index_row).unwrap().unwrap()];
    let indexes = stores::indexes(rows);
    assert_eq!(indexes[0].name, "second");
    assert!(!indexes[0].unique);

    let mut delete = request(AsyncOperation::DeleteObjectStore);
    delete.store_name = "renamed".to_owned();
    schema_done(db.carry_out(&db.connection, delete));
    assert_eq!(db.count("SELECT COUNT(*) FROM object_store"), 0);
    assert_eq!(db.count("SELECT COUNT(*) FROM object_store_index"), 0);
    let names = stores::object_store_names();
    assert!(optional(&db.connection, &names, |_| Ok(())).unwrap().is_none());
}

#[test]
fn a_transaction_that_cannot_run_refuses_all_its_requests() {
    let requests =
        vec![KvsOperation { callback: 4, ..get(1.0) }, KvsOperation { callback: 9, ..get(2.0) }];
    let error = SqlError { disk_full: false, description: "no database".to_owned() };
    let answers = refuse_all(&requests, &error);
    assert_eq!(answers.len(), 2);
    assert_eq!(answers[0].0, 4);
    assert_eq!(answers[1].0, 9);
    for (_, answer) in answers {
        assert!(matches!(answer, BackendError::DbErr(text) if text == "no database"));
    }
}

#[test]
fn every_request_of_a_transaction_is_answered_in_order() {
    let db = Db::new();
    db.create_store("test_store", None, false);
    let mut requests = vec![
        put(number(1.0), vec![1], true),
        KvsOperation { store_name: "lost".to_owned(), ..get(1.0) },
        create_index("by_size", false),
        get(1.0),
    ];
    for (channel, request) in (10..).zip(&mut requests) {
        request.callback = channel;
    }
    let (mut run, mut step) = TransactionRun::begin(requests, Ok(()));
    let mut sent = Vec::new();
    loop {
        sent.extend(step.sends);
        step = match step.next {
            RunNext::CarryOut(request) => run.resume(db.carry_out(&db.connection, request)),
            RunNext::Complete => break,
        };
    }
    assert_eq!(run.answered, vec![10, 11, 12, 13]);
    // The index was created, and a schema request hears of a failure only.
    let channels: Vec<u64> = sent.iter().map(|(channel, _)| *channel).collect();
    assert_eq!(channels, vec![10, 11, 13]);
    assert!(matches!(sent[1].1, Reply::Refused(BackendError::StoreNotFound)));
    assert!(matches!(&sent[2].1, Reply::Value(Ok(Some(value))) if *value == vec![1]));

    let (run, step) = TransactionRun::begin(Vec::new(), Ok(()));
    assert!(matches!(step.next, RunNext::Complete));
    assert!(run.answered.is_empty());

    let error = SqlError { disk_full: false, description: "no connection".to_owned() };
    let refused = vec![get(1.0), get(2.0)];
    let (run, step) = TransactionRun::begin(refused, Err(error));
    assert!(matches!(step.next, RunNext::Complete));
    assert_eq!((run.answered.len(), step.sends.len()), (2, 2));
    assert!(step.sends.iter().all(|(_, reply)| matches!(
        reply,
        Reply::Refused(BackendError::DbErr(text)) if text == "no connection"
    )));
}

#[test]
fn a_full_disk_exceeds_the_quota() {
    let full = SqlError { disk_full: true, description: "full".to_owned() };
    assert!(matches!(
        backend_error_from_sqlite_error(EngineError::Sql(full)),
        BackendError::QuotaExceeded
    ));
    let other = backend_error_from_sqlite_error(EngineError::QueryReturnedNoRows);
    assert!(matches!(other, BackendError::DbErr(text) if text == "QueryReturnedNoRows"));
}

#[test]
fn only_readwrite_transactions_are_undone_row_by_row() {
    for (mode, on_read_pool, undo_logged) in [
        (IndexedDBTxnMode::Readonly, true, false),
        (IndexedDBTxnMode::Readwrite, false, true),
        (IndexedDBTxnMode::Versionchange, false, false),
    ] {
        let plan = plan_transaction(mode);
        assert_eq!(plan.on_read_pool, on_read_pool);
        assert_eq!(plan.undo_logged, undo_logged);
    }
}

#[test]
fn large_numbers_are_stored_by_their_bits() {
    for number in [0, 1, i64::MAX as u64, 1 << 63, u64::MAX] {
        assert_eq!(signed_serial(number), number as i64);
        assert_eq!(unsigned_value(number as i64), number);
    }
    let db = Db::new();
    execute(&db.connection, &stores::set_version(u64::MAX)).unwrap();
    assert_eq!(db.version(), u64::MAX);
}

#[test]
fn undone_rows_are_found_by_their_key_columns() {
    let tables = undo_logged_tables();
    let objects = tables.iter().find(|table| table.name == "object_data").unwrap();
    assert_eq!(
        undo_where_clause(objects, "new"),
        "' WHERE object_store_id=' || quote(new.object_store_id) || ' AND key=' || quote(new.key)"
    );
}
