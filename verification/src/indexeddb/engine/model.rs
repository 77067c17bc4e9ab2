//! The rows, statements and errors of the engine.

use vstd::prelude::*;
use vstd::string::*;

use crate::indexeddb::key::IndexedDBKeyType;

verus! {

/// A value bound to a statement.
#[derive(Debug)]
pub enum Value {
    Null,
    Integer(i64),
    Text(String),
    Blob(Vec<u8>),
}

/// What a bound value is.
pub enum ValueView {
    Null,
    Integer(int),
    Text(Seq<char>),
    Blob(Seq<u8>),
}

impl View for Value {
    type V = ValueView;

    open spec fn view(&self) -> ValueView {
        match self {
            Value::Null => ValueView::Null,
            Value::Integer(number) => ValueView::Integer(*number as int),
            Value::Text(text) => ValueView::Text(text@),
            Value::Blob(bytes) => ValueView::Blob(bytes@),
        }
    }
}

/// What each of the bound values is.
pub open spec fn values_view(values: Seq<Value>) -> Seq<ValueView> {
    values.map_values(|value: Value| value@)
}

/// A statement with its values.
#[derive(Debug)]
pub struct Statement {
    pub sql: String,
    pub values: Vec<Value>,
}

/// What a statement says.
pub struct StatementView {
    pub sql: Seq<char>,
    pub values: Seq<ValueView>,
}

impl View for Statement {
    type V = StatementView;

    open spec fn view(&self) -> StatementView {
        StatementView { sql: self.sql@, values: values_view(self.values@) }
    }
}

/// A row of `object_store`.
#[derive(Debug)]
pub struct StoreModel {
    pub id: i32,
    pub name: String,
    pub key_path: Option<Vec<u8>>,
    /// The key generator's current number; zero for a store without a key generator.
    pub auto_increment: i64,
}

/// A row of `object_store_index`.
#[derive(Debug)]
pub struct IndexModel {
    pub id: i32,
    pub object_store_id: i32,
    pub name: String,
    pub key_path: Vec<u8>,
    pub unique_index: bool,
    pub multi_entry_index: bool,
}

/// The table that holds the records of an index: `unique_index_data` for a unique index, whose
/// primary key rejects a second primary key for the same index key, and `index_data` otherwise.
pub open spec fn index_table_name(unique: bool) -> Seq<char> {
    if unique {
        "unique_index_data"@
    } else {
        "index_data"@
    }
}

/// The table that holds the records of an index.
pub fn index_table(index: &IndexModel) -> (table: &'static str)
    ensures
        table@ == index_table_name(index.unique_index),
{
    table_for(index.unique_index)
}

pub(crate) fn table_for(unique: bool) -> (table: &'static str)
    ensures
        table@ == index_table_name(unique),
{
    if unique {
        "unique_index_data"
    } else {
        "index_data"
    }
}

/// A failed statement, as the database describes it.
#[derive(Debug)]
pub struct SqlError {
    /// The database reported that the disk is full.
    pub disk_full: bool,
    pub description: String,
}

/// Why an operation of the engine failed.
#[derive(Debug)]
pub enum EngineError {
    /// A row that had to be there was not.
    QueryReturnedNoRows,
    /// One row was expected and more came.
    QueryReturnedMoreThanOneRow,
    Sql(SqlError),
}

/// Why a request failed, as it is told to the page's process.
#[derive(Debug)]
pub enum BackendError {
    StoreNotFound,
    QuotaExceeded,
    DbErr(String),
}

impl EngineError {
    /// How the error is described.
    pub open spec fn text(self) -> Seq<char> {
        match self {
            EngineError::QueryReturnedNoRows => "QueryReturnedNoRows"@,
            EngineError::QueryReturnedMoreThanOneRow => "QueryReturnedMoreThanOneRow"@,
            EngineError::Sql(error) => error.description@,
        }
    }

    /// How the error is described.
    pub fn description(self) -> (text: String)
        ensures
            text@ == self.text(),
    {
        match self {
            EngineError::QueryReturnedNoRows => "QueryReturnedNoRows".to_owned(),
            EngineError::QueryReturnedMoreThanOneRow => "QueryReturnedMoreThanOneRow".to_owned(),
            EngineError::Sql(error) => error.description,
        }
    }
}

/// How bytes in the database that cannot be read are described: a conversion of a blob that failed,
/// with what the blob was to hold.
pub open spec fn corrupt_storage_text(what: Seq<char>) -> Seq<char> {
    "FromSqlConversionFailure(0, Blob, Custom { kind: InvalidData, error: \"stored IndexedDB "@
        + what + " is not decodable\" })"@
}

/// The error says that stored bytes cannot be read.
pub open spec fn is_corrupt_storage(error: EngineError, what: Seq<char>) -> bool {
    error matches EngineError::Sql(sql) && !sql.disk_full && sql.description@
        == corrupt_storage_text(what)
}

/// Bytes in the database that cannot be read are corrupt storage. The request fails with them, as
/// with any statement that fails.
pub fn corrupt_storage(what: &str) -> (error: EngineError)
    ensures
        is_corrupt_storage(error, what@),
{
    let mut description: String =
        "FromSqlConversionFailure(0, Blob, Custom { kind: InvalidData, error: \"stored IndexedDB ".to_owned();
    description.append(what);
    description.append(" is not decodable\" })");
    EngineError::Sql(SqlError { disk_full: false, description })
}

/// The error that a failed engine call is reported as: a full disk is an exceeded quota, anything
/// else a database error with its description.
pub fn backend_error_from_sqlite_error(error: EngineError) -> (reported: BackendError)
    ensures
        match error {
            EngineError::Sql(sql) if sql.disk_full => reported is QuotaExceeded,
            _ => reported matches BackendError::DbErr(text) && text@ == error.text(),
        },
{
    match error {
        EngineError::Sql(error) => if error.disk_full {
            BackendError::QuotaExceeded
        } else {
            BackendError::DbErr(error.description)
        },
        other => BackendError::DbErr(other.description()),
    }
}

/// The error that a failed request of a transaction is answered with: always a database error.
pub fn request_error(error: EngineError) -> (reported: BackendError)
    ensures
        reported matches BackendError::DbErr(text) && text@ == error.text(),
{
    BackendError::DbErr(error.description())
}

/// What came of a `put`.
#[derive(Debug)]
pub enum PutItemResult {
    /// The record is stored under this key.
    Key(IndexedDBKeyType),
    /// A record has the key already, and the request does not overwrite.
    CannotOverwrite,
    /// The unique index of this name holds the key for another record.
    IndexConstraintViolated(String),
    /// The key generator has no number left.
    KeyGeneratorExhausted,
}

/// What came of creating a store or an index.
#[derive(Clone, Copy, Debug, PartialEq, Eq, Structural)]
pub enum CreateObjectResult {
    Created,
    AlreadyExists,
}

/// What came of filling a new index.
#[derive(Clone, Copy, Debug, PartialEq, Eq, Structural)]
pub enum BackfillIndexResult {
    Done,
    UniqueConstraintViolated,
}

} // verus!
