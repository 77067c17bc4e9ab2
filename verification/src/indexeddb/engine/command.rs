//! The writes of the engine: each as the statement that carries it out, and as what it does to
//! the tables.

use vstd::prelude::*;
use vstd::string::*;

use crate::indexeddb::engine::model::{
    index_table_name, table_for, values_view, Statement, StatementView, Value, ValueView,
};
use crate::indexeddb::key::copy_bytes;

verus! {

/// One write to the tables that hold records.
#[derive(Debug)]
pub enum Command {
    /// Adds an object under a key that the store does not have.
    InsertObject { store_id: i32, key: Vec<u8>, data: Vec<u8> },
    /// Replaces the object under a key.
    UpdateObject { store_id: i32, key: Vec<u8>, data: Vec<u8> },
    /// Drops every object of a store.
    ClearObjects { store_id: i32 },
    /// Writes an index record, replacing the one with the same primary key of its table.
    PutIndexRecord {
        unique: bool,
        index_id: i32,
        value: Vec<u8>,
        store_id: i32,
        primary_key: Vec<u8>,
    },
    /// Drops the index records of a table that point at an object.
    DropRecordsOfObject { unique: bool, store_id: i32, primary_key: Vec<u8> },
    /// Drops the index records of a table that point into a store.
    DropRecordsOfStore { unique: bool, store_id: i32 },
    /// Drops the records of an index.
    DropRecordsOfIndex { unique: bool, index_id: i32 },
    /// Sets the current number of a store's key generator.
    SetGenerator { store_id: i32, number: i64 },
}

/// What a write is.
pub enum Write {
    InsertObject { store_id: int, key: Seq<u8>, data: Seq<u8> },
    UpdateObject { store_id: int, key: Seq<u8>, data: Seq<u8> },
    ClearObjects { store_id: int },
    PutIndexRecord {
        unique: bool,
        index_id: int,
        value: Seq<u8>,
        store_id: int,
        primary_key: Seq<u8>,
    },
    DropRecordsOfObject { unique: bool, store_id: int, primary_key: Seq<u8> },
    DropRecordsOfStore { unique: bool, store_id: int },
    DropRecordsOfIndex { unique: bool, index_id: int },
    SetGenerator { store_id: int, number: int },
}

impl View for Command {
    type V = Write;

    open spec fn view(&self) -> Write {
        match self {
            Command::InsertObject { store_id, key, data } => Write::InsertObject {
                store_id: *store_id as int,
                key: key@,
                data: data@,
            },
            Command::UpdateObject { store_id, key, data } => Write::UpdateObject {
                store_id: *store_id as int,
                key: key@,
                data: data@,
            },
            Command::ClearObjects { store_id } => Write::ClearObjects { store_id: *store_id as int },
            Command::PutIndexRecord { unique, index_id, value, store_id, primary_key } => {
                Write::PutIndexRecord {
                    unique: *unique,
                    index_id: *index_id as int,
                    value: value@,
                    store_id: *store_id as int,
                    primary_key: primary_key@,
                }
            },
            Command::DropRecordsOfObject { unique, store_id, primary_key } => {
                Write::DropRecordsOfObject {
                    unique: *unique,
                    store_id: *store_id as int,
                    primary_key: primary_key@,
                }
            },
            Command::DropRecordsOfStore { unique, store_id } => Write::DropRecordsOfStore {
                unique: *unique,
                store_id: *store_id as int,
            },
            Command::DropRecordsOfIndex { unique, index_id } => Write::DropRecordsOfIndex {
                unique: *unique,
                index_id: *index_id as int,
            },
            Command::SetGenerator { store_id, number } => Write::SetGenerator {
                store_id: *store_id as int,
                number: *number as int,
            },
        }
    }
}

/// What each of the writes is.
pub open spec fn writes(commands: Seq<Command>) -> Seq<Write> {
    commands.map_values(|command: Command| command@)
}

/// Adds a write at the end.
pub(crate) fn push_command(commands: &mut Vec<Command>, command: Command)
    ensures
        writes(final(commands)@) == writes(old(commands)@).push(command@),
{
    let ghost before = commands@;
    commands.push(command);
    assert(writes(commands@) =~= writes(before).push(command@));
}

impl Write {
    /// The statement that carries the write out.
    pub open spec fn statement(self) -> StatementView {
        match self {
            Write::InsertObject { store_id, key, data } => StatementView {
                sql: "INSERT INTO object_data (object_store_id, key, data) VALUES (?, ?, ?)"@,
                values: seq![
                    ValueView::Integer(store_id),
                    ValueView::Blob(key),
                    ValueView::Blob(data),
                ],
            },
            Write::UpdateObject { store_id, key, data } => StatementView {
                sql: "UPDATE object_data SET data = ? WHERE object_store_id = ? AND key = ?"@,
                values: seq![
                    ValueView::Blob(data),
                    ValueView::Integer(store_id),
                    ValueView::Blob(key),
                ],
            },
            Write::ClearObjects { store_id } => StatementView {
                sql: "DELETE FROM object_data WHERE object_store_id = ?"@,
                values: seq![ValueView::Integer(store_id)],
            },
            Write::PutIndexRecord { unique, index_id, value, store_id, primary_key } => {
                StatementView {
                    sql: "INSERT OR REPLACE INTO "@ + index_table_name(unique)
                        + " (index_id, value, object_store_id, object_data_key) VALUES (?, ?, ?, ?)"@,
                    values: seq![
                        ValueView::Integer(index_id),
                        ValueView::Blob(value),
                        ValueView::Integer(store_id),
                        ValueView::Blob(primary_key),
                    ],
                }
            },
            Write::DropRecordsOfObject { unique, store_id, primary_key } => StatementView {
                sql: "DELETE FROM "@ + index_table_name(unique)
                    + " WHERE object_store_id = ? AND object_data_key = ?"@,
                values: seq![ValueView::Integer(store_id), ValueView::Blob(primary_key)],
            },
            Write::DropRecordsOfStore { unique, store_id } => StatementView {
                sql: "DELETE FROM "@ + index_table_name(unique) + " WHERE object_store_id = ?"@,
                values: seq![ValueView::Integer(store_id)],
            },
            Write::DropRecordsOfIndex { unique, index_id } => StatementView {
                sql: "DELETE FROM "@ + index_table_name(unique) + " WHERE index_id = ?"@,
                values: seq![ValueView::Integer(index_id)],
            },
            Write::SetGenerator { store_id, number } => StatementView {
                sql: "UPDATE object_store SET auto_increment = ? WHERE id = ?"@,
                values: seq![ValueView::Integer(number), ValueView::Integer(store_id)],
            },
        }
    }
}

/// A statement over an index table: the text before the table's name, and the text after it.
fn table_sql(before: &str, unique: bool, after: &str) -> (sql: String)
    ensures
        sql@ == before@ + index_table_name(unique) + after@,
{
    let mut sql = before.to_owned();
    sql.append(table_for(unique));
    sql.append(after);
    sql
}

fn integer(number: i32) -> (value: Value)
    ensures
        value@ == ValueView::Integer(number as int),
{
    Value::Integer(number as i64)
}

fn blob(bytes: &Vec<u8>) -> (value: Value)
    ensures
        value@ == ValueView::Blob(bytes@),
{
    Value::Blob(copy_bytes(bytes))
}

impl Command {
    /// The statement that carries the write out.
    pub fn statement(&self) -> (statement: Statement)
        ensures
            statement@ == self@.statement(),
    {
        let statement = match self {
            Command::InsertObject { store_id, key, data } => Statement {
                sql: "INSERT INTO object_data (object_store_id, key, data) VALUES (?, ?, ?)".to_owned(),
                values: vec![integer(*store_id), blob(key), blob(data)],
            },
            Command::UpdateObject { store_id, key, data } => Statement {
                sql: "UPDATE object_data SET data = ? WHERE object_store_id = ? AND key = ?".to_owned(),
                values: vec![blob(data), integer(*store_id), blob(key)],
            },
            Command::ClearObjects { store_id } => Statement {
                sql: "DELETE FROM object_data WHERE object_store_id = ?".to_owned(),
                values: vec![integer(*store_id)],
            },
            Command::PutIndexRecord { unique, index_id, value, store_id, primary_key } => {
                Statement {
                    sql: table_sql(
                        "INSERT OR REPLACE INTO ",
                        *unique,
                        " (index_id, value, object_store_id, object_data_key) VALUES (?, ?, ?, ?)",
                    ),
                    values: vec![
                        integer(*index_id),
                        blob(value),
                        integer(*store_id),
                        blob(primary_key),
                    ],
                }
            },
            Command::DropRecordsOfObject { unique, store_id, primary_key } => Statement {
                sql: table_sql(
                    "DELETE FROM ",
                    *unique,
                    " WHERE object_store_id = ? AND object_data_key = ?",
                ),
                values: vec![integer(*store_id), blob(primary_key)],
            },
            Command::DropRecordsOfStore { unique, store_id } => Statement {
                sql: table_sql("DELETE FROM ", *unique, " WHERE object_store_id = ?"),
                values: vec![integer(*store_id)],
            },
            Command::DropRecordsOfIndex { unique, index_id } => Statement {
                sql: table_sql("DELETE FROM ", *unique, " WHERE index_id = ?"),
                values: vec![integer(*index_id)],
            },
            Command::SetGenerator { store_id, number } => Statement {
                sql: "UPDATE object_store SET auto_increment = ? WHERE id = ?".to_owned(),
                values: vec![Value::Integer(*number), integer(*store_id)],
            },
        };
        assert(values_view(statement.values@) =~= self@.statement().values);
        statement
    }
}

} // verus!
