//! Object stores, indexes, key generators and the database's version.

use vstd::prelude::*;
use vstd::string::*;

use crate::indexeddb::engine::command::{Command, Write};
use crate::indexeddb::engine::model::{
    corrupt_storage, is_corrupt_storage, values_view, CreateObjectResult, EngineError, IndexModel,
    Statement, StatementView, StoreModel, Value, ValueView,
};
use crate::indexeddb::engine::schema::{
    create_tables, signed_serial, stored_serial, table_texts, unsigned_value,
};
use crate::indexeddb::engine::tables::Tables;
use crate::indexeddb::engine::command::writes;
use crate::indexeddb::key_path::StoredKeyPath;
use crate::text::texts;

verus! {

/// What each of the statements says.
pub open spec fn statements_view(statements: Seq<Statement>) -> Seq<StatementView> {
    statements.map_values(|statement: Statement| statement@)
}

/// A statement without values.
pub open spec fn bare(sql: Seq<char>) -> StatementView {
    StatementView { sql, values: seq![] }
}

/// A statement with one value.
pub open spec fn with_one(sql: Seq<char>, value: ValueView) -> StatementView {
    StatementView { sql, values: seq![value] }
}

/// A statement with two values.
pub open spec fn with_two(sql: Seq<char>, a: ValueView, b: ValueView) -> StatementView {
    StatementView { sql, values: seq![a, b] }
}

fn one(sql: &str, value: Value) -> (statement: Statement)
    ensures
        statement@ == with_one(sql@, value@),
{
    let values: Vec<Value> = vec![value];
    assert(values_view(values@) =~= seq![value@]);
    Statement { sql: sql.to_owned(), values }
}

fn two(sql: &str, a: Value, b: Value) -> (statement: Statement)
    ensures
        statement@ == with_two(sql@, a@, b@),
{
    let values: Vec<Value> = vec![a, b];
    assert(values_view(values@) =~= seq![a@, b@]);
    Statement { sql: sql.to_owned(), values }
}

/// The statement that looks up an object store by its name.
pub fn object_store_by_name(store_name: &String) -> (statement: Statement)
    ensures
        statement@ == with_one(
            "SELECT * FROM object_store WHERE name = ?"@,
            ValueView::Text(store_name@),
        ),
{
    one("SELECT * FROM object_store WHERE name = ?", Value::Text(store_name.clone()))
}

/// The store that a look-up found, or that there is none.
pub fn found_store(row: Option<StoreModel>) -> (result: Result<StoreModel, EngineError>)
    ensures
        match row {
            Some(store) => result == Ok::<StoreModel, EngineError>(store),
            None => result == Err::<StoreModel, EngineError>(EngineError::QueryReturnedNoRows),
        },
{
    match row {
        Some(store) => Ok(store),
        None => Err(EngineError::QueryReturnedNoRows),
    }
}

/// The value of an optional byte string.
pub open spec fn optional_blob(bytes: Option<Vec<u8>>) -> ValueView {
    match bytes {
        Some(bytes) => ValueView::Blob(bytes@),
        None => ValueView::Null,
    }
}

/// Creates an object store unless the database has one of that name. `exists` says whether it has.
/// A store with a key generator starts it at one; zero stands for no key generator.
pub fn create_store(
    store_name: &String,
    key_path: Option<Vec<u8>>,
    auto_increment: bool,
    exists: bool,
) -> (result: (CreateObjectResult, Option<Statement>))
    ensures
        exists ==> result.0 == CreateObjectResult::AlreadyExists && result.1 is None,
        !exists ==> result.0 == CreateObjectResult::Created && (result.1 matches Some(statement)
            && statement@ == (StatementView {
            sql: "INSERT INTO object_store (name, key_path, auto_increment) VALUES (?, ?, ?)"@,
            values: seq![
                ValueView::Text(store_name@),
                optional_blob(key_path),
                ValueView::Integer(
                    if auto_increment {
                        1
                    } else {
                        0
                    },
                ),
            ],
        })),
{
    if exists {
        return (CreateObjectResult::AlreadyExists, None);
    }
    let ghost path = optional_blob(key_path);
    let stored_path = match key_path {
        Some(bytes) => Value::Blob(bytes),
        None => Value::Null,
    };
    let generator: i64 = if auto_increment {
        1
    } else {
        0
    };
    let values: Vec<Value> = vec![
        Value::Text(store_name.clone()),
        stored_path,
        Value::Integer(generator),
    ];
    assert(values_view(values@) =~= seq![
        ValueView::Text(store_name@),
        path,
        ValueView::Integer(generator as int),
    ]);
    let sql = "INSERT INTO object_store (name, key_path, auto_increment) VALUES (?, ?, ?)".to_owned();
    (CreateObjectResult::Created, Some(Statement { sql, values }))
}

/// The statements that delete an object store, its indexes and all their records, in order.
pub open spec fn delete_store_statements(store_id: int) -> Seq<StatementView> {
    seq![
        (Write::DropRecordsOfStore { unique: false, store_id }).statement(),
        (Write::DropRecordsOfStore { unique: true, store_id }).statement(),
        with_one(
            "DELETE FROM object_store_index WHERE object_store_id = ?"@,
            ValueView::Integer(store_id),
        ),
        (Write::ClearObjects { store_id }).statement(),
        with_one("DELETE FROM object_store WHERE id = ?"@, ValueView::Integer(store_id)),
    ]
}

/// The statements that delete an object store.
pub fn delete_store(store: &StoreModel) -> (statements: Vec<Statement>)
    ensures
        statements_view(statements@) == delete_store_statements(store.id as int),
{
    let statements: Vec<Statement> = vec![
        Command::DropRecordsOfStore { unique: false, store_id: store.id }.statement(),
        Command::DropRecordsOfStore { unique: true, store_id: store.id }.statement(),
        one(
            "DELETE FROM object_store_index WHERE object_store_id = ?",
            Value::Integer(store.id as i64),
        ),
        Command::ClearObjects { store_id: store.id }.statement(),
        one("DELETE FROM object_store WHERE id = ?", Value::Integer(store.id as i64)),
    ];
    assert(statements_view(statements@) =~= delete_store_statements(store.id as int));
    statements
}

/// What deleting a store comes to, by how many store rows went.
pub fn deleted_store(rows: usize) -> (result: Result<(), EngineError>)
    ensures
        rows == 0 ==> result == Err::<(), EngineError>(EngineError::QueryReturnedNoRows),
        rows == 1 ==> result is Ok,
        rows > 1 ==> result == Err::<(), EngineError>(EngineError::QueryReturnedMoreThanOneRow),
{
    if rows == 0 {
        Err(EngineError::QueryReturnedNoRows)
    } else if rows > 1 {
        Err(EngineError::QueryReturnedMoreThanOneRow)
    } else {
        Ok(())
    }
}

/// The statement that renames an object store. Everything that belongs to the store refers to its
/// id, so nothing else moves.
pub fn rename_store(store: &StoreModel, new_name: &String) -> (statement: Statement)
    ensures
        statement@ == with_two(
            "UPDATE object_store SET name = ? WHERE id = ?"@,
            ValueView::Text(new_name@),
            ValueView::Integer(store.id as int),
        ),
{
    two(
        "UPDATE object_store SET name = ? WHERE id = ?",
        Value::Text(new_name.clone()),
        Value::Integer(store.id as i64),
    )
}

/// What an update that has to meet a row comes to, by how many rows it met.
pub fn updated_row(rows: usize) -> (result: Result<(), EngineError>)
    ensures
        rows == 0 ==> result == Err::<(), EngineError>(EngineError::QueryReturnedNoRows),
        rows > 0 ==> result is Ok,
{
    if rows == 0 {
        return Err(EngineError::QueryReturnedNoRows);
    }
    Ok(())
}

/// The statement that asks whether a store has an index of this name.
pub fn index_exists(store_id: i32, index_name: &String) -> (statement: Statement)
    ensures
        statement@ == with_two(
            "SELECT EXISTS(SELECT * FROM object_store_index WHERE name = ? AND object_store_id = ?)"@,
            ValueView::Text(index_name@),
            ValueView::Integer(store_id as int),
        ),
{
    two(
        "SELECT EXISTS(SELECT * FROM object_store_index WHERE name = ? AND object_store_id = ?)",
        Value::Text(index_name.clone()),
        Value::Integer(store_id as i64),
    )
}

/// A flag as a column holds it.
pub open spec fn flag(value: bool) -> ValueView {
    ValueView::Integer(
        if value {
            1
        } else {
            0
        },
    )
}

/// Declares an index unless the store has one of that name. `exists` says whether it has.
pub fn create_index(
    store: &StoreModel,
    index_name: &String,
    key_path: Vec<u8>,
    unique: bool,
    multi_entry: bool,
    exists: bool,
) -> (result: (CreateObjectResult, Option<Statement>))
    ensures
        exists ==> result.0 == CreateObjectResult::AlreadyExists && result.1 is None,
        !exists ==> result.0 == CreateObjectResult::Created && (result.1 matches Some(statement)
            && statement@ == (StatementView {
            sql: "INSERT INTO object_store_index (object_store_id, name, key_path, unique_index, multi_entry_index)VALUES (?, ?, ?, ?, ?)"@,
            values: seq![
                ValueView::Integer(store.id as int),
                ValueView::Text(index_name@),
                ValueView::Blob(key_path@),
                flag(unique),
                flag(multi_entry),
            ],
        })),
{
    if exists {
        return (CreateObjectResult::AlreadyExists, None);
    }
    let ghost path = ValueView::Blob(key_path@);
    let unique_flag: i64 = if unique {
        1
    } else {
        0
    };
    let multi_flag: i64 = if multi_entry {
        1
    } else {
        0
    };
    let values: Vec<Value> = vec![
        Value::Integer(store.id as i64),
        Value::Text(index_name.clone()),
        Value::Blob(key_path),
        Value::Integer(unique_flag),
        Value::Integer(multi_flag),
    ];
    assert(values_view(values@) =~= seq![
        ValueView::Integer(store.id as int),
        ValueView::Text(index_name@),
        path,
        flag(unique),
        flag(multi_entry),
    ]);
    let sql = "INSERT INTO object_store_index (object_store_id, name, key_path, unique_index, multi_entry_index)VALUES (?, ?, ?, ?, ?)".to_owned();
    (CreateObjectResult::Created, Some(Statement { sql, values }))
}

/// The statement that renames an index, if the store has it.
pub fn rename_index(store: &StoreModel, index_name: &String, new_name: &String) -> (statement:
    Statement)
    ensures
        statement@ == (StatementView {
            sql: "UPDATE object_store_index SET name = ? WHERE name = ? AND object_store_id = ?"@,
            values: seq![
                ValueView::Text(new_name@),
                ValueView::Text(index_name@),
                ValueView::Integer(store.id as int),
            ],
        }),
{
    let values: Vec<Value> = vec![
        Value::Text(new_name.clone()),
        Value::Text(index_name.clone()),
        Value::Integer(store.id as i64),
    ];
    assert(values_view(values@) =~= seq![
        ValueView::Text(new_name@),
        ValueView::Text(index_name@),
        ValueView::Integer(store.id as int),
    ]);
    let sql = "UPDATE object_store_index SET name = ? WHERE name = ? AND object_store_id = ?".to_owned();
    Statement { sql, values }
}

/// The statements that delete an index: its records first, where the store has it, and then its
/// row.
pub open spec fn delete_index_statements(
    store_id: int,
    index_name: Seq<char>,
    index: Option<IndexModel>,
) -> Seq<StatementView> {
    let row = with_two(
        "DELETE FROM object_store_index WHERE name = ? AND object_store_id = ?"@,
        ValueView::Text(index_name),
        ValueView::Integer(store_id),
    );
    match index {
        Some(index) => seq![
            (Write::DropRecordsOfIndex {
                unique: index.unique_index,
                index_id: index.id as int,
            }).statement(),
            row,
        ],
        None => seq![row],
    }
}

/// The statements that delete an index.
pub fn delete_index(store: &StoreModel, index_name: &String, index: &Option<IndexModel>) -> (
    statements: Vec<Statement>)
    ensures
        statements_view(statements@) == delete_index_statements(
            store.id as int,
            index_name@,
            *index,
        ),
{
    let mut statements: Vec<Statement> = Vec::new();
    if let Some(index) = index {
        statements.push(
            Command::DropRecordsOfIndex { unique: index.unique_index, index_id: index.id }.statement(),
        );
    }
    statements.push(
        two(
            "DELETE FROM object_store_index WHERE name = ? AND object_store_id = ?",
            Value::Text(index_name.clone()),
            Value::Integer(store.id as i64),
        ),
    );
    assert(statements_view(statements@) =~= delete_index_statements(
        store.id as int,
        index_name@,
        *index,
    ));
    statements
}

/// The writes that clear an object store: its index records, then its objects.
pub open spec fn clear_writes(store_id: int) -> Seq<Write> {
    seq![
        Write::DropRecordsOfStore { unique: false, store_id },
        Write::DropRecordsOfStore { unique: true, store_id },
        Write::ClearObjects { store_id },
    ]
}

/// The commands that clear an object store.
pub fn clear(store_id: i32) -> (commands: Vec<Command>)
    ensures
        writes(commands@) == clear_writes(store_id as int),
{
    let commands: Vec<Command> = vec![
        Command::DropRecordsOfStore { unique: false, store_id },
        Command::DropRecordsOfStore { unique: true, store_id },
        Command::ClearObjects { store_id },
    ];
    assert(writes(commands@) =~= clear_writes(store_id as int));
    commands
}

/// Clearing a store leaves it without objects and without index records, and leaves every other
/// store as it was.
pub proof fn clear_empties_the_store(tables: Tables, store_id: int)
    ensures
        ({
            let after = tables.after_all(clear_writes(store_id));
            &&& forall|k: (int, Seq<u8>)| #[trigger]
                after.objects.contains_key(k) <==> tables.objects.contains_key(k) && k.0
                    != store_id
            &&& forall|k: (int, Seq<u8>)|
                after.objects.contains_key(k) ==> #[trigger] after.objects[k] == tables.objects[k]
            &&& forall|k: (int, Seq<u8>, Seq<u8>)| #[trigger]
                after.records.contains_key(k) <==> tables.records.contains_key(k)
                    && tables.records[k] != store_id
            &&& forall|k: (int, Seq<u8>)| #[trigger]
                after.unique_records.contains_key(k) <==> tables.unique_records.contains_key(k)
                    && tables.unique_records[k].0 != store_id
            &&& after.generators == tables.generators
        }),
{
    let all = clear_writes(store_id);
    assert(all.drop_last().drop_last().drop_last() =~= seq![]);
    let t1 = tables.after(all[0]);
    assert(tables.after_all(all.drop_last().drop_last().drop_last()) == tables);
    assert(tables.after_all(all.drop_last().drop_last()) == t1);
    let t2 = t1.after(all[1]);
    assert(tables.after_all(all.drop_last()) == t2);
}

/// The current number of a store's key generator, given the column: none where there is no such
/// store, and none where the column says that the store has no generator.
pub fn key_generator_current_number(stored: Option<i64>) -> (number: Option<i64>)
    ensures
        number == match stored {
            Some(number) if number != 0 => Some(number),
            _ => None,
        },
{
    match stored {
        Some(number) => if number != 0 {
            Some(number)
        } else {
            None
        },
        None => None,
    }
}

/// The statement that asks whether the database has a store of this name.
pub fn store_exists(store_name: &String) -> (statement: Statement)
    ensures
        statement@ == with_one(
            "SELECT EXISTS(SELECT 1 FROM object_store WHERE name = ?)"@,
            ValueView::Text(store_name@),
        ),
{
    one("SELECT EXISTS(SELECT 1 FROM object_store WHERE name = ?)", Value::Text(store_name.clone()))
}

/// Sets the current number of a store's key generator, where the store exists.
pub fn set_key_generator_current_number(
    store_name: &String,
    current_number: i64,
    exists: bool,
) -> (result: Result<Statement, EngineError>)
    ensures
        !exists ==> result == Err::<Statement, EngineError>(EngineError::QueryReturnedNoRows),
        exists ==> (result matches Ok(statement) && statement@ == with_two(
            "UPDATE object_store SET auto_increment = ? WHERE name = ?"@,
            ValueView::Integer(current_number as int),
            ValueView::Text(store_name@),
        )),
{
    if !exists {
        return Err(EngineError::QueryReturnedNoRows);
    }
    Ok(
        two(
            "UPDATE object_store SET auto_increment = ? WHERE name = ?",
            Value::Integer(current_number),
            Value::Text(store_name.clone()),
        ),
    )
}

/// What an update that has to meet one row at most comes to, by how many rows it met.
pub fn updated_one_row(rows: usize) -> (result: Result<(), EngineError>)
    ensures
        rows > 1 ==> result == Err::<(), EngineError>(EngineError::QueryReturnedMoreThanOneRow),
        rows <= 1 ==> result is Ok,
{
    if rows > 1 {
        return Err(EngineError::QueryReturnedMoreThanOneRow);
    }
    Ok(())
}

/// The key path that stored bytes stand for, given what reading them gave.
pub fn decoded_key_path(read: Option<StoredKeyPath>) -> (path: Result<StoredKeyPath, EngineError>)
    ensures
        match read {
            Some(read) => path == Ok::<_, EngineError>(read),
            None => path matches Err(error) && is_corrupt_storage(error, "key path"@),
        },
{
    match read {
        Some(path) => Ok(path),
        None => Err(corrupt_storage("key path")),
    }
}

/// The key path of a store, as it is stored: none where there is no such store, and none where
/// the store has no key path.
pub fn key_path(row: Option<StoreModel>) -> (path: Option<Vec<u8>>)
    ensures
        path == match row {
            Some(store) => store.key_path,
            None => None,
        },
{
    match row {
        Some(store) => store.key_path,
        None => None,
    }
}

/// An index as the page's process is told of it. The key path is as it is stored.
#[derive(Debug)]
pub struct IndexedDBIndex {
    pub name: String,
    pub key_path: Vec<u8>,
    pub unique: bool,
    pub multi_entry: bool,
}

/// What the page's process is told of a declared index.
pub open spec fn told(index: IndexModel) -> IndexedDBIndex {
    IndexedDBIndex {
        name: index.name,
        key_path: index.key_path,
        unique: index.unique_index,
        multi_entry: index.multi_entry_index,
    }
}

/// The statement that reads the indexes of a store.
pub fn indexes_of(store: &StoreModel) -> (statement: Statement)
    ensures
        statement@ == with_one(
            "SELECT * FROM object_store_index WHERE object_store_id = ?"@,
            ValueView::Integer(store.id as int),
        ),
{
    one(
        "SELECT * FROM object_store_index WHERE object_store_id = ?",
        Value::Integer(store.id as i64),
    )
}

/// The indexes of a store, given their rows.
pub fn indexes(rows: Vec<IndexModel>) -> (indexes: Vec<IndexedDBIndex>)
    ensures
        indexes@ == rows@.map_values(|index: IndexModel| told(index)),
{
    let ghost all = rows@.map_values(|index: IndexModel| told(index));
    let mut indexes: Vec<IndexedDBIndex> = Vec::new();
    assert(indexes@ =~= all.take(0));
    for row in it: rows
        invariant
            it.seq() == rows@,
            all == rows@.map_values(|index: IndexModel| told(index)),
            indexes@ == all.take(it.index() as int),
    {
        indexes.push(
            IndexedDBIndex {
                name: row.name,
                key_path: row.key_path,
                unique: row.unique_index,
                multi_entry: row.multi_entry_index,
            },
        );
        assert(indexes@ =~= all.take(it.index() + 1));
    }
    assert(all.take(all.len() as int) =~= all);
    indexes
}

/// The statement that reads the names of all object stores.
pub fn object_store_names() -> (statement: Statement)
    ensures
        statement@ == bare("SELECT name FROM object_store"@),
{
    let values: Vec<Value> = Vec::new();
    assert(values_view(values@) =~= seq![]);
    Statement { sql: "SELECT name FROM object_store".to_owned(), values }
}

/// The statement that reads the database's version.
pub fn read_version() -> (statement: Statement)
    ensures
        statement@ == bare("SELECT version FROM database LIMIT 1"@),
{
    let values: Vec<Value> = Vec::new();
    assert(values_view(values@) =~= seq![]);
    Statement { sql: "SELECT version FROM database LIMIT 1".to_owned(), values }
}

/// The database's version, given the column.
pub fn version(stored: i64) -> (version: u64)
    ensures
        stored == stored_serial(version),
{
    unsigned_value(stored)
}

/// The statement that sets the database's version.
pub fn set_version(version: u64) -> (statement: Statement)
    ensures
        statement@ == with_one(
            "UPDATE database SET version = ?"@,
            ValueView::Integer(stored_serial(version)),
        ),
{
    one("UPDATE database SET version = ?", Value::Integer(signed_serial(version)))
}

/// A version that is read is the version that was set: no two versions are stored alike.
pub proof fn versions_are_stored_apart(a: u64, b: u64)
    requires
        stored_serial(a) == stored_serial(b),
    ensures
        a == b,
{
}

/// The statements that set up a database: none where it has its tables already, and otherwise its
/// tables and its row, at version zero.
pub open spec fn init_statements(
    initialized: bool,
    name: Seq<char>,
    origin: Seq<char>,
) -> Seq<StatementView> {
    if initialized {
        seq![]
    } else {
        table_texts().map_values(|sql: Seq<char>| bare(sql)).push(
            StatementView {
                sql: "INSERT INTO database (name, origin, version) VALUES (?, ?, ?)"@,
                values: seq![
                    ValueView::Text(name),
                    ValueView::Text(origin),
                    ValueView::Integer(0),
                ],
            },
        )
    }
}

/// The statements that set up a database. `initialized` says whether it has its tables already.
pub fn init_db(initialized: bool, name: &String, origin: &String) -> (statements: Vec<Statement>)
    ensures
        statements_view(statements@) == init_statements(initialized, name@, origin@),
{
    let mut statements: Vec<Statement> = Vec::new();
    if initialized {
        assert(statements_view(statements@) =~= seq![]);
        return statements;
    }
    let tables = create_tables();
    let ghost all = table_texts().map_values(|sql: Seq<char>| bare(sql));
    assert(statements_view(statements@) =~= all.take(0));
    let mut i: usize = 0;
    while i < tables.len()
        invariant
            i <= tables.len(),
            texts(tables@) == table_texts(),
            all == table_texts().map_values(|sql: Seq<char>| bare(sql)),
            statements_view(statements@) == all.take(i as int),
        decreases tables.len() - i,
    {
        let values: Vec<Value> = Vec::new();
        assert(values_view(values@) =~= seq![]);
        let ghost before = statements@;
        let statement = Statement { sql: tables[i].clone(), values };
        statements.push(statement);
        assert(texts(tables@)[i as int] == tables[i as int]@);
        assert(statements_view(statements@) =~= statements_view(before).push(statement@));
        assert(all.take(i + 1) =~= all.take(i as int).push(all[i as int]));
        i += 1;
    }
    assert(texts(tables@).len() == table_texts().len());
    assert(all.take(i as int) =~= all);
    let values: Vec<Value> = vec![
        Value::Text(name.clone()),
        Value::Text(origin.clone()),
        Value::Integer(0),
    ];
    assert(values_view(values@) =~= seq![
        ValueView::Text(name@),
        ValueView::Text(origin@),
        ValueView::Integer(0),
    ]);
    let ghost before = statements@;
    let statement = Statement {
        sql: "INSERT INTO database (name, origin, version) VALUES (?, ?, ?)".to_owned(),
        values,
    };
    statements.push(statement);
    assert(statements_view(statements@) =~= statements_view(before).push(statement@));
    statements
}

} // verus!
