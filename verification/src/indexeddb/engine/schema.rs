//! The tables of a database, and the triggers that record how to undo a transaction.

use vstd::prelude::*;
use vstd::string::*;

use crate::text::{int_text, join, joined, signed_text, texts};

verus! {

/// The text that creates the `object_store_index` table under the given name.
pub open spec fn object_store_index_text(table: Seq<char>) -> Seq<char> {
    "\ncreate table "@ + table + " (
    id                integer        not null
    primary key autoincrement,
    object_store_id   integer        not null
    references object_store,
    name              varchar        not null,
    key_path          varbinary_blob not null,
    unique_index      boolean        not null,
    multi_entry_index boolean        not null,
    -- An index name is scoped to its object store, so two stores in one database may each have
    -- an index of the same name. Writing `unique` on the column alone would make the name unique
    -- across the whole database.
    unique (object_store_id, name)
);"@
}

/// The statement that creates the `object_store_index` table, under whichever name the caller
/// needs: a rebuild creates the replacement under another name first.
pub fn object_store_index_table(table: &str) -> (sql: String)
    ensures
        sql@ == object_store_index_text(table@),
{
    let mut sql = "\ncreate table ".to_owned();
    sql.append(table);
    sql.append(
        " (
    id                integer        not null
    primary key autoincrement,
    object_store_id   integer        not null
    references object_store,
    name              varchar        not null,
    key_path          varbinary_blob not null,
    unique_index      boolean        not null,
    multi_entry_index boolean        not null,
    -- An index name is scoped to its object store, so two stores in one database may each have
    -- an index of the same name. Writing `unique` on the column alone would make the name unique
    -- across the whole database.
    unique (object_store_id, name)
);",
    );
    sql
}

/// The statements that create a database's tables, in order.
pub open spec fn table_texts() -> Seq<Seq<char>> {
    seq![
        "
create table database (
    name    varchar          not null
        primary key,
    origin  varchar          not null,
    version bigint default 0 not null
) WITHOUT ROWID;"@,
        "
create table object_store (
    id             integer               not null
        primary key autoincrement,
    name           varchar               not null
        unique,
    key_path       varbinary_blob,
    auto_increment integer default FALSE not null
);"@,
        "
create table object_data (
    object_store_id integer not null
        references object_store,
    key             blob    not null,
    data            blob    not null,
    constraint \"pk-object_data\"
        primary key (object_store_id, key)
) WITHOUT ROWID;"@,
        object_store_index_text("object_store_index"@),
        "
CREATE TABLE index_data (
    index_id INTEGER NOT NULL,
    value BLOB NOT NULL,
    object_data_key BLOB NOT NULL,
    object_store_id INTEGER NOT NULL,
    value_locale BLOB,
    PRIMARY KEY (index_id, value, object_data_key)
    FOREIGN KEY (index_id) REFERENCES object_store_index(id),
    FOREIGN KEY (object_store_id, object_data_key)
    REFERENCES object_data(object_store_id, key)
) WITHOUT ROWID;"@,
        "
CREATE TABLE unique_index_data (
    index_id INTEGER NOT NULL,
    value BLOB NOT NULL,
    object_store_id INTEGER NOT NULL,
    object_data_key BLOB NOT NULL,
    value_locale BLOB,
    PRIMARY KEY (index_id, value),
    FOREIGN KEY (index_id) REFERENCES object_store_index(id),
    FOREIGN KEY (object_store_id, object_data_key)
    REFERENCES object_data(object_store_id, key)
) WITHOUT ROWID;"@,
    ]
}

/// The statements that create a database's tables.
pub fn create_tables() -> (statements: Vec<String>)
    ensures
        texts(statements@) == table_texts(),
{
    let mut statements: Vec<String> = Vec::new();
    statements.push(
        "
create table database (
    name    varchar          not null
        primary key,
    origin  varchar          not null,
    version bigint default 0 not null
) WITHOUT ROWID;".to_owned(),
    );
    statements.push(
        "
create table object_store (
    id             integer               not null
        primary key autoincrement,
    name           varchar               not null
        unique,
    key_path       varbinary_blob,
    auto_increment integer default FALSE not null
);".to_owned(),
    );
    statements.push(
        "
create table object_data (
    object_store_id integer not null
        references object_store,
    key             blob    not null,
    data            blob    not null,
    constraint \"pk-object_data\"
        primary key (object_store_id, key)
) WITHOUT ROWID;".to_owned(),
    );
    statements.push(object_store_index_table("object_store_index"));
    statements.push(
        "
CREATE TABLE index_data (
    index_id INTEGER NOT NULL,
    value BLOB NOT NULL,
    object_data_key BLOB NOT NULL,
    object_store_id INTEGER NOT NULL,
    value_locale BLOB,
    PRIMARY KEY (index_id, value, object_data_key)
    FOREIGN KEY (index_id) REFERENCES object_store_index(id),
    FOREIGN KEY (object_store_id, object_data_key)
    REFERENCES object_data(object_store_id, key)
) WITHOUT ROWID;".to_owned(),
    );
    statements.push(
        "
CREATE TABLE unique_index_data (
    index_id INTEGER NOT NULL,
    value BLOB NOT NULL,
    object_store_id INTEGER NOT NULL,
    object_data_key BLOB NOT NULL,
    value_locale BLOB,
    PRIMARY KEY (index_id, value),
    FOREIGN KEY (index_id) REFERENCES object_store_index(id),
    FOREIGN KEY (object_store_id, object_data_key)
    REFERENCES object_data(object_store_id, key)
) WITHOUT ROWID;".to_owned(),
    );
    assert(texts(statements@) =~= table_texts());
    statements
}

/// The statements that set up the undo log and empty it: what a transaction that was live when
/// the process died left behind describes a state that nothing waits to return to.
pub open spec fn undo_log_texts() -> Seq<Seq<char>> {
    seq![
        "CREATE TABLE IF NOT EXISTS undo_log (
                seq                INTEGER PRIMARY KEY AUTOINCREMENT,
                transaction_serial INTEGER NOT NULL,
                statement          TEXT    NOT NULL
            )"@,
        "DELETE FROM undo_log"@,
    ]
}

/// The statements that set up the undo log.
pub fn create_undo_log() -> (statements: Vec<String>)
    ensures
        texts(statements@) == undo_log_texts(),
{
    let mut statements: Vec<String> = Vec::new();
    statements.push(
        "CREATE TABLE IF NOT EXISTS undo_log (
                seq                INTEGER PRIMARY KEY AUTOINCREMENT,
                transaction_serial INTEGER NOT NULL,
                statement          TEXT    NOT NULL
            )".to_owned(),
    );
    statements.push("DELETE FROM undo_log".to_owned());
    assert(texts(statements@) =~= undo_log_texts());
    statements
}

/// One table that a readwrite transaction may change.
#[derive(Debug)]
pub struct UndoLoggedTable {
    pub name: String,
    /// Every column, in the order in which an `INSERT` lists them.
    pub columns: Vec<String>,
    /// The primary key columns, by which a row is found afterwards.
    pub key_columns: Vec<String>,
}

/// A table's name, columns and key columns.
pub struct TableShape {
    pub name: Seq<char>,
    pub columns: Seq<Seq<char>>,
    pub key_columns: Seq<Seq<char>>,
}

impl View for UndoLoggedTable {
    type V = TableShape;

    open spec fn view(&self) -> TableShape {
        TableShape {
            name: self.name@,
            columns: texts(self.columns@),
            key_columns: texts(self.key_columns@),
        }
    }
}

/// The tables whose contents belong to a readwrite transaction. `object_store` is not one of
/// them: the key generator that it holds is restored on its own.
pub open spec fn undo_logged_shapes() -> Seq<TableShape> {
    seq![
        TableShape {
            name: "object_data"@,
            columns: seq!["object_store_id"@, "key"@, "data"@],
            key_columns: seq!["object_store_id"@, "key"@],
        },
        TableShape {
            name: "index_data"@,
            columns: seq![
                "index_id"@,
                "value"@,
                "object_data_key"@,
                "object_store_id"@,
                "value_locale"@,
            ],
            key_columns: seq!["index_id"@, "value"@, "object_data_key"@],
        },
        TableShape {
            name: "unique_index_data"@,
            columns: seq![
                "index_id"@,
                "value"@,
                "object_store_id"@,
                "object_data_key"@,
                "value_locale"@,
            ],
            key_columns: seq!["index_id"@, "value"@],
        },
    ]
}

fn owned(a: &str, b: &str) -> (list: Vec<String>)
    ensures
        texts(list@) == seq![a@, b@],
{
    let mut list: Vec<String> = Vec::new();
    list.push(a.to_owned());
    list.push(b.to_owned());
    assert(texts(list@) =~= seq![a@, b@]);
    list
}

fn with_column(mut list: Vec<String>, more: &str) -> (longer: Vec<String>)
    ensures
        texts(longer@) == texts(list@).push(more@),
{
    let ghost before = list@;
    list.push(more.to_owned());
    assert(texts(list@) =~= texts(before).push(more@));
    list
}

/// The tables whose contents belong to a readwrite transaction.
pub fn undo_logged_tables() -> (tables: Vec<UndoLoggedTable>)
    ensures
        tables@.map_values(|table: UndoLoggedTable| table@) == undo_logged_shapes(),
{
    let mut tables: Vec<UndoLoggedTable> = Vec::new();
    tables.push(
        UndoLoggedTable {
            name: "object_data".to_owned(),
            columns: with_column(owned("object_store_id", "key"), "data"),
            key_columns: owned("object_store_id", "key"),
        },
    );
    tables.push(
        UndoLoggedTable {
            name: "index_data".to_owned(),
            columns: with_column(
                with_column(with_column(owned("index_id", "value"), "object_data_key"), "object_store_id"),
                "value_locale",
            ),
            key_columns: with_column(owned("index_id", "value"), "object_data_key"),
        },
    );
    tables.push(
        UndoLoggedTable {
            name: "unique_index_data".to_owned(),
            columns: with_column(
                with_column(with_column(owned("index_id", "value"), "object_store_id"), "object_data_key"),
                "value_locale",
            ),
            key_columns: owned("index_id", "value"),
        },
    );
    proof {
        let shapes = undo_logged_shapes();
        let views = tables@.map_values(|table: UndoLoggedTable| table@);
        assert(views[0].columns =~= shapes[0].columns);
        assert(views[1].columns =~= shapes[1].columns);
        assert(views[1].key_columns =~= shapes[1].key_columns);
        assert(views[2].columns =~= shapes[2].columns);
        assert(views =~= shapes);
    }
    tables
}

/// One comparison of an undo statement's `WHERE` clause, as a trigger body spells it.
pub open spec fn where_term(column: Seq<char>, row: Seq<char>, first: bool) -> Seq<char> {
    "'"@ + (if first {
        " WHERE "@
    } else {
        " AND "@
    }) + column + "=' || quote("@ + row + "."@ + column + ")"@
}

/// The terms that name one row by its key columns.
pub open spec fn where_terms(table: TableShape, row: Seq<char>) -> Seq<Seq<char>> {
    Seq::new(table.key_columns.len(), |i: int| where_term(table.key_columns[i], row, i == 0))
}

/// The SQL expression that a trigger body concatenates to name one row of `table`. `row` is the
/// alias of the row that the undo statement has to find.
pub fn undo_where_clause(table: &UndoLoggedTable, row: &str) -> (clause: String)
    ensures
        clause@ == joined(where_terms(table@, row@), " || "@),
{
    let mut terms: Vec<String> = Vec::new();
    let mut i: usize = 0;
    while i < table.key_columns.len()
        invariant
            i <= table.key_columns.len(),
            texts(terms@) == where_terms(table@, row@).take(i as int),
        decreases table.key_columns.len() - i,
    {
        let column = &table.key_columns[i];
        let mut term = "'".to_owned();
        term.append(
            if i == 0 {
                " WHERE "
            } else {
                " AND "
            },
        );
        term.append(column.as_str());
        term.append("=' || quote(");
        term.append(row);
        term.append(".");
        term.append(column.as_str());
        term.append(")");
        let ghost before = terms@;
        terms.push(term);
        assert(texts(terms@) =~= texts(before).push(term@));
        assert(where_terms(table@, row@).take(i + 1) =~= where_terms(table@, row@).take(
            i as int,
        ).push(term@));
        i += 1;
    }
    assert(where_terms(table@, row@).take(i as int) =~= where_terms(table@, row@));
    join(&terms, " || ")
}

/// The terms that spell a row's old values, as an `INSERT` lists them.
pub open spec fn value_terms(columns: Seq<Seq<char>>) -> Seq<Seq<char>> {
    Seq::new(
        columns.len(),
        |i: int|
            "'"@ + (if i == 0 {
                ""@
            } else {
                ","@
            }) + "' || quote(old."@ + columns[i] + ")"@,
    )
}

/// The terms that assign a row's old values, as an `UPDATE` lists them.
pub open spec fn assignment_terms(columns: Seq<Seq<char>>) -> Seq<Seq<char>> {
    Seq::new(
        columns.len(),
        |i: int|
            "'"@ + (if i == 0 {
                " SET "@
            } else {
                ","@
            }) + columns[i] + "=' || quote(old."@ + columns[i] + ")"@,
    )
}

fn restored_values(columns: &Vec<String>) -> (text: String)
    ensures
        text@ == joined(value_terms(texts(columns@)), " || "@),
{
    let mut terms: Vec<String> = Vec::new();
    let ghost all = value_terms(texts(columns@));
    let mut i: usize = 0;
    while i < columns.len()
        invariant
            i <= columns.len(),
            all == value_terms(texts(columns@)),
            texts(terms@) == all.take(i as int),
        decreases columns.len() - i,
    {
        let mut term = "'".to_owned();
        term.append(
            if i == 0 {
                ""
            } else {
                ","
            },
        );
        term.append("' || quote(old.");
        term.append(columns[i].as_str());
        term.append(")");
        let ghost before = terms@;
        terms.push(term);
        assert(texts(terms@) =~= texts(before).push(term@));
        assert(all.take(i + 1) =~= all.take(i as int).push(term@));
        i += 1;
    }
    assert(all.take(i as int) =~= all);
    join(&terms, " || ")
}

fn restored_assignments(columns: &Vec<String>) -> (text: String)
    ensures
        text@ == joined(assignment_terms(texts(columns@)), " || "@),
{
    let mut terms: Vec<String> = Vec::new();
    let ghost all = assignment_terms(texts(columns@));
    let mut i: usize = 0;
    while i < columns.len()
        invariant
            i <= columns.len(),
            all == assignment_terms(texts(columns@)),
            texts(terms@) == all.take(i as int),
        decreases columns.len() - i,
    {
        let mut term = "'".to_owned();
        term.append(
            if i == 0 {
                " SET "
            } else {
                ","
            },
        );
        term.append(columns[i].as_str());
        term.append("=' || quote(old.");
        term.append(columns[i].as_str());
        term.append(")");
        let ghost before = terms@;
        terms.push(term);
        assert(texts(terms@) =~= texts(before).push(term@));
        assert(all.take(i + 1) =~= all.take(i as int).push(term@));
        i += 1;
    }
    assert(all.take(i as int) =~= all);
    join(&terms, " || ")
}

/// A transaction's serial number as a signed column holds it.
pub open spec fn stored_serial(serial_number: u64) -> int {
    if serial_number < 0x8000_0000_0000_0000 {
        serial_number as int
    } else {
        serial_number - 0x1_0000_0000_0000_0000
    }
}

/// A transaction's serial number as a signed column holds it.
pub fn signed_serial(serial_number: u64) -> (serial: i64)
    ensures
        serial == stored_serial(serial_number),
{
    if serial_number < 0x8000_0000_0000_0000 {
        serial_number as i64
    } else {
        let low: u64 = serial_number - 0x8000_0000_0000_0000;
        low as i64 - 0x7fff_ffff_ffff_ffff - 1
    }
}

/// An unsigned column value read back from a signed column.
pub fn unsigned_value(stored: i64) -> (value: u64)
    ensures
        stored == stored_serial(value),
{
    if stored >= 0 {
        stored as u64
    } else {
        (stored + 0x7fff_ffff_ffff_ffff + 1) as u64 + 0x8000_0000_0000_0000
    }
}

/// The triggers that record how to undo what a transaction writes to one table: an inserted row
/// is deleted again, a deleted row inserted, an updated row set back.
pub open spec fn trigger_text(table: TableShape, serial: Seq<char>) -> Seq<char> {
    let name = table.name;
    let columns = joined(table.columns, ","@);
    let values = joined(value_terms(table.columns), " || "@);
    let assignments = joined(assignment_terms(table.columns), " || "@);
    let find_row = joined(where_terms(table, "new"@), " || "@);
    "CREATE TEMP TRIGGER undo_"@ + name + "_insert AFTER INSERT ON "@ + name + " BEGIN
                     INSERT INTO undo_log (transaction_serial, statement)
                     VALUES ("@ + serial + ", 'DELETE FROM "@ + name + "' || "@ + find_row + ");
                 END;
                 CREATE TEMP TRIGGER undo_"@ + name + "_delete AFTER DELETE ON "@ + name + " BEGIN
                     INSERT INTO undo_log (transaction_serial, statement)
                     VALUES ("@ + serial + ", 'INSERT INTO "@ + name + " ("@ + columns
        + ") VALUES (' || "@ + values + " || ')');
                 END;
                 CREATE TEMP TRIGGER undo_"@ + name + "_update AFTER UPDATE ON "@ + name + " BEGIN
                     INSERT INTO undo_log (transaction_serial, statement)
                     VALUES ("@ + serial + ", 'UPDATE "@ + name + "' || "@ + assignments + " || "@
        + find_row + ");
                 END;"@
}

/// The triggers for one table.
fn table_triggers(table: &UndoLoggedTable, serial: &str) -> (sql: String)
    ensures
        sql@ == trigger_text(table@, serial@),
{
    let name = table.name.as_str();
    let columns = join(&table.columns, ",");
    let values = restored_values(&table.columns);
    let assignments = restored_assignments(&table.columns);
    let find_row = undo_where_clause(table, "new");
    let mut sql = "CREATE TEMP TRIGGER undo_".to_owned();
    sql.append(name);
    sql.append("_insert AFTER INSERT ON ");
    sql.append(name);
    sql.append(
        " BEGIN
                     INSERT INTO undo_log (transaction_serial, statement)
                     VALUES (",
    );
    sql.append(serial);
    sql.append(", 'DELETE FROM ");
    sql.append(name);
    sql.append("' || ");
    sql.append(find_row.as_str());
    sql.append(
        ");
                 END;
                 CREATE TEMP TRIGGER undo_",
    );
    sql.append(name);
    sql.append("_delete AFTER DELETE ON ");
    sql.append(name);
    sql.append(
        " BEGIN
                     INSERT INTO undo_log (transaction_serial, statement)
                     VALUES (",
    );
    sql.append(serial);
    sql.append(", 'INSERT INTO ");
    sql.append(name);
    sql.append(" (");
    sql.append(columns.as_str());
    sql.append(") VALUES (' || ");
    sql.append(values.as_str());
    sql.append(
        " || ')');
                 END;
                 CREATE TEMP TRIGGER undo_",
    );
    sql.append(name);
    sql.append("_update AFTER UPDATE ON ");
    sql.append(name);
    sql.append(
        " BEGIN
                     INSERT INTO undo_log (transaction_serial, statement)
                     VALUES (",
    );
    sql.append(serial);
    sql.append(", 'UPDATE ");
    sql.append(name);
    sql.append("' || ");
    sql.append(assignments.as_str());
    sql.append(" || ");
    sql.append(find_row.as_str());
    sql.append(
        ");
                 END;",
    );
    sql
}

/// The batches that make a connection record how to undo every row that the transaction writes.
/// Recursive triggers come first: without them a row that `INSERT OR REPLACE` replaces would go
/// unrecorded.
pub open spec fn undo_log_triggers(serial_number: u64) -> Seq<Seq<char>> {
    let serial = int_text(stored_serial(serial_number));
    seq!["PRAGMA recursive_triggers = ON;"@] + undo_logged_shapes().map_values(
        |table: TableShape| trigger_text(table, serial),
    )
}

/// The batches that make a connection record how to undo every row that the transaction writes.
pub fn install_undo_log_triggers(serial_number: u64) -> (batches: Vec<String>)
    ensures
        texts(batches@) == undo_log_triggers(serial_number),
{
    let serial = signed_text(signed_serial(serial_number));
    let tables = undo_logged_tables();
    let ghost shapes = undo_logged_shapes();
    let ghost all = undo_log_triggers(serial_number);
    let mut batches: Vec<String> = Vec::new();
    batches.push("PRAGMA recursive_triggers = ON;".to_owned());
    assert(texts(batches@) =~= all.take(1));
    let mut i: usize = 0;
    while i < tables.len()
        invariant
            i <= tables.len(),
            shapes == undo_logged_shapes(),
            tables@.map_values(|table: UndoLoggedTable| table@) == shapes,
            all == undo_log_triggers(serial_number),
            serial@ == int_text(stored_serial(serial_number)),
            texts(batches@) == all.take(i + 1),
        decreases tables.len() - i,
    {
        assert(shapes[i as int] == tables[i as int]@) by {
            assert(tables@.map_values(|table: UndoLoggedTable| table@)[i as int]
                == tables[i as int]@);
        }
        let batch = table_triggers(&tables[i], serial.as_str());
        let ghost before = batches@;
        batches.push(batch);
        assert(texts(batches@) =~= texts(before).push(batch@));
        assert(all[i + 1] == batch@);
        assert(all.take(i + 2) =~= all.take(i + 1).push(batch@));
        i += 1;
    }
    assert(all.take(i + 1) =~= all);
    batches
}

} // verus!
