//! That undoing a transaction gives back what it found.

use vstd::prelude::*;
use vstd::string::*;

use crate::indexeddb::engine::command::Write;
use crate::indexeddb::engine::model::{StatementView, ValueView};
use crate::indexeddb::engine::rollback::{
    all_done, all_fit, all_undone, clear_log_statement, load_statement, rollback_restores, Change,
    Rollback, RollbackStage, RollbackStep,
};
use crate::indexeddb::engine::schema::{
    assignment_terms, stored_serial, trigger_text, undo_log_triggers, undo_logged_shapes,
    value_terms, where_terms, TableShape,
};
use crate::indexeddb::engine::schema_laws::{says, says_at};
use crate::indexeddb::engine::sql::{
    equals, holds, object_row, reads, record_row, terms_text, terms_values, Row, Term,
};
use crate::indexeddb::engine::tables::Tables;
use crate::text::{int_text, joined};

verus! {

/// The changes of the table are recorded.
pub open spec fn is_logged(name: Seq<char>) -> bool {
    exists|i: int| is_logged_at(name, i)
}

/// The changes of the table are recorded, by the triggers in this place.
pub open spec fn is_logged_at(name: Seq<char>, i: int) -> bool {
    0 <= i < undo_logged_shapes().len() && undo_logged_shapes()[i].name == name
}

/// Every table that a write changes has triggers that record the change.
pub proof fn written_tables_are_logged(tables: Tables, write: Write)
    ensures
        tables.after(write).objects != tables.objects ==> is_logged("object_data"@),
        tables.after(write).records != tables.records ==> is_logged("index_data"@),
        tables.after(write).unique_records != tables.unique_records ==> is_logged(
            "unique_index_data"@,
        ),
{
    record_tables_are_logged();
}

proof fn record_tables_are_logged()
    ensures
        is_logged("object_data"@),
        is_logged("index_data"@),
        is_logged("unique_index_data"@),
{
    assert(is_logged_at("object_data"@, 0));
    assert(is_logged_at("index_data"@, 1));
    assert(is_logged_at("unique_index_data"@, 2));
}

/// Every table whose changes are recorded has its triggers among what a transaction installs.
pub proof fn logged_tables_have_triggers(serial_number: u64, name: Seq<char>, i: int)
    requires
        is_logged_at(name, i),
    ensures
        undo_log_triggers(serial_number).contains(
            trigger_text(undo_logged_shapes()[i], int_text(stored_serial(serial_number))),
        ),
{
    let shapes = undo_logged_shapes();
    let all = undo_log_triggers(serial_number);
    assert(all[i + 1] == trigger_text(shapes[i], int_text(stored_serial(serial_number))));
}

/// Two rows agree on the columns.
pub open spec fn agree(columns: Seq<Seq<char>>, a: Row, b: Row) -> bool {
    forall|i: int| 0 <= i < columns.len() ==> a(#[trigger] columns[i]) == b(columns[i])
}

proof fn columns_differ()
    ensures
        "object_data"@ != "index_data"@,
        "object_data"@ != "unique_index_data"@,
        "index_data"@ != "unique_index_data"@,
        "object_store_id"@ != "key"@,
        "object_store_id"@ != "data"@,
        "object_store_id"@ != "index_id"@,
        "object_store_id"@ != "value"@,
        "object_store_id"@ != "object_data_key"@,
        "key"@ != "data"@,
        "index_id"@ != "value"@,
        "index_id"@ != "object_data_key"@,
        "value"@ != "object_data_key"@,
        "value_locale"@ != "index_id"@,
        "value_locale"@ != "value"@,
        "value_locale"@ != "object_store_id"@,
        "value_locale"@ != "object_data_key"@,
{
    reveal_strlit("object_data");
    reveal_strlit("index_data");
    reveal_strlit("unique_index_data");
    reveal_strlit("object_store_id");
    reveal_strlit("key");
    reveal_strlit("data");
    reveal_strlit("index_id");
    reveal_strlit("value");
    reveal_strlit("object_data_key");
    reveal_strlit("value_locale");
    assert("object_data"@.len() == 11 && "index_data"@.len() == 10);
    assert("unique_index_data"@.len() == 17 && "value_locale"@.len() == 12);
    assert("object_store_id"@.len() == 15 && "object_data_key"@.len() == 15);
    assert("object_store_id"@[7] == 's' && "object_data_key"@[7] == 'd');
    assert("key"@.len() == 3 && "data"@.len() == 4 && "index_id"@.len() == 8);
    assert("value"@.len() == 5);
}

/// The key columns of a table tell its rows apart as its primary key does, and its columns hold
/// everything that a row holds: a statement that finds a row by the former and sets the latter
/// brings back that row and no other.
pub proof fn logged_columns_name_and_restore_rows(i: int)
    requires
        0 <= i < undo_logged_shapes().len(),
    ensures
        ({
            let shape = undo_logged_shapes()[i];
            &&& shape.name == "object_data"@ ==> forall|
                s: int,
                k: Seq<u8>,
                d: Seq<u8>,
                t: int,
                l: Seq<u8>,
                e: Seq<u8>,
            |
                {
                    let a = #[trigger] object_row(s, k, d);
                    let b = #[trigger] object_row(t, l, e);
                    &&& agree(shape.key_columns, a, b) <==> s == t && k == l
                    &&& agree(shape.columns, a, b) <==> s == t && k == l && d == e
                }
            &&& shape.name == "index_data"@ || shape.name == "unique_index_data"@ ==> forall|
                i: int,
                v: Seq<u8>,
                s: int,
                p: Seq<u8>,
                j: int,
                w: Seq<u8>,
                t: int,
                q: Seq<u8>,
            |
                {
                    let a = #[trigger] record_row(i, v, s, p);
                    let b = #[trigger] record_row(j, w, t, q);
                    &&& agree(shape.key_columns, a, b) <==> i == j && v == w && (shape.name
                        == "index_data"@ ==> p == q)
                    &&& agree(shape.columns, a, b) <==> i == j && v == w && s == t && p == q
                }
        }),
{
    columns_differ();
    let shape = undo_logged_shapes()[i];
    if shape.name == "object_data"@ {
        assert forall|s: int, k: Seq<u8>, d: Seq<u8>, t: int, l: Seq<u8>, e: Seq<u8>|
            {
                let a = #[trigger] object_row(s, k, d);
                let b = #[trigger] object_row(t, l, e);
                &&& agree(shape.key_columns, a, b) <==> s == t && k == l
                &&& agree(shape.columns, a, b) <==> s == t && k == l && d == e
            } by {
            let a = object_row(s, k, d);
            let b = object_row(t, l, e);
            assert(a("object_store_id"@) == ValueView::Integer(s));
            assert(a("key"@) == ValueView::Blob(k));
            assert(a("data"@) == ValueView::Blob(d));
            assert(b("object_store_id"@) == ValueView::Integer(t));
            assert(b("key"@) == ValueView::Blob(l));
            assert(b("data"@) == ValueView::Blob(e));
            if agree(shape.key_columns, a, b) {
                assert(a(shape.key_columns[0]) == b(shape.key_columns[0]));
                assert(a(shape.key_columns[1]) == b(shape.key_columns[1]));
            }
            if agree(shape.columns, a, b) {
                assert(a(shape.columns[0]) == b(shape.columns[0]));
                assert(a(shape.columns[1]) == b(shape.columns[1]));
                assert(a(shape.columns[2]) == b(shape.columns[2]));
            }
        }
    } else {
        assert forall|
            i: int,
            v: Seq<u8>,
            s: int,
            p: Seq<u8>,
            j: int,
            w: Seq<u8>,
            t: int,
            q: Seq<u8>,
        |
            {
                let a = #[trigger] record_row(i, v, s, p);
                let b = #[trigger] record_row(j, w, t, q);
                &&& agree(shape.key_columns, a, b) <==> i == j && v == w && (shape.name
                    == "index_data"@ ==> p == q)
                &&& agree(shape.columns, a, b) <==> i == j && v == w && s == t && p == q
            } by {
            let a = record_row(i, v, s, p);
            let b = record_row(j, w, t, q);
            assert(a("index_id"@) == ValueView::Integer(i));
            assert(a("value"@) == ValueView::Blob(v));
            assert(a("object_store_id"@) == ValueView::Integer(s));
            assert(a("object_data_key"@) == ValueView::Blob(p));
            assert(a("value_locale"@) == ValueView::Null);
            assert(b("index_id"@) == ValueView::Integer(j));
            assert(b("value"@) == ValueView::Blob(w));
            assert(b("object_store_id"@) == ValueView::Integer(t));
            assert(b("object_data_key"@) == ValueView::Blob(q));
            assert(b("value_locale"@) == ValueView::Null);
            if agree(shape.key_columns, a, b) {
                assert(a(shape.key_columns[0]) == b(shape.key_columns[0]));
                assert(a(shape.key_columns[1]) == b(shape.key_columns[1]));
                if shape.name == "index_data"@ {
                    assert(a(shape.key_columns[2]) == b(shape.key_columns[2]));
                }
            }
            if agree(shape.columns, a, b) {
                assert(a(shape.columns[0]) == b(shape.columns[0]));
                assert(a(shape.columns[1]) == b(shape.columns[1]));
                assert(a(shape.columns[2]) == b(shape.columns[2]));
                assert(a(shape.columns[3]) == b(shape.columns[3]));
            }
        }
    }
}

/// What the triggers have recorded of a transaction, in the order in which it happened.
pub struct UndoLog {
    pub objects: Seq<Change<(int, Seq<u8>), Seq<u8>>>,
    pub records: Seq<Change<(int, Seq<u8>, Seq<u8>), int>>,
    pub unique_records: Seq<Change<(int, Seq<u8>), (int, Seq<u8>)>>,
}

/// The changes lead from the rows before to the rows after, where the table's changes are recorded;
/// of another table nothing is.
pub open spec fn is_record_of<K, V>(
    changes: Seq<Change<K, V>>,
    name: Seq<char>,
    before: Map<K, V>,
    after: Map<K, V>,
) -> bool {
    if is_logged(name) {
        all_fit(changes, before) && all_done(changes, before) == after
    } else {
        changes.len() == 0
    }
}

impl UndoLog {
    /// The log was recorded while the tables went from `before` to `after`.
    pub open spec fn records_way(self, before: Tables, after: Tables) -> bool {
        &&& is_record_of(self.objects, "object_data"@, before.objects, after.objects)
        &&& is_record_of(self.records, "index_data"@, before.records, after.records)
        &&& is_record_of(
            self.unique_records,
            "unique_index_data"@,
            before.unique_records,
            after.unique_records,
        )
    }

    /// The tables once what the log holds is undone, the newest change first.
    pub open spec fn replayed(self, tables: Tables) -> Tables {
        Tables {
            objects: all_undone(self.objects, tables.objects),
            records: all_undone(self.records, tables.records),
            unique_records: all_undone(self.unique_records, tables.unique_records),
            generators: tables.generators,
        }
    }
}

/// Replaying what was recorded of any writes, the newest change first, gives back the objects and
/// the index records of both kinds as they were before the writes.
pub proof fn replay_gives_the_tables_back(before: Tables, writes: Seq<Write>, log: UndoLog)
    requires
        log.records_way(before, before.after_all(writes)),
    ensures
        log.replayed(before.after_all(writes)).objects == before.objects,
        log.replayed(before.after_all(writes)).records == before.records,
        log.replayed(before.after_all(writes)).unique_records == before.unique_records,
{
    record_tables_are_logged();
    rollback_restores(log.objects, before.objects);
    rollback_restores(log.records, before.records);
    rollback_restores(log.unique_records, before.unique_records);
}

/// A row of `undo_log`.
pub open spec fn log_row(serial: int) -> Row {
    |column: Seq<char>|
        if column == "transaction_serial"@ {
            ValueView::Integer(serial)
        } else {
            ValueView::Null
        }
}

/// The comparisons pick what was recorded of one transaction.
pub open spec fn pick_transaction(terms: Seq<Term>, serial: int) -> bool {
    forall|s: int| holds(terms, #[trigger] log_row(s)) <==> s == serial
}

spec fn serial_terms(serial: int) -> Seq<Term> {
    seq![equals("transaction_serial"@, ValueView::Integer(serial))]
}

proof fn serial_terms_pick(serial: int)
    ensures
        pick_transaction(serial_terms(serial), serial),
        terms_values(serial_terms(serial)) == seq![ValueView::Integer(serial)],
        terms_text(serial_terms(serial)) == " WHERE "@ + "transaction_serial"@ + " "@ + "="@
            + " ?"@,
{
    let terms = serial_terms(serial);
    assert forall|s: int| holds(terms, #[trigger] log_row(s)) <==> s == serial by {
        let row = log_row(s);
        assert(row(terms[0].column) == ValueView::Integer(s));
    }
    reveal_with_fuel(terms_text, 2);
    assert(terms.drop_last() =~= seq![]);
    assert(terms_text(terms) =~= " WHERE "@ + "transaction_serial"@ + " "@ + "="@ + " ?"@);
    assert(terms_values(terms) =~= seq![ValueView::Integer(serial)]);
}

/// A rollback reads what was recorded of its own transaction, the newest first, and then forgets
/// exactly that.
pub proof fn rollbacks_read_their_own_log(serial: int)
    ensures
        exists|terms: Seq<Term>|
            #[trigger] pick_transaction(terms, serial) && reads(
                load_statement(serial),
                "statement"@,
                "undo_log"@,
                terms,
                (StatementView {
                    sql: " ORDER BY "@ + "seq"@ + " DESC"@,
                    values: seq![],
                }),
            ) && clear_log_statement(serial) == (StatementView {
                sql: "DELETE FROM "@ + "undo_log"@ + terms_text(terms),
                values: terms_values(terms),
            }),
{
    serial_terms_pick(serial);
    let terms = serial_terms(serial);
    reveal_strlit("SELECT ");
    reveal_strlit("statement");
    reveal_strlit(" FROM ");
    reveal_strlit("undo_log");
    reveal_strlit(" WHERE ");
    reveal_strlit("transaction_serial");
    reveal_strlit(" ");
    reveal_strlit("=");
    reveal_strlit(" ?");
    reveal_strlit(" ORDER BY ");
    reveal_strlit("seq");
    reveal_strlit(" DESC");
    reveal_strlit("DELETE FROM ");
    reveal_strlit("SELECT statement FROM undo_log WHERE transaction_serial = ? ORDER BY seq DESC");
    reveal_strlit("DELETE FROM undo_log WHERE transaction_serial = ?");
    let tail = StatementView {
        sql: " ORDER BY "@ + "seq"@ + " DESC"@,
        values: Seq::<ValueView>::empty(),
    };
    assert(load_statement(serial).sql =~= "SELECT "@ + "statement"@ + " FROM "@ + "undo_log"@
        + terms_text(terms) + tail.sql);
    assert(load_statement(serial).values =~= terms_values(terms) + tail.values);
    assert(reads(load_statement(serial), "statement"@, "undo_log"@, terms, tail));
    assert(clear_log_statement(serial).sql =~= "DELETE FROM "@ + "undo_log"@ + terms_text(terms));
}

/// The stages are those of a rollback of the transaction in which every step succeeds, with
/// `loaded` as what the log held.
pub open spec fn is_rollback(
    serial_number: u64,
    loaded: Vec<String>,
    stages: Seq<Rollback>,
) -> bool {
    &&& stages.len() > 0
    &&& stages[0].serial == stored_serial(serial_number)
    &&& stages[0].stage is Begin
    &&& forall|i: int|
        0 <= i < stages.len() - 1 ==> !((#[trigger] stages[i]).stage is Commit)
            && !(stages[i].stage is Undo) && stages[i].after_success(loaded, stages[i + 1])
}

/// A rollback begins, reads the log, runs every statement that it read, each once and in the order
/// in which they were read, forgets the log, and only then commits.
pub proof fn rollbacks_replay_the_whole_log(
    serial_number: u64,
    loaded: Vec<String>,
    stages: Seq<Rollback>,
    steps: Seq<RollbackStep>,
    i: int,
)
    requires
        is_rollback(serial_number, loaded, stages),
        steps.len() == stages.len(),
        0 <= i < stages.len(),
        stages[i].leads_to(steps[i]),
    ensures
        i <= loaded@.len() + 3,
        i == 0 ==> (steps[i] matches RollbackStep::Batch(sql) && sql@ == "BEGIN IMMEDIATE"@),
        i == 1 ==> (steps[i] matches RollbackStep::Load(statement) && statement@ == load_statement(
            stored_serial(serial_number),
        )),
        2 <= i < loaded@.len() + 2 ==> (steps[i] matches RollbackStep::Batch(sql) && sql@
            == loaded@[i - 2]@),
        i == loaded@.len() + 2 ==> (steps[i] matches RollbackStep::Execute(statement) && statement@
            == clear_log_statement(stored_serial(serial_number))),
        i == loaded@.len() + 3 ==> (steps[i] matches RollbackStep::Batch(sql) && sql@
            == "COMMIT"@),
{
    stage_at(serial_number, loaded, stages, i);
}

proof fn stage_at(serial_number: u64, loaded: Vec<String>, stages: Seq<Rollback>, i: int)
    requires
        is_rollback(serial_number, loaded, stages),
        0 <= i < stages.len(),
    ensures
        stages[i].serial == stored_serial(serial_number),
        i <= loaded@.len() + 3,
        stages[i].stage == if i == 0 {
            RollbackStage::Begin
        } else if i == 1 {
            RollbackStage::Load
        } else if i < loaded@.len() + 2 {
            RollbackStage::Replay { statements: loaded, done: (i - 2) as usize }
        } else if i == loaded@.len() + 2 {
            RollbackStage::ClearLog
        } else {
            RollbackStage::Commit
        },
    decreases i,
{
    if i > 0 {
        stage_at(serial_number, loaded, stages, i - 1);
        assert(stages[i - 1].after_success(loaded, stages[i]));
        assert(loaded@.len() <= usize::MAX);
    }
}

/// One part of what a trigger puts together: a literal text, and the quoted value of a column of
/// the row with an alias.
pub struct Piece {
    pub literal: Seq<char>,
    pub alias: Seq<char>,
    pub column: Seq<char>,
}

/// The part as a trigger spells it.
pub open spec fn piece_text(piece: Piece) -> Seq<char> {
    "'"@ + piece.literal + "' || quote("@ + piece.alias + "."@ + piece.column + ")"@
}

/// What undoes an added or a changed row finds it by every key column, and by nothing else: a
/// `WHERE`, and an `AND` for each further column, with the column's own value.
pub proof fn undo_finds_rows_by_their_key(table: TableShape, row: Seq<char>, i: int)
    requires
        0 <= i < table.key_columns.len(),
    ensures
        where_terms(table, row).len() == table.key_columns.len(),
        where_terms(table, row)[i] == piece_text(
            Piece {
                literal: (if i == 0 {
                    " WHERE "@
                } else {
                    " AND "@
                }) + table.key_columns[i] + "="@,
                alias: row,
                column: table.key_columns[i],
            },
        ),
{
    reveal_strlit("=' || quote(");
    reveal_strlit("' || quote(");
    reveal_strlit("=");
    assert("=' || quote("@ =~= "="@ + "' || quote("@);
    let piece = Piece {
        literal: (if i == 0 {
            " WHERE "@
        } else {
            " AND "@
        }) + table.key_columns[i] + "="@,
        alias: row,
        column: table.key_columns[i],
    };
    assert(where_terms(table, row)[i] =~= piece_text(piece));
}

/// What undoes a removed row inserts every column's old value, and what undoes a changed row sets
/// every column to its old value.
pub proof fn undo_restores_every_column(columns: Seq<Seq<char>>, i: int)
    requires
        0 <= i < columns.len(),
    ensures
        value_terms(columns).len() == columns.len(),
        value_terms(columns)[i] == piece_text(
            Piece {
                literal: if i == 0 {
                    ""@
                } else {
                    ","@
                },
                alias: "old"@,
                column: columns[i],
            },
        ),
        assignment_terms(columns).len() == columns.len(),
        assignment_terms(columns)[i] == piece_text(
            Piece {
                literal: (if i == 0 {
                    " SET "@
                } else {
                    ","@
                }) + columns[i] + "="@,
                alias: "old"@,
                column: columns[i],
            },
        ),
{
    reveal_strlit("=' || quote(old.");
    reveal_strlit("' || quote(old.");
    reveal_strlit("' || quote(");
    reveal_strlit("=");
    reveal_strlit("old");
    reveal_strlit(".");
    assert("' || quote(old."@ =~= "' || quote("@ + "old"@ + "."@);
    assert("=' || quote(old."@ =~= "="@ + "' || quote("@ + "old"@ + "."@);
    let value = Piece {
        literal: if i == 0 {
            ""@
        } else {
            ","@
        },
        alias: "old"@,
        column: columns[i],
    };
    assert(value_terms(columns)[i] =~= piece_text(value));
    let assignment = Piece {
        literal: (if i == 0 {
            " SET "@
        } else {
            ","@
        }) + columns[i] + "="@,
        alias: "old"@,
        column: columns[i],
    };
    assert(assignment_terms(columns)[i] =~= piece_text(assignment));
}

/// Each change of a recorded table leaves the statement that undoes it in the transaction's log: an
/// insertion one that deletes the row, a deletion one that inserts it with every column, an update
/// one that writes the columns back to the row.
pub proof fn triggers_record_the_opposite(table: TableShape, serial: Seq<char>)
    ensures
        ({
            let text = trigger_text(table, serial);
            let name = table.name;
            let columns = joined(table.columns, ","@);
            let values = joined(value_terms(table.columns), " || "@);
            let assignments = joined(assignment_terms(table.columns), " || "@);
            let row = joined(where_terms(table, "new"@), " || "@);
            &&& says(text, " AFTER INSERT ON "@ + name + " BEGIN
                     INSERT INTO undo_log (transaction_serial, statement)
                     VALUES ("@ + serial + ", 'DELETE FROM "@ + name + "' || "@ + row + ");"@)
            &&& says(text, " AFTER DELETE ON "@ + name + " BEGIN
                     INSERT INTO undo_log (transaction_serial, statement)
                     VALUES ("@ + serial + ", 'INSERT INTO "@ + name + " ("@ + columns + ") VALUES (' || "@ + values + " || ')');"@)
            &&& says(text, " AFTER UPDATE ON "@ + name + " BEGIN
                     INSERT INTO undo_log (transaction_serial, statement)
                     VALUES ("@ + serial + ", 'UPDATE "@ + name + "' || "@ + assignments + " || "@ + row + ");"@)
        }),
{
    let name = table.name;
    let columns = joined(table.columns, ","@);
    let values = joined(value_terms(table.columns), " || "@);
    let assignments = joined(assignment_terms(table.columns), " || "@);
    let row = joined(where_terms(table, "new"@), " || "@);
    let text = trigger_text(table, serial);
    insertions_are_recorded(name, serial, columns, values, assignments, row, text);
    deletions_are_recorded(name, serial, columns, values, assignments, row, text);
    updates_are_recorded(name, serial, columns, values, assignments, row, text);
}

/// The triggers record an insertion.
proof fn insertions_are_recorded(
    name: Seq<char>,
    serial: Seq<char>,
    columns: Seq<char>,
    values: Seq<char>,
    assignments: Seq<char>,
    row: Seq<char>,
    text: Seq<char>,
)
    requires
        text == "CREATE TEMP TRIGGER undo_"@ + name + "_insert AFTER INSERT ON "@ + name + " BEGIN
                     INSERT INTO undo_log (transaction_serial, statement)
                     VALUES ("@ + serial + ", 'DELETE FROM "@ + name + "' || "@ + row + ");
                 END;
                 CREATE TEMP TRIGGER undo_"@ + name + "_delete AFTER DELETE ON "@ + name + " BEGIN
                     INSERT INTO undo_log (transaction_serial, statement)
                     VALUES ("@ + serial + ", 'INSERT INTO "@ + name + " ("@ + columns
        + ") VALUES (' || "@ + values + " || ')');
                 END;
                 CREATE TEMP TRIGGER undo_"@ + name + "_update AFTER UPDATE ON "@ + name + " BEGIN
                     INSERT INTO undo_log (transaction_serial, statement)
                     VALUES ("@ + serial + ", 'UPDATE "@ + name + "' || "@ + assignments + " || "@
        + row + ");
                 END;"@,
    ensures
        says(text, " AFTER INSERT ON "@ + name + " BEGIN
                     INSERT INTO undo_log (transaction_serial, statement)
                     VALUES ("@ + serial + ", 'DELETE FROM "@ + name + "' || "@ + row + ");"@),
{
    words_come_apart();
    let t0 = "CREATE TEMP TRIGGER undo_"@;
    let t1 = t0 + name;
    let t2 = t1 + "_insert AFTER INSERT ON "@;
    begins_at_the_end(t1, "_insert"@, " AFTER INSERT ON "@);
    let p2 = " AFTER INSERT ON "@;
    let t3 = t2 + name;
    goes_on_at_the_end(t2, p2, name);
    let p3 = p2 + name;
    let t4 = t3 + " BEGIN
                     INSERT INTO undo_log (transaction_serial, statement)
                     VALUES ("@;
    goes_on_at_the_end(t3, p3, " BEGIN
                     INSERT INTO undo_log (transaction_serial, statement)
                     VALUES ("@);
    let p4 = p3 + " BEGIN
                     INSERT INTO undo_log (transaction_serial, statement)
                     VALUES ("@;
    let t5 = t4 + serial;
    goes_on_at_the_end(t4, p4, serial);
    let p5 = p4 + serial;
    let t6 = t5 + ", 'DELETE FROM "@;
    goes_on_at_the_end(t5, p5, ", 'DELETE FROM "@);
    let p6 = p5 + ", 'DELETE FROM "@;
    let t7 = t6 + name;
    goes_on_at_the_end(t6, p6, name);
    let p7 = p6 + name;
    let t8 = t7 + "' || "@;
    goes_on_at_the_end(t7, p7, "' || "@);
    let p8 = p7 + "' || "@;
    let t9 = t8 + row;
    goes_on_at_the_end(t8, p8, row);
    let p9 = p8 + row;
    let t10 = t9 + ");
                 END;
                 CREATE TEMP TRIGGER undo_"@;
    is_said_in_the_end(t9, p9, ");"@, "\n                 END;\n                 CREATE TEMP TRIGGER undo_"@);
    let first = p9 + ");"@;
    let t11 = t10 + name;
    stays_said(t10, first, name);
    let t12 = t11 + "_delete AFTER DELETE ON "@;
    stays_said(t11, first, "_delete AFTER DELETE ON "@);
    let t13 = t12 + name;
    stays_said(t12, first, name);
    let t14 = t13 + " BEGIN
                     INSERT INTO undo_log (transaction_serial, statement)
                     VALUES ("@;
    stays_said(t13, first, " BEGIN
                     INSERT INTO undo_log (transaction_serial, statement)
                     VALUES ("@);
    let t15 = t14 + serial;
    stays_said(t14, first, serial);
    let t16 = t15 + ", 'INSERT INTO "@;
    stays_said(t15, first, ", 'INSERT INTO "@);
    let t17 = t16 + name;
    stays_said(t16, first, name);
    let t18 = t17 + " ("@;
    stays_said(t17, first, " ("@);
    let t19 = t18 + columns;
    stays_said(t18, first, columns);
    let t20 = t19 + ") VALUES (' || "@;
    stays_said(t19, first, ") VALUES (' || "@);
    let t21 = t20 + values;
    stays_said(t20, first, values);
    let t22 = t21 + " || ')');
                 END;
                 CREATE TEMP TRIGGER undo_"@;
    stays_said(t21, first, " || ')');
                 END;
                 CREATE TEMP TRIGGER undo_"@);
    let t23 = t22 + name;
    stays_said(t22, first, name);
    let t24 = t23 + "_update AFTER UPDATE ON "@;
    stays_said(t23, first, "_update AFTER UPDATE ON "@);
    let t25 = t24 + name;
    stays_said(t24, first, name);
    let t26 = t25 + " BEGIN
                     INSERT INTO undo_log (transaction_serial, statement)
                     VALUES ("@;
    stays_said(t25, first, " BEGIN
                     INSERT INTO undo_log (transaction_serial, statement)
                     VALUES ("@);
    let t27 = t26 + serial;
    stays_said(t26, first, serial);
    let t28 = t27 + ", 'UPDATE "@;
    stays_said(t27, first, ", 'UPDATE "@);
    let t29 = t28 + name;
    stays_said(t28, first, name);
    let t30 = t29 + "' || "@;
    stays_said(t29, first, "' || "@);
    let t31 = t30 + assignments;
    stays_said(t30, first, assignments);
    let t32 = t31 + " || "@;
    stays_said(t31, first, " || "@);
    let t33 = t32 + row;
    stays_said(t32, first, row);
    let t34 = t33 + ");
                 END;"@;
    stays_said(t33, first, ");
                 END;"@);
    
}

/// The triggers record a deletion.
proof fn deletions_are_recorded(
    name: Seq<char>,
    serial: Seq<char>,
    columns: Seq<char>,
    values: Seq<char>,
    assignments: Seq<char>,
    row: Seq<char>,
    text: Seq<char>,
)
    requires
        text == "CREATE TEMP TRIGGER undo_"@ + name + "_insert AFTER INSERT ON "@ + name + " BEGIN
                     INSERT INTO undo_log (transaction_serial, statement)
                     VALUES ("@ + serial + ", 'DELETE FROM "@ + name + "' || "@ + row + ");
                 END;
                 CREATE TEMP TRIGGER undo_"@ + name + "_delete AFTER DELETE ON "@ + name + " BEGIN
                     INSERT INTO undo_log (transaction_serial, statement)
                     VALUES ("@ + serial + ", 'INSERT INTO "@ + name + " ("@ + columns
        + ") VALUES (' || "@ + values + " || ')');
                 END;
                 CREATE TEMP TRIGGER undo_"@ + name + "_update AFTER UPDATE ON "@ + name + " BEGIN
                     INSERT INTO undo_log (transaction_serial, statement)
                     VALUES ("@ + serial + ", 'UPDATE "@ + name + "' || "@ + assignments + " || "@
        + row + ");
                 END;"@,
    ensures
        says(text, " AFTER DELETE ON "@ + name + " BEGIN
                     INSERT INTO undo_log (transaction_serial, statement)
                     VALUES ("@ + serial + ", 'INSERT INTO "@ + name + " ("@ + columns + ") VALUES (' || "@ + values + " || ')');"@),
{
    words_come_apart();
    let t0 = "CREATE TEMP TRIGGER undo_"@;
    let t1 = t0 + name;
    let t2 = t1 + "_insert AFTER INSERT ON "@;
    let t3 = t2 + name;
    let t4 = t3 + " BEGIN
                     INSERT INTO undo_log (transaction_serial, statement)
                     VALUES ("@;
    let t5 = t4 + serial;
    let t6 = t5 + ", 'DELETE FROM "@;
    let t7 = t6 + name;
    let t8 = t7 + "' || "@;
    let t9 = t8 + row;
    let t10 = t9 + ");
                 END;
                 CREATE TEMP TRIGGER undo_"@;
    let t11 = t10 + name;
    let t12 = t11 + "_delete AFTER DELETE ON "@;
    begins_at_the_end(t11, "_delete"@, " AFTER DELETE ON "@);
    let p12 = " AFTER DELETE ON "@;
    let t13 = t12 + name;
    goes_on_at_the_end(t12, p12, name);
    let p13 = p12 + name;
    let t14 = t13 + " BEGIN
                     INSERT INTO undo_log (transaction_serial, statement)
                     VALUES ("@;
    goes_on_at_the_end(t13, p13, " BEGIN
                     INSERT INTO undo_log (transaction_serial, statement)
                     VALUES ("@);
    let p14 = p13 + " BEGIN
                     INSERT INTO undo_log (transaction_serial, statement)
                     VALUES ("@;
    let t15 = t14 + serial;
    goes_on_at_the_end(t14, p14, serial);
    let p15 = p14 + serial;
    let t16 = t15 + ", 'INSERT INTO "@;
    goes_on_at_the_end(t15, p15, ", 'INSERT INTO "@);
    let p16 = p15 + ", 'INSERT INTO "@;
    let t17 = t16 + name;
    goes_on_at_the_end(t16, p16, name);
    let p17 = p16 + name;
    let t18 = t17 + " ("@;
    goes_on_at_the_end(t17, p17, " ("@);
    let p18 = p17 + " ("@;
    let t19 = t18 + columns;
    goes_on_at_the_end(t18, p18, columns);
    let p19 = p18 + columns;
    let t20 = t19 + ") VALUES (' || "@;
    goes_on_at_the_end(t19, p19, ") VALUES (' || "@);
    let p20 = p19 + ") VALUES (' || "@;
    let t21 = t20 + values;
    goes_on_at_the_end(t20, p20, values);
    let p21 = p20 + values;
    let t22 = t21 + " || ')');
                 END;
                 CREATE TEMP TRIGGER undo_"@;
    is_said_in_the_end(t21, p21, " || ')');"@, "\n                 END;\n                 CREATE TEMP TRIGGER undo_"@);
    let second = p21 + " || ')');"@;
    let t23 = t22 + name;
    stays_said(t22, second, name);
    let t24 = t23 + "_update AFTER UPDATE ON "@;
    stays_said(t23, second, "_update AFTER UPDATE ON "@);
    let t25 = t24 + name;
    stays_said(t24, second, name);
    let t26 = t25 + " BEGIN
                     INSERT INTO undo_log (transaction_serial, statement)
                     VALUES ("@;
    stays_said(t25, second, " BEGIN
                     INSERT INTO undo_log (transaction_serial, statement)
                     VALUES ("@);
    let t27 = t26 + serial;
    stays_said(t26, second, serial);
    let t28 = t27 + ", 'UPDATE "@;
    stays_said(t27, second, ", 'UPDATE "@);
    let t29 = t28 + name;
    stays_said(t28, second, name);
    let t30 = t29 + "' || "@;
    stays_said(t29, second, "' || "@);
    let t31 = t30 + assignments;
    stays_said(t30, second, assignments);
    let t32 = t31 + " || "@;
    stays_said(t31, second, " || "@);
    let t33 = t32 + row;
    stays_said(t32, second, row);
    let t34 = t33 + ");
                 END;"@;
    stays_said(t33, second, ");
                 END;"@);
    
}

/// The triggers record an update.
proof fn updates_are_recorded(
    name: Seq<char>,
    serial: Seq<char>,
    columns: Seq<char>,
    values: Seq<char>,
    assignments: Seq<char>,
    row: Seq<char>,
    text: Seq<char>,
)
    requires
        text == "CREATE TEMP TRIGGER undo_"@ + name + "_insert AFTER INSERT ON "@ + name + " BEGIN
                     INSERT INTO undo_log (transaction_serial, statement)
                     VALUES ("@ + serial + ", 'DELETE FROM "@ + name + "' || "@ + row + ");
                 END;
                 CREATE TEMP TRIGGER undo_"@ + name + "_delete AFTER DELETE ON "@ + name + " BEGIN
                     INSERT INTO undo_log (transaction_serial, statement)
                     VALUES ("@ + serial + ", 'INSERT INTO "@ + name + " ("@ + columns
        + ") VALUES (' || "@ + values + " || ')');
                 END;
                 CREATE TEMP TRIGGER undo_"@ + name + "_update AFTER UPDATE ON "@ + name + " BEGIN
                     INSERT INTO undo_log (transaction_serial, statement)
                     VALUES ("@ + serial + ", 'UPDATE "@ + name + "' || "@ + assignments + " || "@
        + row + ");
                 END;"@,
    ensures
        says(text, " AFTER UPDATE ON "@ + name + " BEGIN
                     INSERT INTO undo_log (transaction_serial, statement)
                     VALUES ("@ + serial + ", 'UPDATE "@ + name + "' || "@ + assignments + " || "@ + row + ");"@),
{
    words_come_apart();
    let t0 = "CREATE TEMP TRIGGER undo_"@;
    let t1 = t0 + name;
    let t2 = t1 + "_insert AFTER INSERT ON "@;
    let t3 = t2 + name;
    let t4 = t3 + " BEGIN
                     INSERT INTO undo_log (transaction_serial, statement)
                     VALUES ("@;
    let t5 = t4 + serial;
    let t6 = t5 + ", 'DELETE FROM "@;
    let t7 = t6 + name;
    let t8 = t7 + "' || "@;
    let t9 = t8 + row;
    let t10 = t9 + ");
                 END;
                 CREATE TEMP TRIGGER undo_"@;
    let t11 = t10 + name;
    let t12 = t11 + "_delete AFTER DELETE ON "@;
    let t13 = t12 + name;
    let t14 = t13 + " BEGIN
                     INSERT INTO undo_log (transaction_serial, statement)
                     VALUES ("@;
    let t15 = t14 + serial;
    let t16 = t15 + ", 'INSERT INTO "@;
    let t17 = t16 + name;
    let t18 = t17 + " ("@;
    let t19 = t18 + columns;
    let t20 = t19 + ") VALUES (' || "@;
    let t21 = t20 + values;
    let t22 = t21 + " || ')');
                 END;
                 CREATE TEMP TRIGGER undo_"@;
    let t23 = t22 + name;
    let t24 = t23 + "_update AFTER UPDATE ON "@;
    begins_at_the_end(t23, "_update"@, " AFTER UPDATE ON "@);
    let p24 = " AFTER UPDATE ON "@;
    let t25 = t24 + name;
    goes_on_at_the_end(t24, p24, name);
    let p25 = p24 + name;
    let t26 = t25 + " BEGIN
                     INSERT INTO undo_log (transaction_serial, statement)
                     VALUES ("@;
    goes_on_at_the_end(t25, p25, " BEGIN
                     INSERT INTO undo_log (transaction_serial, statement)
                     VALUES ("@);
    let p26 = p25 + " BEGIN
                     INSERT INTO undo_log (transaction_serial, statement)
                     VALUES ("@;
    let t27 = t26 + serial;
    goes_on_at_the_end(t26, p26, serial);
    let p27 = p26 + serial;
    let t28 = t27 + ", 'UPDATE "@;
    goes_on_at_the_end(t27, p27, ", 'UPDATE "@);
    let p28 = p27 + ", 'UPDATE "@;
    let t29 = t28 + name;
    goes_on_at_the_end(t28, p28, name);
    let p29 = p28 + name;
    let t30 = t29 + "' || "@;
    goes_on_at_the_end(t29, p29, "' || "@);
    let p30 = p29 + "' || "@;
    let t31 = t30 + assignments;
    goes_on_at_the_end(t30, p30, assignments);
    let p31 = p30 + assignments;
    let t32 = t31 + " || "@;
    goes_on_at_the_end(t31, p31, " || "@);
    let p32 = p31 + " || "@;
    let t33 = t32 + row;
    goes_on_at_the_end(t32, p32, row);
    let p33 = p32 + row;
    let t34 = t33 + ");
                 END;"@;
    is_said_in_the_end(t33, p33, ");"@, "\n                 END;"@);
    let third = p33 + ");"@;
    
}

/// The words of the triggers, taken apart.
proof fn words_come_apart()
    ensures
        "_insert AFTER INSERT ON "@ == "_insert"@ + " AFTER INSERT ON "@,
        ");
                 END;
                 CREATE TEMP TRIGGER undo_"@ == ");"@ + "\n                 END;\n                 CREATE TEMP TRIGGER undo_"@,
        "_delete AFTER DELETE ON "@ == "_delete"@ + " AFTER DELETE ON "@,
        " || ')');
                 END;
                 CREATE TEMP TRIGGER undo_"@ == " || ')');"@ + "\n                 END;\n                 CREATE TEMP TRIGGER undo_"@,
        "_update AFTER UPDATE ON "@ == "_update"@ + " AFTER UPDATE ON "@,
        ");
                 END;"@ == ");"@ + "\n                 END;"@,
{
    assert("_insert AFTER INSERT ON "@ =~= "_insert"@ + " AFTER INSERT ON "@) by {
        reveal_strlit("_insert AFTER INSERT ON ");
        reveal_strlit("_insert");
        reveal_strlit(" AFTER INSERT ON ");
    }
    assert(");
                 END;
                 CREATE TEMP TRIGGER undo_"@ =~= ");"@ + "\n                 END;\n                 CREATE TEMP TRIGGER undo_"@) by {
        reveal_strlit(");
                 END;
                 CREATE TEMP TRIGGER undo_");
        reveal_strlit(");");
        reveal_strlit("\n                 END;\n                 CREATE TEMP TRIGGER undo_");
    }
    assert("_delete AFTER DELETE ON "@ =~= "_delete"@ + " AFTER DELETE ON "@) by {
        reveal_strlit("_delete AFTER DELETE ON ");
        reveal_strlit("_delete");
        reveal_strlit(" AFTER DELETE ON ");
    }
    assert(" || ')');
                 END;
                 CREATE TEMP TRIGGER undo_"@ =~= " || ')');"@ + "\n                 END;\n                 CREATE TEMP TRIGGER undo_"@) by {
        reveal_strlit(" || ')');
                 END;
                 CREATE TEMP TRIGGER undo_");
        reveal_strlit(" || ')');");
        reveal_strlit("\n                 END;\n                 CREATE TEMP TRIGGER undo_");
    }
    assert("_update AFTER UPDATE ON "@ =~= "_update"@ + " AFTER UPDATE ON "@) by {
        reveal_strlit("_update AFTER UPDATE ON ");
        reveal_strlit("_update");
        reveal_strlit(" AFTER UPDATE ON ");
    }
    assert(");
                 END;"@ =~= ");"@ + "\n                 END;"@) by {
        reveal_strlit(");
                 END;");
        reveal_strlit(");");
        reveal_strlit("\n                 END;");
    }
}

/// The text ends in the piece.
#[verifier::opaque]
spec fn ends_in(text: Seq<char>, piece: Seq<char>) -> bool {
    exists|front: Seq<char>| text == #[trigger] (front + piece)
}

proof fn begins_at_the_end(text: Seq<char>, front: Seq<char>, piece: Seq<char>)
    ensures
        ends_in(text + (front + piece), piece),
{
    reveal(ends_in);
    assert(text + (front + piece) =~= (text + front) + piece);
}

proof fn goes_on_at_the_end(text: Seq<char>, piece: Seq<char>, more: Seq<char>)
    requires
        ends_in(text, piece),
    ensures
        ends_in(text + more, piece + more),
{
    reveal(ends_in);
    let front = choose|front: Seq<char>| text == #[trigger] (front + piece);
    assert(text + more =~= front + (piece + more));
}

proof fn is_said_in_the_end(text: Seq<char>, piece: Seq<char>, more: Seq<char>, rest: Seq<char>)
    requires
        ends_in(text, piece),
    ensures
        says(text + (more + rest), piece + more),
{
    reveal(ends_in);
    let front = choose|front: Seq<char>| text == #[trigger] (front + piece);
    let whole = text + (more + rest);
    let said = piece + more;
    let at = front.len() as int;
    assert(whole.subrange(at, at + said.len()) =~= said);
    assert(says_at(whole, said, at));
}

proof fn stays_said(text: Seq<char>, piece: Seq<char>, more: Seq<char>)
    requires
        says(text, piece),
    ensures
        says(text + more, piece),
{
    let at = choose|at: int| says_at(text, piece, at);
    assert((text + more).subrange(at, at + piece.len()) =~= piece);
    assert(says_at(text + more, piece, at));
}

} // verus!
