//! The statements with which an origin's items are kept in an SQLite table, and what they do to the
//! table.

use vstd::prelude::*;
use vstd::string::*;

use crate::indexeddb::engine::model::{values_view, Statement, StatementView, Value, ValueView};

verus! {

/// The statement that makes the table.
pub open spec fn create_table_sql() -> Seq<char> {
    "CREATE TABLE IF NOT EXISTS data (id INTEGER PRIMARY KEY AUTOINCREMENT, key TEXT, value TEXT);"@
}

/// A question to the table.
#[derive(Debug)]
pub enum Question {
    /// How many items there are.
    Count,
    /// The key at a place in ascending order.
    Key { index: i64 },
    /// All keys in ascending order.
    Keys,
    /// The value of a key.
    Value { key: String },
    /// How many characters the keys and values have.
    Size,
}

/// A write to the table.
#[derive(Debug)]
pub enum Change {
    Update { key: String, value: String },
    Insert { key: String, value: String },
    Delete { key: String },
    DeleteAll,
}

/// The statement that makes the table.
pub fn create_table() -> (sql: String)
    ensures
        sql@ == create_table_sql(),
{
    "CREATE TABLE IF NOT EXISTS data (id INTEGER PRIMARY KEY AUTOINCREMENT, key TEXT, value TEXT);".to_owned()
}

impl Question {
    /// The statement that asks the question.
    pub open spec fn asks(&self) -> StatementView {
        match self {
            Question::Count => StatementView {
                sql: "SELECT COUNT(*) FROM data"@,
                values: seq![],
            },
            Question::Key { index } => StatementView {
                sql: "SELECT key FROM data ORDER BY key LIMIT 1 OFFSET ?"@,
                values: seq![ValueView::Integer(*index as int)],
            },
            Question::Keys => StatementView {
                sql: "SELECT key FROM data ORDER BY key"@,
                values: seq![],
            },
            Question::Value { key } => StatementView {
                sql: "SELECT value FROM data WHERE key = ?"@,
                values: seq![ValueView::Text(key@)],
            },
            Question::Size => StatementView {
                sql: "SELECT COALESCE(SUM(LENGTH(key) + LENGTH(value)), 0) FROM data"@,
                values: seq![],
            },
        }
    }

    /// The statement that asks the question.
    pub fn statement(&self) -> (statement: Statement)
        ensures
            statement@ == self.asks(),
    {
        let statement = match self {
            Question::Count => Statement {
                sql: "SELECT COUNT(*) FROM data".to_owned(),
                values: Vec::new(),
            },
            Question::Key { index } => Statement {
                sql: "SELECT key FROM data ORDER BY key LIMIT 1 OFFSET ?".to_owned(),
                values: vec![Value::Integer(*index)],
            },
            Question::Keys => Statement {
                sql: "SELECT key FROM data ORDER BY key".to_owned(),
                values: Vec::new(),
            },
            Question::Value { key } => Statement {
                sql: "SELECT value FROM data WHERE key = ?".to_owned(),
                values: vec![Value::Text(key.clone())],
            },
            Question::Size => Statement {
                sql: "SELECT COALESCE(SUM(LENGTH(key) + LENGTH(value)), 0) FROM data".to_owned(),
                values: Vec::new(),
            },
        };
        assert(values_view(statement.values@) =~= self.asks().values);
        statement
    }
}

/// A row of the table, without its number.
pub struct Row {
    pub key: Seq<char>,
    pub value: Seq<char>,
}

/// Row `i` has the key.
pub open spec fn row_at(rows: Seq<Row>, key: Seq<char>, i: int) -> bool {
    0 <= i < rows.len() && rows[i].key == key
}

/// No key has two rows.
pub open spec fn keys_once(rows: Seq<Row>) -> bool {
    forall|i: int, j: int|
        0 <= i < j < rows.len() ==> (#[trigger] rows[i]).key != (#[trigger] rows[j]).key
}

/// The values by key.
pub open spec fn table_contents(rows: Seq<Row>) -> Map<Seq<char>, Seq<char>> {
    Map::new(
        |key: Seq<char>| exists|i: int| row_at(rows, key, i),
        |key: Seq<char>| rows[choose|i: int| row_at(rows, key, i)].value,
    )
}

impl Change {
    /// The statement that makes the change.
    pub open spec fn writes(&self) -> StatementView {
        match self {
            Change::Update { key, value } => StatementView {
                sql: "UPDATE data SET value = ? WHERE key = ?"@,
                values: seq![ValueView::Text(value@), ValueView::Text(key@)],
            },
            Change::Insert { key, value } => StatementView {
                sql: "INSERT INTO data (key, value) VALUES (?, ?)"@,
                values: seq![ValueView::Text(key@), ValueView::Text(value@)],
            },
            Change::Delete { key } => StatementView {
                sql: "DELETE FROM data WHERE key = ?"@,
                values: seq![ValueView::Text(key@)],
            },
            Change::DeleteAll => StatementView { sql: "DELETE FROM data"@, values: seq![] },
        }
    }

    /// The statement that makes the change.
    pub fn statement(&self) -> (statement: Statement)
        ensures
            statement@ == self.writes(),
    {
        let statement = match self {
            Change::Update { key, value } => Statement {
                sql: "UPDATE data SET value = ? WHERE key = ?".to_owned(),
                values: vec![Value::Text(value.clone()), Value::Text(key.clone())],
            },
            Change::Insert { key, value } => Statement {
                sql: "INSERT INTO data (key, value) VALUES (?, ?)".to_owned(),
                values: vec![Value::Text(key.clone()), Value::Text(value.clone())],
            },
            Change::Delete { key } => Statement {
                sql: "DELETE FROM data WHERE key = ?".to_owned(),
                values: vec![Value::Text(key.clone())],
            },
            Change::DeleteAll => Statement { sql: "DELETE FROM data".to_owned(), values: Vec::new() },
        };
        assert(values_view(statement.values@) =~= self.writes().values);
        statement
    }

    /// The rows after the change.
    pub open spec fn applied(&self, rows: Seq<Row>) -> Seq<Row> {
        match self {
            Change::Update { key, value } => rows.map_values(
                |row: Row|
                    if row.key == key@ {
                        Row { key: row.key, value: value@ }
                    } else {
                        row
                    },
            ),
            Change::Insert { key, value } => rows.push(Row { key: key@, value: value@ }),
            Change::Delete { key } => rows.filter(|row: Row| row.key != key@),
            Change::DeleteAll => seq![],
        }
    }

    /// Some row is changed.
    pub open spec fn finds_rows(&self, rows: Seq<Row>) -> bool {
        match self {
            Change::Update { key, value } => exists|i: int| row_at(rows, key@, i),
            Change::Delete { key } => exists|i: int| row_at(rows, key@, i),
            Change::Insert { .. } => true,
            Change::DeleteAll => rows.len() > 0,
        }
    }
}

/// What is left to write to set an item, once the update has changed `updated` rows.
pub fn after_update(updated: usize, key: &String, value: &String) -> (change: Option<Change>)
    ensures
        updated > 0 <==> change is None,
        change matches Some(change) ==> (change matches Change::Insert { key: k, value: v } && k@
            == key@ && v@ == value@),
{
    if updated == 0 {
        Some(Change::Insert { key: key.clone(), value: value.clone() })
    } else {
        None
    }
}

/// Whether clearing a table that held `count` items changes it.
pub fn clear_changes(count: i64) -> (changed: bool)
    ensures
        changed == (count != 0),
{
    count != 0
}

/// Setting an item, that is updating its row and inserting one where there was none, gives the key
/// the value, leaves every other item as it was, and gives no key a second row.
pub proof fn set_statements_set_the_item(rows: Seq<Row>, key: String, value: String)
    requires
        keys_once(rows),
    ensures
        ({
            let update = Change::Update { key, value };
            let insert = Change::Insert { key, value };
            let updated = update.applied(rows);
            let after = if update.finds_rows(rows) {
                updated
            } else {
                insert.applied(updated)
            };
            &&& keys_once(after)
            &&& table_contents(after) == table_contents(rows).insert(key@, value@)
        }),
{
    let update = Change::Update { key, value };
    let insert = Change::Insert { key, value };
    let updated = update.applied(rows);
    let found = update.finds_rows(rows);
    let after = if found {
        updated
    } else {
        insert.applied(updated)
    };
    assert(updated.len() == rows.len());
    assert forall|i: int| 0 <= i < rows.len() implies (#[trigger] after[i]).key == rows[i].key
        && after[i].value == (if rows[i].key == key@ { value@ } else { rows[i].value }) by {
        assert(updated[i] == after[i]);
    }
    assert forall|i: int, j: int| 0 <= i < j < after.len() implies (#[trigger] after[i]).key != (
    #[trigger] after[j]).key by {
        assert(after[i].key == rows[i].key);
        if j < rows.len() {
            assert(rows[i].key != rows[j].key);
        } else {
            assert(!row_at(rows, key@, i));
        }
    }
    let expected = table_contents(rows).insert(key@, value@);
    assert forall|k: Seq<char>| #[trigger] table_contents(after).contains_key(
        k,
    ) <==> expected.contains_key(k) by {
        if exists|i: int| row_at(after, k, i) {
            let i = choose|i: int| row_at(after, k, i);
            if i < rows.len() {
                assert(row_at(rows, k, i));
            }
        }
        if exists|i: int| row_at(rows, k, i) {
            let i = choose|i: int| row_at(rows, k, i);
            assert(row_at(after, k, i));
        }
        if k == key@ && !found {
            assert(row_at(after, k, rows.len() as int));
        }
    }
    assert forall|k: Seq<char>| table_contents(after).contains_key(k) implies #[trigger]
        table_contents(after)[k] == expected[k] by {
        let i = choose|i: int| row_at(after, k, i);
        assert(row_at(after, k, i));
        one_row(after, k, i);
        if i < rows.len() {
            assert(row_at(rows, k, i));
            one_row(rows, k, i);
        }
    }
    assert(table_contents(after) =~= expected);
}

/// Deleting a key's rows takes the item out and leaves every other item as it was.
pub proof fn delete_statement_takes_the_item_out(rows: Seq<Row>, key: String)
    requires
        keys_once(rows),
    ensures
        keys_once(Change::Delete { key }.applied(rows)),
        table_contents(Change::Delete { key }.applied(rows)) == table_contents(rows).remove(key@),
    decreases rows.len(),
{
    let after = Change::Delete { key }.applied(rows);
    let keep = |row: Row| row.key != key@;
    reveal(Seq::filter);
    if rows.len() == 0 {
        assert(table_contents(after) =~= table_contents(rows).remove(key@));
    } else {
        let fewer = rows.drop_last();
        let last = rows.last();
        let n = rows.len() - 1;
        assert(rows[n] == last);
        assert forall|i: int, j: int| 0 <= i < j < fewer.len() implies (#[trigger] fewer[i]).key
            != (#[trigger] fewer[j]).key by {
            assert(rows[i].key != rows[j].key);
        }
        delete_statement_takes_the_item_out(fewer, key);
        let before = Change::Delete { key }.applied(fewer);
        one_more_row(fewer, last);
        assert(fewer.push(last) =~= rows);
        assert(!table_contents(fewer).contains_key(last.key)) by {
            if table_contents(fewer).contains_key(last.key) {
                let i = choose|i: int| row_at(fewer, last.key, i);
                assert(rows[i].key != rows[n].key);
            }
        }
        if last.key != key@ {
            assert(after =~= before.push(last));
            assert forall|i: int| 0 <= i < before.len() implies (#[trigger] before[i]).key
                != last.key by {
                assert(row_at(before, before[i].key, i));
                assert(table_contents(before).contains_key(before[i].key));
            }
            one_more_row(before, last);
            assert(table_contents(after) =~= table_contents(rows).remove(key@));
        } else {
            assert(after =~= before);
            assert(table_contents(after) =~= table_contents(rows).remove(key@));
        }
    }
}

/// A row with a new key adds its item.
proof fn one_more_row(rows: Seq<Row>, row: Row)
    requires
        keys_once(rows),
        forall|i: int| 0 <= i < rows.len() ==> (#[trigger] rows[i]).key != row.key,
    ensures
        keys_once(rows.push(row)),
        table_contents(rows.push(row)) == table_contents(rows).insert(row.key, row.value),
{
    let after = rows.push(row);
    let n = rows.len() as int;
    assert forall|i: int, j: int| 0 <= i < j < after.len() implies (#[trigger] after[i]).key != (
    #[trigger] after[j]).key by {
        assert(after[i] == rows[i]);
        if j < n {
            assert(after[j] == rows[j]);
        }
    }
    let expected = table_contents(rows).insert(row.key, row.value);
    assert forall|k: Seq<char>| #[trigger] table_contents(after).contains_key(
        k,
    ) <==> expected.contains_key(k) by {
        if exists|i: int| row_at(after, k, i) {
            let i = choose|i: int| row_at(after, k, i);
            if i < n {
                assert(row_at(rows, k, i));
            }
        }
        if exists|i: int| row_at(rows, k, i) {
            let i = choose|i: int| row_at(rows, k, i);
            assert(row_at(after, k, i));
        }
        assert(row_at(after, row.key, n));
    }
    assert forall|k: Seq<char>| table_contents(after).contains_key(k) implies #[trigger]
        table_contents(after)[k] == expected[k] by {
        let i = choose|i: int| row_at(after, k, i);
        assert(row_at(after, k, i));
        one_row(after, k, i);
        if i < n {
            assert(row_at(rows, k, i));
            one_row(rows, k, i);
        }
    }
    assert(table_contents(after) =~= expected);
}

/// A key's value is that of its one row.
proof fn one_row(rows: Seq<Row>, key: Seq<char>, i: int)
    requires
        keys_once(rows),
        row_at(rows, key, i),
    ensures
        table_contents(rows).contains_key(key),
        table_contents(rows)[key] == rows[i].value,
{
    let k = choose|k: int| row_at(rows, key, k);
    assert(row_at(rows, key, k));
    if i < k {
        assert(rows[i].key != rows[k].key);
    } else if k < i {
        assert(rows[k].key != rows[i].key);
    }
}

} // verus!
