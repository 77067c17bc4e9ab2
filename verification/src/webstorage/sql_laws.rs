//! What the statements on the table of an origin's items mean.

use vstd::prelude::*;
use vstd::string::*;

use crate::indexeddb::engine::model::{StatementView, ValueView};
use crate::indexeddb::engine::sql::{
    cells_of, cells_values, columns_text, compares, equals, holds, places_text, terms_text,
    terms_values, Cell, Sql, Term,
};
use crate::webstorage::sqlite::{create_table_sql, Change, Question, Row};

verus! {

/// A row of the table, by its columns.
pub open spec fn item_row(row: Row) -> crate::indexeddb::engine::sql::Row {
    |column: Seq<char>|
        if column == "key"@ {
            ValueView::Text(row.key)
        } else if column == "value"@ {
            ValueView::Text(row.value)
        } else {
            ValueView::Null
        }
}

/// The comparison that picks the rows of a key.
pub open spec fn of_key(key: Seq<char>) -> Seq<Term> {
    seq![equals("key"@, ValueView::Text(key))]
}

/// The comparison holds of the rows of the key and of no other.
proof fn keys_pick_rows(key: Seq<char>, row: Row)
    ensures
        holds(of_key(key), item_row(row)) <==> row.key == key,
        terms_text(of_key(key)) == " WHERE key = ?"@,
        terms_values(of_key(key)) == seq![ValueView::Text(key)],
{
    reveal_strlit("key");
    reveal_strlit(" WHERE ");
    reveal_strlit(" ");
    reveal_strlit("=");
    reveal_strlit(" ?");
    reveal_strlit(" WHERE key = ?");
    let terms = of_key(key);
    assert(terms.drop_last() =~= seq![]);
    reveal_with_fuel(terms_text, 2);
    assert(terms_text(terms) =~= " WHERE key = ?"@);
    assert(terms_values(terms) =~= seq![ValueView::Text(key)]);
    assert(terms[0].column == "key"@);
    if row.key == key {
        assert(holds(terms, item_row(row)));
    } else {
        assert(!compares(item_row(row)(terms[0].column), terms[0].test, terms[0].bound));
    }
}

/// The question for a value is answered from the rows of its key.
pub proof fn values_are_asked_of_their_key(key: String, row: Row)
    ensures
        (Question::Value { key }).asks().sql == "SELECT "@ + "value"@ + " FROM data"@ + terms_text(
            of_key(key@),
        ),
        (Question::Value { key }).asks().values == terms_values(of_key(key@)),
        holds(of_key(key@), item_row(row)) <==> row.key == key@,
{
    keys_pick_rows(key@, row);
    reveal_strlit("SELECT ");
    reveal_strlit("value");
    reveal_strlit(" FROM data");
    reveal_strlit(" WHERE key = ?");
    reveal_strlit("SELECT value FROM data WHERE key = ?");
    assert(Question::Value { key }.asks().sql =~= "SELECT "@ + "value"@ + " FROM data"@ + terms_text(
        of_key(key@),
    ));
    assert(Question::Value { key }.asks().values =~= terms_values(of_key(key@)));
}

/// A key is asked for by its place among all keys: the same rows, in the same ascending order, of
/// which as many are passed over as the place says and one is taken.
pub proof fn keys_are_asked_in_order(index: i64)
    ensures
        Question::Keys.asks().sql == "SELECT "@ + "key"@ + " FROM data"@ + " ORDER BY "@ + "key"@,
        Question::Keys.asks().values.len() == 0,
        (Question::Key { index }).asks().sql == Question::Keys.asks().sql + " LIMIT 1 OFFSET ?"@,
        (Question::Key { index }).asks().values == seq![ValueView::Integer(index as int)],
{
    reveal_strlit("SELECT ");
    reveal_strlit("key");
    reveal_strlit(" FROM data");
    reveal_strlit(" ORDER BY ");
    reveal_strlit(" LIMIT 1 OFFSET ?");
    reveal_strlit("SELECT key FROM data ORDER BY key");
    reveal_strlit("SELECT key FROM data ORDER BY key LIMIT 1 OFFSET ?");
    assert(Question::Keys.asks().sql =~= "SELECT "@ + "key"@ + " FROM data"@ + " ORDER BY "@
        + "key"@);
    assert(Question::Key { index }.asks().sql =~= Question::Keys.asks().sql + " LIMIT 1 OFFSET ?"@);
}

/// The number of the items and their size are asked of every row, and the size is that of keys and
/// values together.
pub proof fn sums_are_of_all_rows()
    ensures
        Question::Count.asks() == (StatementView {
            sql: "SELECT "@ + "COUNT(*)"@ + " FROM data"@,
            values: seq![],
        }),
        Question::Size.asks() == (StatementView {
            sql: "SELECT COALESCE(SUM("@ + "LENGTH("@ + "key"@ + ") + LENGTH("@ + "value"@ + ")), 0)"@
                + " FROM data"@,
            values: seq![],
        }),
{
    reveal_strlit("SELECT ");
    reveal_strlit("COUNT(*)");
    reveal_strlit(" FROM data");
    reveal_strlit("SELECT COUNT(*) FROM data");
    reveal_strlit("SELECT COALESCE(SUM(");
    reveal_strlit("LENGTH(");
    reveal_strlit("key");
    reveal_strlit(") + LENGTH(");
    reveal_strlit("value");
    reveal_strlit(")), 0)");
    reveal_strlit("SELECT COALESCE(SUM(LENGTH(key) + LENGTH(value)), 0) FROM data");
    assert(Question::Count.asks().sql =~= "SELECT "@ + "COUNT(*)"@ + " FROM data"@);
    assert(Question::Size.asks().sql =~= "SELECT COALESCE(SUM("@ + "LENGTH("@ + "key"@
        + ") + LENGTH("@ + "value"@ + ")), 0)"@ + " FROM data"@);
}

/// The table has the columns that the statements name.
pub proof fn the_table_has_its_columns()
    ensures
        create_table_sql() == "CREATE TABLE IF NOT EXISTS "@ + "data"@ + " ("@
            + "id INTEGER PRIMARY KEY AUTOINCREMENT, "@ + "key"@ + " TEXT, "@ + "value"@ + " TEXT"@
            + ");"@,
{
    reveal_strlit("CREATE TABLE IF NOT EXISTS ");
    reveal_strlit("data");
    reveal_strlit(" (");
    reveal_strlit("id INTEGER PRIMARY KEY AUTOINCREMENT, ");
    reveal_strlit("key");
    reveal_strlit(" TEXT, ");
    reveal_strlit("value");
    reveal_strlit(" TEXT");
    reveal_strlit(");");
    reveal_strlit(
        "CREATE TABLE IF NOT EXISTS data (id INTEGER PRIMARY KEY AUTOINCREMENT, key TEXT, value TEXT);",
    );
    assert(create_table_sql() =~= "CREATE TABLE IF NOT EXISTS "@ + "data"@ + " ("@
        + "id INTEGER PRIMARY KEY AUTOINCREMENT, "@ + "key"@ + " TEXT, "@ + "value"@ + " TEXT"@
        + ");"@);
}

/// The statement of an update gives the rows of the key the value and leaves the others.
pub proof fn updates_change_the_rows_of_the_key(key: String, value: String, rows: Seq<Row>, i: int)
    requires
        0 <= i < rows.len(),
    ensures
        ({
            let change = Change::Update { key, value };
            let cells = seq![Cell { column: "value"@, value: ValueView::Text(value@) }];
            let after = change.applied(rows);
            &&& change.writes() == (Sql::Update { table: "data"@, cells, terms: of_key(key@) }).statement()
            &&& after.len() == rows.len()
            &&& after[i].key == rows[i].key
            &&& if holds(of_key(key@), item_row(rows[i])) {
                cells_of(cells, item_row(after[i]))
            } else {
                after[i] == rows[i]
            }
        }),
{
    let change = Change::Update { key, value };
    let cells = seq![Cell { column: "value"@, value: ValueView::Text(value@) }];
    keys_pick_rows(key@, rows[i]);
    reveal_strlit("UPDATE data SET value = ? WHERE key = ?");
    reveal_strlit("UPDATE ");
    reveal_strlit("data");
    reveal_strlit(" SET ");
    reveal_strlit("value");
    reveal_strlit("key");
    reveal_strlit("");
    reveal_strlit(" = ?");
    reveal_strlit(" WHERE key = ?");
    assert(cells.drop_last() =~= seq![]);
    reveal_with_fuel(columns_text, 2);
    assert(cells_values(cells) =~= seq![ValueView::Text(value@)]);
    let statement = (Sql::Update { table: "data"@, cells, terms: of_key(key@) }).statement();
    assert(change.writes().sql =~= statement.sql);
    assert(change.writes().values =~= statement.values);
    assert("value"@ != "key"@) by {
        assert("value"@.len() != "key"@.len());
    }
}

/// The statement of an insertion adds one row, with the key and the value in their columns.
pub proof fn insertions_add_one_row(key: String, value: String, rows: Seq<Row>)
    ensures
        ({
            let change = Change::Insert { key, value };
            let cells = seq![
                Cell { column: "key"@, value: ValueView::Text(key@) },
                Cell { column: "value"@, value: ValueView::Text(value@) },
            ];
            let after = change.applied(rows);
            &&& change.writes() == (Sql::Insert { replace: false, table: "data"@, cells }).statement()
            &&& after.len() == rows.len() + 1
            &&& after.drop_last() == rows
            &&& cells_of(cells, item_row(after.last()))
        }),
{
    let change = Change::Insert { key, value };
    let first = seq![Cell { column: "key"@, value: ValueView::Text(key@) }];
    let cells = seq![
        Cell { column: "key"@, value: ValueView::Text(key@) },
        Cell { column: "value"@, value: ValueView::Text(value@) },
    ];
    reveal_strlit("INSERT INTO data (key, value) VALUES (?, ?)");
    reveal_strlit("INSERT INTO ");
    reveal_strlit("data");
    reveal_strlit(" (");
    reveal_strlit("key");
    reveal_strlit("value");
    reveal_strlit(", ");
    reveal_strlit("");
    reveal_strlit(") VALUES (");
    reveal_strlit("?");
    reveal_strlit(", ?");
    reveal_strlit(")");
    assert(cells.drop_last() =~= first);
    assert(first.drop_last() =~= seq![]);
    reveal_with_fuel(columns_text, 3);
    reveal_with_fuel(places_text, 3);
    assert(cells_values(cells) =~= seq![ValueView::Text(key@), ValueView::Text(value@)]);
    let statement = (Sql::Insert { replace: false, table: "data"@, cells }).statement();
    assert(change.writes().sql =~= statement.sql);
    assert(change.writes().values =~= statement.values);
    assert(change.applied(rows).drop_last() =~= rows);
    assert("value"@ != "key"@) by {
        assert("value"@.len() != "key"@.len());
    }
}

/// The statement of a deletion takes out the rows of the key and keeps the others in their order;
/// that of clearing the table takes out every row.
pub proof fn deletions_take_out_the_rows_of_the_key(key: String, rows: Seq<Row>, row: Row)
    ensures
        (Change::Delete { key }).writes() == (Sql::Delete { table: "data"@, terms: of_key(key@) }).statement(),
        Change::DeleteAll.writes() == (Sql::Delete { table: "data"@, terms: seq![] }).statement(),
        (Change::Delete { key }).applied(rows) == rows.filter(
            |row: Row| !holds(of_key(key@), item_row(row)),
        ),
        Change::DeleteAll.applied(rows).len() == 0,
{
    keys_pick_rows(key@, row);
    reveal_strlit("DELETE FROM data WHERE key = ?");
    reveal_strlit("DELETE FROM data");
    reveal_strlit("DELETE FROM ");
    reveal_strlit("data");
    reveal_strlit(" WHERE key = ?");
    let one = (Sql::Delete { table: "data"@, terms: of_key(key@) }).statement();
    let all = (Sql::Delete { table: "data"@, terms: seq![] }).statement();
    assert(terms_values(seq![]) =~= seq![]);
    assert(Change::Delete { key }.writes().sql =~= one.sql);
    assert(Change::Delete { key }.writes().values =~= one.values);
    assert(Change::DeleteAll.writes().sql =~= all.sql);
    assert(Change::DeleteAll.writes().values =~= all.values);
    assert forall|row: Row| (#[trigger] row.key != key@) <==> !holds(of_key(key@), item_row(row)) by {
        keys_pick_rows(key@, row);
    }
    same_filter(
        rows,
        |row: Row| row.key != key@,
        |row: Row| !holds(of_key(key@), item_row(row)),
    );
}

/// Two tests that agree keep the same rows.
proof fn same_filter(rows: Seq<Row>, one: spec_fn(Row) -> bool, other: spec_fn(Row) -> bool)
    requires
        forall|row: Row| #[trigger] one(row) == other(row),
    ensures
        rows.filter(one) == rows.filter(other),
    decreases rows.len(),
{
    reveal(Seq::filter);
    if rows.len() > 0 {
        same_filter(rows.drop_last(), one, other);
        assert(one(rows.last()) == other(rows.last()));
    }
}

} // verus!
