//! What the texts of statements mean, and that the statements of the engine do what is asked.

use vstd::prelude::*;
use vstd::string::*;

use crate::indexeddb::engine::command::Write;
use crate::indexeddb::engine::model::{index_table_name, IndexModel, StatementView, ValueView};
use crate::indexeddb::engine::put::QuestionView;
use crate::indexeddb::engine::query::{
    built_delete, comparison, count_clauses, get_clauses, index_count_statement,
    index_records_statement, range_deletion, range_predicate, range_tests, range_values,
    records_clauses, ColumnTest, KeyTest, SelectClause,
};
use crate::indexeddb::engine::tables::Tables;
use crate::indexeddb::key::{key_le, key_lt, key_lt_asymmetric, RangeView};
use crate::indexeddb::record::RecordsShape;

verus! {

/// How a comparison is spelled.
pub open spec fn spelled(test: KeyTest) -> Seq<char> {
    match test {
        KeyTest::Equal => "="@,
        KeyTest::Less => "<"@,
        KeyTest::LessOrEqual => "<="@,
        KeyTest::Greater => ">"@,
        KeyTest::GreaterOrEqual => ">="@,
    }
}

/// What a comparison of two values comes to: byte strings compare byte by byte, and values of
/// different kinds are never equal.
pub open spec fn compares(value: ValueView, test: KeyTest, bound: ValueView) -> bool {
    match (value, bound) {
        (ValueView::Integer(value), ValueView::Integer(bound)) => match test {
            KeyTest::Equal => value == bound,
            KeyTest::Less => value < bound,
            KeyTest::LessOrEqual => value <= bound,
            KeyTest::Greater => value > bound,
            KeyTest::GreaterOrEqual => value >= bound,
        },
        (ValueView::Blob(value), ValueView::Blob(bound)) => match test {
            KeyTest::Equal => value == bound,
            KeyTest::Less => key_lt(value, bound),
            KeyTest::LessOrEqual => key_le(value, bound),
            KeyTest::Greater => key_lt(bound, value),
            KeyTest::GreaterOrEqual => key_le(bound, value),
        },
        (ValueView::Text(value), ValueView::Text(bound)) => test == KeyTest::Equal && value == bound,
        _ => false,
    }
}

/// One comparison of a column with a bound value.
pub struct Term {
    pub column: Seq<char>,
    pub test: KeyTest,
    pub bound: ValueView,
}

/// A column is this value.
pub open spec fn equals(column: Seq<char>, bound: ValueView) -> Term {
    Term { column, test: KeyTest::Equal, bound }
}

/// A row, by its columns.
pub type Row = spec_fn(Seq<char>) -> ValueView;

/// The comparisons as a `WHERE` clause spells them.
pub open spec fn terms_text(terms: Seq<Term>) -> Seq<char>
    decreases terms.len(),
{
    if terms.len() == 0 {
        seq![]
    } else {
        let term = terms.last();
        terms_text(terms.drop_last()) + (if terms.len() == 1 {
            " WHERE "@
        } else {
            " AND "@
        }) + term.column + " "@ + spelled(term.test) + " ?"@
    }
}

/// The values that are bound to the comparisons.
pub open spec fn terms_values(terms: Seq<Term>) -> Seq<ValueView> {
    terms.map_values(|term: Term| term.bound)
}

/// All comparisons hold of the row.
pub open spec fn holds(terms: Seq<Term>, row: Row) -> bool {
    forall|i: int|
        0 <= i < terms.len() ==> compares(
            row((#[trigger] terms[i]).column),
            terms[i].test,
            terms[i].bound,
        )
}

/// A row of `object_data`.
pub open spec fn object_row(store: int, key: Seq<u8>, data: Seq<u8>) -> Row {
    |column: Seq<char>|
        if column == "object_store_id"@ {
            ValueView::Integer(store)
        } else if column == "key"@ {
            ValueView::Blob(key)
        } else if column == "data"@ {
            ValueView::Blob(data)
        } else {
            ValueView::Null
        }
}

/// A row of `index_data` or of `unique_index_data`.
pub open spec fn record_row(index: int, value: Seq<u8>, store: int, primary_key: Seq<u8>) -> Row {
    |column: Seq<char>|
        if column == "index_id"@ {
            ValueView::Integer(index)
        } else if column == "value"@ {
            ValueView::Blob(value)
        } else if column == "object_store_id"@ {
            ValueView::Integer(store)
        } else if column == "object_data_key"@ {
            ValueView::Blob(primary_key)
        } else {
            ValueView::Null
        }
}

/// A row of `object_store`, as far as its key generator goes.
pub open spec fn generator_row(store: int, number: int) -> Row {
    |column: Seq<char>|
        if column == "id"@ {
            ValueView::Integer(store)
        } else if column == "auto_increment"@ {
            ValueView::Integer(number)
        } else {
            ValueView::Null
        }
}

/// One column and the value that it gets.
pub struct Cell {
    pub column: Seq<char>,
    pub value: ValueView,
}

/// The cells are those of the row.
pub open spec fn cells_of(cells: Seq<Cell>, row: Row) -> bool {
    forall|i: int| 0 <= i < cells.len() ==> row((#[trigger] cells[i]).column) == cells[i].value
}

/// The columns, with `separator` between them and `suffix` behind each.
pub open spec fn columns_text(cells: Seq<Cell>, suffix: Seq<char>) -> Seq<char>
    decreases cells.len(),
{
    if cells.len() == 0 {
        seq![]
    } else {
        columns_text(cells.drop_last(), suffix) + (if cells.len() == 1 {
            ""@
        } else {
            ", "@
        }) + cells.last().column + suffix
    }
}

/// As many places for values as there are cells.
pub open spec fn places_text(count: nat) -> Seq<char>
    decreases count,
{
    if count == 0 {
        seq![]
    } else if count == 1 {
        "?"@
    } else {
        places_text((count - 1) as nat) + ", ?"@
    }
}

/// A statement that changes a table.
pub enum Sql {
    Insert { replace: bool, table: Seq<char>, cells: Seq<Cell> },
    Update { table: Seq<char>, cells: Seq<Cell>, terms: Seq<Term> },
    Delete { table: Seq<char>, terms: Seq<Term> },
}

/// The values of the cells.
pub open spec fn cells_values(cells: Seq<Cell>) -> Seq<ValueView> {
    cells.map_values(|cell: Cell| cell.value)
}

impl Sql {
    /// The text and the values of the statement.
    pub open spec fn statement(self) -> StatementView {
        match self {
            Sql::Insert { replace, table, cells } => StatementView {
                sql: (if replace {
                    "INSERT OR REPLACE INTO "@
                } else {
                    "INSERT INTO "@
                }) + table + " ("@ + columns_text(cells, ""@) + ") VALUES ("@ + places_text(
                    cells.len(),
                ) + ")"@,
                values: cells_values(cells),
            },
            Sql::Update { table, cells, terms } => StatementView {
                sql: "UPDATE "@ + table + " SET "@ + columns_text(cells, " = ?"@) + terms_text(
                    terms,
                ),
                values: cells_values(cells) + terms_values(terms),
            },
            Sql::Delete { table, terms } => StatementView {
                sql: "DELETE FROM "@ + table + terms_text(terms),
                values: terms_values(terms),
            },
        }
    }

    /// What the statement does to the tables.
    pub open spec fn does(self, before: Tables, after: Tables) -> bool {
        match self {
            Sql::Insert { replace, table, cells } => {
                ||| table == "object_data"@ && cells.len() == 3 && exists|
                    s: int,
                    k: Seq<u8>,
                    d: Seq<u8>,
                |
                    #[trigger] cells_of(cells, object_row(s, k, d)) && after == (Tables {
                        objects: before.objects.insert((s, k), d),
                        ..before
                    })
                ||| table == "index_data"@ && replace && cells.len() == 4 && exists|
                    i: int,
                    v: Seq<u8>,
                    s: int,
                    p: Seq<u8>,
                |
                    #[trigger] cells_of(cells, record_row(i, v, s, p)) && after == (Tables {
                        records: before.records.insert((i, v, p), s),
                        ..before
                    })
                ||| table == "unique_index_data"@ && replace && cells.len() == 4 && exists|
                    i: int,
                    v: Seq<u8>,
                    s: int,
                    p: Seq<u8>,
                |
                    #[trigger] cells_of(cells, record_row(i, v, s, p)) && after == (Tables {
                        unique_records: before.unique_records.insert((i, v), (s, p)),
                        ..before
                    })
            },
            Sql::Update { table, cells, terms } => {
                &&& after.records == before.records
                &&& after.unique_records == before.unique_records
                &&& table != "object_data"@ ==> after.objects == before.objects
                &&& table != "object_store"@ ==> after.generators == before.generators
                &&& forall|s: int, k: Seq<u8>| #[trigger]
                    after.objects.contains_key((s, k)) <==> before.objects.contains_key((s, k))
                &&& table == "object_data"@ ==> forall|s: int, k: Seq<u8>|
                    before.objects.contains_key((s, k)) ==> if holds(
                        terms,
                        object_row(s, k, before.objects[(s, k)]),
                    ) {
                        cells_of(cells, object_row(s, k, #[trigger] after.objects[(s, k)]))
                    } else {
                        after.objects[(s, k)] == before.objects[(s, k)]
                    }
                &&& table == "object_store"@ ==> forall|s: int|
                    before.generators.contains_key(s) ==> if holds(
                        terms,
                        generator_row(s, before.generators[s]),
                    ) {
                        cells_of(cells, generator_row(s, #[trigger] after.generators[s]))
                    } else {
                        after.generators[s] == before.generators[s]
                    }
            },
            Sql::Delete { table, terms } => {
                &&& after.generators == before.generators
                &&& forall|s: int, k: Seq<u8>| #[trigger]
                    after.objects.contains_key((s, k)) <==> before.objects.contains_key((s, k))
                        && !(table == "object_data"@ && holds(
                        terms,
                        object_row(s, k, before.objects[(s, k)]),
                    ))
                &&& forall|s: int, k: Seq<u8>|
                    after.objects.contains_key((s, k)) ==> #[trigger] after.objects[(s, k)]
                        == before.objects[(s, k)]
                &&& forall|i: int, v: Seq<u8>, p: Seq<u8>| #[trigger]
                    after.records.contains_key((i, v, p)) <==> before.records.contains_key(
                        (i, v, p),
                    ) && !(table == "index_data"@ && holds(
                        terms,
                        record_row(i, v, before.records[(i, v, p)], p),
                    ))
                &&& forall|i: int, v: Seq<u8>, p: Seq<u8>|
                    after.records.contains_key((i, v, p)) ==> #[trigger] after.records[(i, v, p)]
                        == before.records[(i, v, p)]
                &&& forall|i: int, v: Seq<u8>| #[trigger]
                    after.unique_records.contains_key((i, v)) <==>
                        before.unique_records.contains_key((i, v)) && !(table
                        == "unique_index_data"@ && holds(
                        terms,
                        record_row(
                            i,
                            v,
                            before.unique_records[(i, v)].0,
                            before.unique_records[(i, v)].1,
                        ),
                    ))
                &&& forall|i: int, v: Seq<u8>|
                    after.unique_records.contains_key((i, v)) ==> #[trigger] after.unique_records[(
                        i,
                        v,
                    )] == before.unique_records[(i, v)]
            },
        }
    }
}

/// The names of tables and columns are told apart.
proof fn names_differ()
    ensures
        "object_data"@ != "object_store"@,
        "object_data"@ != "index_data"@,
        "object_data"@ != "unique_index_data"@,
        "index_data"@ != "unique_index_data"@,
        "object_store"@ != "index_data"@,
        "object_store"@ != "unique_index_data"@,
        "object_store_id"@ != "key"@,
        "object_store_id"@ != "data"@,
        "object_store_id"@ != "index_id"@,
        "object_store_id"@ != "value"@,
        "object_store_id"@ != "object_data_key"@,
        "key"@ != "data"@,
        "index_id"@ != "value"@,
        "index_id"@ != "object_data_key"@,
        "value"@ != "object_data_key"@,
        "id"@ != "auto_increment"@,
{
    reveal_strlit("object_data");
    reveal_strlit("object_store");
    reveal_strlit("index_data");
    reveal_strlit("unique_index_data");
    reveal_strlit("object_store_id");
    reveal_strlit("key");
    reveal_strlit("data");
    reveal_strlit("index_id");
    reveal_strlit("value");
    reveal_strlit("object_data_key");
    reveal_strlit("id");
    reveal_strlit("auto_increment");
    assert("key"@[0] == 'k' && "data"@[0] == 'd');
    assert("object_data"@.len() == 11);
    assert("object_store"@.len() == 12);
    assert("index_data"@.len() == 10);
    assert("unique_index_data"@.len() == 17);
    assert("object_store_id"@.len() == 15);
    assert("key"@.len() == 3);
    assert("data"@.len() == 4);
    assert("index_id"@.len() == 8);
    assert("value"@.len() == 5);
    assert("object_data_key"@.len() == 15);
    assert("id"@.len() == 2);
    assert("auto_increment"@.len() == 14);
    assert("object_store_id"@[7] == 's' && "object_data_key"@[7] == 'd');
}

/// The texts of one and of two comparisons.
proof fn short_terms(a: Term, b: Term)
    ensures
        terms_text(seq![a]) == " WHERE "@ + a.column + " "@ + spelled(a.test) + " ?"@,
        terms_values(seq![a]) == seq![a.bound],
        terms_text(seq![a, b]) == " WHERE "@ + a.column + " "@ + spelled(a.test) + " ?"@ + " AND "@
            + b.column + " "@ + spelled(b.test) + " ?"@,
        terms_values(seq![a, b]) == seq![a.bound, b.bound],
{
    reveal_with_fuel(terms_text, 3);
    assert(seq![a].drop_last() =~= seq![]);
    assert(seq![a, b].drop_last() =~= seq![a]);
    assert(terms_text(seq![a]) =~= " WHERE "@ + a.column + " "@ + spelled(a.test) + " ?"@);
    assert(terms_values(seq![a]) =~= seq![a.bound]);
    assert(terms_values(seq![a, b]) =~= seq![a.bound, b.bound]);
    assert(terms_text(seq![a, b]) =~= " WHERE "@ + a.column + " "@ + spelled(a.test) + " ?"@
        + " AND "@ + b.column + " "@ + spelled(b.test) + " ?"@);
}

/// Each write goes out as a statement that does to the tables what the write does.
pub proof fn statements_carry_out_writes(write: Write, tables: Tables)
    requires
        write matches Write::SetGenerator { store_id, .. } ==> tables.generators.contains_key(
            store_id,
        ),
    ensures
        exists|sql: Sql| #[trigger]
            sql.statement() == write.statement() && sql.does(tables, tables.after(write)),
{
    names_differ();
    match write {
        Write::InsertObject { store_id, key, data } => {
            inserts_objects(tables, store_id, key, data);
        },
        Write::UpdateObject { store_id, key, data } => {
            updates_objects(tables, store_id, key, data);
        },
        Write::ClearObjects { store_id } => {
            let terms = seq![equals("object_store_id"@, ValueView::Integer(store_id))];
            let sql = Sql::Delete { table: "object_data"@, terms };
            short_terms(terms[0], terms[0]);
            where_store();
            assert(terms_values(terms) =~= seq![ValueView::Integer(store_id)]);
            reveal_strlit("DELETE FROM ");
            reveal_strlit("object_data");
            reveal_strlit(" WHERE object_store_id = ?");
            reveal_strlit("DELETE FROM object_data WHERE object_store_id = ?");
            assert("DELETE FROM object_data WHERE object_store_id = ?"@ =~= "DELETE FROM "@
                + "object_data"@ + " WHERE object_store_id = ?"@);
            assert(sql.statement().sql =~= write.statement().sql);
            assert(sql.statement() == write.statement());
            assert forall|s: int, k: Seq<u8>, d: Seq<u8>|
                holds(terms, #[trigger] object_row(s, k, d)) <==> s == store_id by {
                let row = object_row(s, k, d);
                assert(row(terms[0].column) == ValueView::Integer(s));
            }
        },
        Write::PutIndexRecord { unique, index_id, value, store_id, primary_key } => {
            inserts_records(tables, unique, index_id, value, store_id, primary_key);
        },
        Write::DropRecordsOfObject { unique, store_id, primary_key } => {
            let terms = seq![
                equals("object_store_id"@, ValueView::Integer(store_id)),
                equals("object_data_key"@, ValueView::Blob(primary_key)),
            ];
            let sql = Sql::Delete { table: index_table_name(unique), terms };
            short_terms(terms[0], terms[1]);
            where_object();
            assert(terms =~= seq![terms[0], terms[1]]);
            assert(sql.statement().sql =~= write.statement().sql);
            assert(sql.statement() == write.statement());
            assert forall|i: int, v: Seq<u8>, s: int, p: Seq<u8>|
                holds(terms, #[trigger] record_row(i, v, s, p)) <==> s == store_id && p
                    == primary_key by {
                let row = record_row(i, v, s, p);
                assert(row(terms[0].column) == ValueView::Integer(s));
                assert(row(terms[1].column) == ValueView::Blob(p));
            }
        },
        Write::DropRecordsOfStore { unique, store_id } => {
            let terms = seq![equals("object_store_id"@, ValueView::Integer(store_id))];
            let sql = Sql::Delete { table: index_table_name(unique), terms };
            short_terms(terms[0], terms[0]);
            where_store();
            assert(sql.statement().sql =~= write.statement().sql);
            assert(sql.statement() == write.statement());
            assert forall|i: int, v: Seq<u8>, s: int, p: Seq<u8>|
                holds(terms, #[trigger] record_row(i, v, s, p)) <==> s == store_id by {
                let row = record_row(i, v, s, p);
                assert(row(terms[0].column) == ValueView::Integer(s));
            }
        },
        Write::DropRecordsOfIndex { unique, index_id } => {
            let terms = seq![equals("index_id"@, ValueView::Integer(index_id))];
            let sql = Sql::Delete { table: index_table_name(unique), terms };
            short_terms(terms[0], terms[0]);
            where_index();
            assert(sql.statement().sql =~= write.statement().sql);
            assert(sql.statement() == write.statement());
            assert forall|i: int, v: Seq<u8>, s: int, p: Seq<u8>|
                holds(terms, #[trigger] record_row(i, v, s, p)) <==> i == index_id by {
                let row = record_row(i, v, s, p);
                assert(row(terms[0].column) == ValueView::Integer(i));
            }
        },
        Write::SetGenerator { store_id, number } => {
            sets_generators(tables, store_id, number);
        },
    }
}

proof fn where_store()
    ensures
        " WHERE object_store_id = ?"@ == " WHERE "@ + "object_store_id"@ + " "@ + "="@ + " ?"@,
{
    reveal_strlit(" WHERE object_store_id = ?");
    reveal_strlit(" WHERE ");
    reveal_strlit("object_store_id");
    reveal_strlit(" ");
    reveal_strlit("=");
    reveal_strlit(" ?");
    assert(" WHERE object_store_id = ?"@ =~= " WHERE "@ + "object_store_id"@ + " "@ + "="@ + " ?"@);
}

proof fn where_index()
    ensures
        " WHERE index_id = ?"@ == " WHERE "@ + "index_id"@ + " "@ + "="@ + " ?"@,
{
    reveal_strlit(" WHERE index_id = ?");
    reveal_strlit(" WHERE ");
    reveal_strlit("index_id");
    reveal_strlit(" ");
    reveal_strlit("=");
    reveal_strlit(" ?");
    assert(" WHERE index_id = ?"@ =~= " WHERE "@ + "index_id"@ + " "@ + "="@ + " ?"@);
}

proof fn where_object()
    ensures
        " WHERE object_store_id = ? AND object_data_key = ?"@ == " WHERE "@ + "object_store_id"@
            + " "@ + "="@ + " ?"@ + " AND "@ + "object_data_key"@ + " "@ + "="@ + " ?"@,
{
    reveal_strlit(" WHERE object_store_id = ? AND object_data_key = ?");
    reveal_strlit(" WHERE ");
    reveal_strlit("object_store_id");
    reveal_strlit(" ");
    reveal_strlit("=");
    reveal_strlit(" ?");
    reveal_strlit(" AND ");
    reveal_strlit("object_data_key");
    assert(" WHERE object_store_id = ? AND object_data_key = ?"@ =~= " WHERE "@
        + "object_store_id"@ + " "@ + "="@ + " ?"@ + " AND "@ + "object_data_key"@ + " "@ + "="@
        + " ?"@);
}

proof fn inserts_objects(tables: Tables, store_id: int, key: Seq<u8>, data: Seq<u8>)
    ensures
        ({
            let write = Write::InsertObject { store_id, key, data };
            exists|sql: Sql| #[trigger]
                sql.statement() == write.statement() && sql.does(tables, tables.after(write))
        }),
{
    names_differ();
    let write = Write::InsertObject { store_id, key, data };
    let a = Cell { column: "object_store_id"@, value: ValueView::Integer(store_id) };
    let b = Cell { column: "key"@, value: ValueView::Blob(key) };
    let c = Cell { column: "data"@, value: ValueView::Blob(data) };
    let cells = seq![a, b, c];
    let sql = Sql::Insert { replace: false, table: "object_data"@, cells };
    reveal_with_fuel(columns_text, 4);
    reveal_with_fuel(places_text, 4);
    assert(cells.drop_last() =~= seq![a, b]);
    assert(seq![a, b].drop_last() =~= seq![a]);
    assert(seq![a].drop_last() =~= seq![]);
    reveal_strlit("");
    reveal_strlit("INSERT INTO ");
    reveal_strlit("object_data");
    reveal_strlit(" (");
    reveal_strlit("object_store_id");
    reveal_strlit(", ");
    reveal_strlit("key");
    reveal_strlit("data");
    reveal_strlit(") VALUES (");
    reveal_strlit("?");
    reveal_strlit(", ?");
    reveal_strlit(")");
    reveal_strlit("INSERT INTO object_data (object_store_id, key, data) VALUES (?, ?, ?)");
    assert(columns_text(cells, ""@) =~= "object_store_id"@ + ", "@ + "key"@ + ", "@ + "data"@);
    assert(places_text(3) =~= "?"@ + ", ?"@ + ", ?"@);
    assert(sql.statement().sql =~= write.statement().sql);
    assert(sql.statement().values =~= write.statement().values);
    assert(sql.statement() == write.statement());
    let row = object_row(store_id, key, data);
    assert(cells_of(cells, row)) by {
        assert(row(a.column) == a.value && row(b.column) == b.value && row(c.column) == c.value);
    }
    assert(sql.does(tables, tables.after(write)));
}

proof fn updates_objects(tables: Tables, store_id: int, key: Seq<u8>, data: Seq<u8>)
    ensures
        ({
            let write = Write::UpdateObject { store_id, key, data };
            exists|sql: Sql| #[trigger]
                sql.statement() == write.statement() && sql.does(tables, tables.after(write))
        }),
{
    names_differ();
    let write = Write::UpdateObject { store_id, key, data };
    let c = Cell { column: "data"@, value: ValueView::Blob(data) };
    let cells = seq![c];
    let terms = seq![
        equals("object_store_id"@, ValueView::Integer(store_id)),
        equals("key"@, ValueView::Blob(key)),
    ];
    let sql = Sql::Update { table: "object_data"@, cells, terms };
    short_terms(terms[0], terms[1]);
    assert(terms =~= seq![terms[0], terms[1]]);
    reveal_with_fuel(columns_text, 2);
    assert(cells.drop_last() =~= seq![]);
    reveal_strlit("");
    reveal_strlit("UPDATE ");
    reveal_strlit("object_data");
    reveal_strlit(" SET ");
    reveal_strlit("data");
    reveal_strlit(" = ?");
    reveal_strlit(" WHERE ");
    reveal_strlit("object_store_id");
    reveal_strlit(" ");
    reveal_strlit("=");
    reveal_strlit(" ?");
    reveal_strlit(" AND ");
    reveal_strlit("key");
    reveal_strlit("UPDATE object_data SET data = ? WHERE object_store_id = ? AND key = ?");
    assert(columns_text(cells, " = ?"@) =~= "data"@ + " = ?"@);
    assert(sql.statement().sql =~= write.statement().sql);
    assert(sql.statement().values =~= write.statement().values);
    assert(sql.statement() == write.statement());
    assert forall|s: int, k: Seq<u8>, d: Seq<u8>|
        holds(terms, #[trigger] object_row(s, k, d)) <==> s == store_id && k == key by {
        let row = object_row(s, k, d);
        assert(row(terms[0].column) == ValueView::Integer(s));
        assert(row(terms[1].column) == ValueView::Blob(k));
    }
    assert forall|s: int, k: Seq<u8>| cells_of(cells, #[trigger] object_row(s, k, data)) by {
        let row = object_row(s, k, data);
        assert(row(c.column) == c.value);
    }
    assert(sql.does(tables, tables.after(write)));
}

proof fn inserts_records(
    tables: Tables,
    unique: bool,
    index_id: int,
    value: Seq<u8>,
    store_id: int,
    primary_key: Seq<u8>,
)
    ensures
        ({
            let write = Write::PutIndexRecord { unique, index_id, value, store_id, primary_key };
            exists|sql: Sql| #[trigger]
                sql.statement() == write.statement() && sql.does(tables, tables.after(write))
        }),
{
    names_differ();
    let write = Write::PutIndexRecord { unique, index_id, value, store_id, primary_key };
    let a = Cell { column: "index_id"@, value: ValueView::Integer(index_id) };
    let b = Cell { column: "value"@, value: ValueView::Blob(value) };
    let c = Cell { column: "object_store_id"@, value: ValueView::Integer(store_id) };
    let d = Cell { column: "object_data_key"@, value: ValueView::Blob(primary_key) };
    let cells = seq![a, b, c, d];
    let sql = Sql::Insert { replace: true, table: index_table_name(unique), cells };
    reveal_with_fuel(columns_text, 5);
    reveal_with_fuel(places_text, 5);
    assert(cells.drop_last() =~= seq![a, b, c]);
    assert(seq![a, b, c].drop_last() =~= seq![a, b]);
    assert(seq![a, b].drop_last() =~= seq![a]);
    assert(seq![a].drop_last() =~= seq![]);
    reveal_strlit("");
    reveal_strlit(" (");
    reveal_strlit("index_id");
    reveal_strlit("value");
    reveal_strlit("object_store_id");
    reveal_strlit("object_data_key");
    reveal_strlit(", ");
    reveal_strlit(") VALUES (");
    reveal_strlit("?");
    reveal_strlit(", ?");
    reveal_strlit(")");
    reveal_strlit(" (index_id, value, object_store_id, object_data_key) VALUES (?, ?, ?, ?)");
    let columns = columns_text(cells, ""@);
    assert(columns =~= "index_id"@ + ", "@ + "value"@ + ", "@ + "object_store_id"@ + ", "@
        + "object_data_key"@);
    assert(places_text(4) =~= "?"@ + ", ?"@ + ", ?"@ + ", ?"@);
    assert(" (index_id, value, object_store_id, object_data_key) VALUES (?, ?, ?, ?)"@ =~= " ("@
        + columns + ") VALUES ("@ + places_text(4) + ")"@);
    assert(sql.statement().sql =~= write.statement().sql);
    assert(sql.statement().values =~= write.statement().values);
    assert(sql.statement() == write.statement());
    let row = record_row(index_id, value, store_id, primary_key);
    assert(cells_of(cells, row)) by {
        assert(row(a.column) == a.value && row(b.column) == b.value);
        assert(row(c.column) == c.value && row(d.column) == d.value);
    }
    assert(sql.does(tables, tables.after(write)));
}

proof fn sets_generators(tables: Tables, store_id: int, number: int)
    requires
        tables.generators.contains_key(store_id),
    ensures
        ({
            let write = Write::SetGenerator { store_id, number };
            exists|sql: Sql| #[trigger]
                sql.statement() == write.statement() && sql.does(tables, tables.after(write))
        }),
{
    names_differ();
    let write = Write::SetGenerator { store_id, number };
    let c = Cell { column: "auto_increment"@, value: ValueView::Integer(number) };
    let cells = seq![c];
    let terms = seq![equals("id"@, ValueView::Integer(store_id))];
    let sql = Sql::Update { table: "object_store"@, cells, terms };
    short_terms(terms[0], terms[0]);
    reveal_with_fuel(columns_text, 2);
    assert(cells.drop_last() =~= seq![]);
    reveal_strlit("");
    reveal_strlit("UPDATE ");
    reveal_strlit("object_store");
    reveal_strlit(" SET ");
    reveal_strlit("auto_increment");
    reveal_strlit(" = ?");
    reveal_strlit(" WHERE ");
    reveal_strlit("id");
    reveal_strlit(" ");
    reveal_strlit("=");
    reveal_strlit(" ?");
    reveal_strlit("UPDATE object_store SET auto_increment = ? WHERE id = ?");
    assert(columns_text(cells, " = ?"@) =~= "auto_increment"@ + " = ?"@);
    assert(sql.statement().sql =~= write.statement().sql);
    assert(sql.statement().values =~= write.statement().values);
    assert(sql.statement() == write.statement());
    assert forall|s: int, n: int|
        holds(terms, #[trigger] generator_row(s, n)) <==> s == store_id by {
        let row = generator_row(s, n);
        assert(row(terms[0].column) == ValueView::Integer(s));
    }
    assert forall|s: int| cells_of(cells, #[trigger] generator_row(s, number)) by {
        let row = generator_row(s, number);
        assert(row(c.column) == c.value);
    }
    assert(sql.does(tables, tables.after(write)));
}

/// The statement reads these columns of the rows of `source` of which the comparisons hold, and ends
/// in `tail`.
pub open spec fn reads(
    statement: StatementView,
    columns: Seq<char>,
    source: Seq<char>,
    terms: Seq<Term>,
    tail: StatementView,
) -> bool {
    &&& statement.sql == "SELECT "@ + columns + " FROM "@ + source + terms_text(terms) + tail.sql
    &&& statement.values == terms_values(terms) + tail.values
}

/// Nothing comes behind the comparisons.
pub open spec fn no_tail() -> StatementView {
    StatementView { sql: seq![], values: seq![] }
}

/// A row of `object_store_index`.
pub open spec fn declaration_row(store: int, name: Seq<char>) -> Row {
    |column: Seq<char>|
        if column == "object_store_id"@ {
            ValueView::Integer(store)
        } else if column == "name"@ {
            ValueView::Text(name)
        } else {
            ValueView::Null
        }
}

/// A row of an index table with the alias `i`.
pub open spec fn aliased_row(index: int, value: Seq<u8>, store: int) -> Row {
    |column: Seq<char>|
        if column == "i.index_id"@ {
            ValueView::Integer(index)
        } else if column == "i.object_store_id"@ {
            ValueView::Integer(store)
        } else if column == "i.value"@ {
            ValueView::Blob(value)
        } else {
            ValueView::Null
        }
}

/// The comparisons pick the row of one object.
pub open spec fn pick_object(terms: Seq<Term>, store: int, key: Seq<u8>) -> bool {
    forall|s: int, k: Seq<u8>, d: Seq<u8>|
        holds(terms, #[trigger] object_row(s, k, d)) <==> s == store && k == key
}

/// The comparisons pick the declaration of one index.
pub open spec fn pick_declaration(terms: Seq<Term>, store: int, name: Seq<char>) -> bool {
    forall|s: int, n: Seq<char>|
        holds(terms, #[trigger] declaration_row(s, n)) <==> s == store && n == name
}

/// The comparisons pick the record of one index key.
pub open spec fn pick_record(terms: Seq<Term>, index: int, value: Seq<u8>) -> bool {
    forall|i: int, v: Seq<u8>, s: int, p: Seq<u8>|
        holds(terms, #[trigger] record_row(i, v, s, p)) <==> i == index && v == value
}

/// The comparisons pick the records of an index and a store whose index key the range covers.
pub open spec fn pick_range(terms: Seq<Term>, index: int, store: int, range: RangeView) -> bool {
    forall|i: int, v: Seq<u8>, s: int|
        holds(terms, #[trigger] aliased_row(i, v, s)) <==> i == index && s == store
            && range.covers(v)
}

/// A question about an object reads the row of that object.
pub proof fn object_questions_find_the_object(store_id: int, key: Seq<u8>)
    ensures
        exists|terms: Seq<Term>|
            #[trigger] pick_object(terms, store_id, key) && reads(
                (QuestionView::Object { store_id, key }).statement(),
                "*"@,
                "object_data"@,
                terms,
                no_tail(),
            ),
{
    names_differ();
    let terms = seq![
        equals("key"@, ValueView::Blob(key)),
        equals("object_store_id"@, ValueView::Integer(store_id)),
    ];
    let statement = (QuestionView::Object { store_id, key }).statement();
    short_terms(terms[0], terms[1]);
    assert(terms =~= seq![terms[0], terms[1]]);
    assert forall|s: int, k: Seq<u8>, d: Seq<u8>|
        holds(terms, #[trigger] object_row(s, k, d)) <==> s == store_id && k == key by {
        let row = object_row(s, k, d);
        assert(row(terms[0].column) == ValueView::Blob(k));
        assert(row(terms[1].column) == ValueView::Integer(s));
    }
    reveal_strlit("SELECT ");
    reveal_strlit("*");
    reveal_strlit(" FROM ");
    reveal_strlit("object_data");
    reveal_strlit(" WHERE ");
    reveal_strlit("key");
    reveal_strlit(" ");
    reveal_strlit("=");
    reveal_strlit(" ?");
    reveal_strlit(" AND ");
    reveal_strlit("object_store_id");
    reveal_strlit("SELECT * FROM object_data WHERE key = ? AND object_store_id = ?");
    let text = "SELECT "@ + "*"@ + " FROM "@ + "object_data"@ + terms_text(terms) + no_tail().sql;
    assert(statement.sql =~= text);
    assert(statement.values =~= terms_values(terms) + no_tail().values);
    assert(pick_object(terms, store_id, key));
}

/// A question about an index reads the declaration of that name in that store.
pub proof fn index_questions_find_the_declaration(store_id: int, name: Seq<char>)
    ensures
        exists|terms: Seq<Term>|
            #[trigger] pick_declaration(terms, store_id, name) && reads(
                (QuestionView::Index { store_id, name }).statement(),
                "*"@,
                "object_store_index"@,
                terms,
                no_tail(),
            ),
{
    let terms = seq![
        equals("object_store_id"@, ValueView::Integer(store_id)),
        equals("name"@, ValueView::Text(name)),
    ];
    let statement = (QuestionView::Index { store_id, name }).statement();
    short_terms(terms[0], terms[1]);
    assert(terms =~= seq![terms[0], terms[1]]);
    reveal_strlit("SELECT ");
    reveal_strlit("*");
    reveal_strlit(" FROM ");
    reveal_strlit("object_store_index");
    reveal_strlit(" WHERE ");
    reveal_strlit("name");
    reveal_strlit(" ");
    reveal_strlit("=");
    reveal_strlit(" ?");
    reveal_strlit(" AND ");
    reveal_strlit("object_store_id");
    reveal_strlit("SELECT * FROM object_store_index WHERE object_store_id = ? AND name = ?");
    assert("object_store_id"@.len() == 15 && "name"@.len() == 4);
    assert forall|s: int, n: Seq<char>|
        holds(terms, #[trigger] declaration_row(s, n)) <==> s == store_id && n == name by {
        let row = declaration_row(s, n);
        assert(row(terms[0].column) == ValueView::Integer(s));
        assert(row(terms[1].column) == ValueView::Text(n));
    }
    let text = "SELECT "@ + "*"@ + " FROM "@ + "object_store_index"@ + terms_text(terms)
        + no_tail().sql;
    assert(statement.sql =~= text);
    assert(statement.values =~= terms_values(terms) + no_tail().values);
    assert(pick_declaration(terms, store_id, name));
}

/// A question about the holder of an index key reads the primary key of that index key's record.
pub proof fn holder_questions_find_the_record(index_id: int, value: Seq<u8>)
    ensures
        exists|terms: Seq<Term>|
            #[trigger] pick_record(terms, index_id, value) && reads(
                (QuestionView::Holder { index_id, value }).statement(),
                "object_data_key"@,
                "unique_index_data"@,
                terms,
                no_tail(),
            ),
{
    names_differ();
    let terms = seq![
        equals("index_id"@, ValueView::Integer(index_id)),
        equals("value"@, ValueView::Blob(value)),
    ];
    let statement = (QuestionView::Holder { index_id, value }).statement();
    short_terms(terms[0], terms[1]);
    assert(terms =~= seq![terms[0], terms[1]]);
    assert forall|i: int, v: Seq<u8>, s: int, p: Seq<u8>|
        holds(terms, #[trigger] record_row(i, v, s, p)) <==> i == index_id && v == value by {
        let row = record_row(i, v, s, p);
        assert(row(terms[0].column) == ValueView::Integer(i));
        assert(row(terms[1].column) == ValueView::Blob(v));
    }
    reveal_strlit("SELECT ");
    reveal_strlit("object_data_key");
    reveal_strlit(" FROM ");
    reveal_strlit("unique_index_data");
    reveal_strlit(" WHERE ");
    reveal_strlit("index_id");
    reveal_strlit(" ");
    reveal_strlit("=");
    reveal_strlit(" ?");
    reveal_strlit(" AND ");
    reveal_strlit("value");
    reveal_strlit("SELECT object_data_key FROM unique_index_data WHERE index_id = ? AND value = ?");
    let text = "SELECT "@ + "object_data_key"@ + " FROM "@ + "unique_index_data"@ + terms_text(
        terms,
    ) + no_tail().sql;
    assert(statement.sql =~= text);
    assert(statement.values =~= terms_values(terms) + no_tail().values);
    assert(pick_record(terms, index_id, value));
}

/// The comparisons that a range comes to, over the index key.
spec fn range_terms(range: RangeView) -> Seq<Term> {
    let column = "i.value"@;
    if range.is_singleton() {
        seq![equals(column, ValueView::Blob(range.lower->0))]
    } else {
        let lower = match range.lower {
            Some(lower) => seq![
                Term {
                    column,
                    test: if range.lower_open {
                        KeyTest::Greater
                    } else {
                        KeyTest::GreaterOrEqual
                    },
                    bound: ValueView::Blob(lower),
                },
            ],
            None => seq![],
        };
        match range.upper {
            Some(upper) => lower.push(
                Term {
                    column,
                    test: if range.upper_open {
                        KeyTest::Less
                    } else {
                        KeyTest::LessOrEqual
                    },
                    bound: ValueView::Blob(upper),
                },
            ),
            None => lower,
        }
    }
}

/// One more comparison.
proof fn longer_terms(terms: Seq<Term>, term: Term)
    requires
        terms.len() > 0,
    ensures
        terms_text(terms.push(term)) == terms_text(terms) + comparison(
            term.column,
            spelled(term.test),
        ),
        terms_values(terms.push(term)) == terms_values(terms).push(term.bound),
{
    assert(terms.push(term).drop_last() =~= terms);
    assert(terms_text(terms.push(term)) =~= terms_text(terms) + comparison(
        term.column,
        spelled(term.test),
    ));
    assert(terms_values(terms.push(term)) =~= terms_values(terms).push(term.bound));
}

/// What a range adds to a statement over an index spells comparisons that hold of an index key
/// exactly where the range covers it, each with its bound at its place.
pub proof fn index_predicates_accept_the_range(terms: Seq<Term>, range: RangeView)
    requires
        terms.len() > 0,
    ensures
        exists|more: Seq<Term>| #[trigger]
            accept_range(more, range) && terms_text(terms + more) == terms_text(terms)
                + range_predicate("i.value"@, range) && terms_values(terms + more)
                == terms_values(terms) + range_values(range),
{
    spells_range(terms, range);
    accepts_range(range);
}

/// The comparisons hold of a row exactly where the range covers its index key.
pub open spec fn accept_range(terms: Seq<Term>, range: RangeView) -> bool {
    forall|i: int, v: Seq<u8>, s: int|
        holds(terms, #[trigger] aliased_row(i, v, s)) <==> range.covers(v)
}

proof fn spells_range(terms: Seq<Term>, range: RangeView)
    requires
        terms.len() > 0,
    ensures
        terms_text(terms + range_terms(range)) == terms_text(terms) + range_predicate(
            "i.value"@,
            range,
        ),
        terms_values(terms + range_terms(range)) == terms_values(terms) + range_values(range),
{
    let more = range_terms(range);
    let text = range_predicate("i.value"@, range);
    if more.len() == 0 {
        assert(terms + more =~= terms);
        assert(terms_text(terms) + text =~= terms_text(terms));
        assert(terms_values(terms) + range_values(range) =~= terms_values(terms));
    } else if more.len() == 1 {
        longer_terms(terms, more[0]);
        assert(terms + more =~= terms.push(more[0]));
        assert(terms_text(terms + more) =~= terms_text(terms) + text);
        assert(terms_values(terms + more) =~= terms_values(terms) + range_values(range));
    } else {
        longer_terms(terms, more[0]);
        longer_terms(terms.push(more[0]), more[1]);
        assert(terms + more =~= terms.push(more[0]).push(more[1]));
        assert(terms_text(terms + more) =~= terms_text(terms) + text);
        assert(terms_values(terms + more) =~= terms_values(terms) + range_values(range));
    }
}

proof fn aliases_differ()
    ensures
        "i.index_id"@ != "i.value"@,
        "i.object_store_id"@ != "i.value"@,
        "i.index_id"@ != "i.object_store_id"@,
{
    reveal_strlit("i.index_id");
    reveal_strlit("i.value");
    reveal_strlit("i.object_store_id");
    assert("i.index_id"@.len() == 10);
    assert("i.value"@.len() == 7);
    assert("i.object_store_id"@.len() == 17);
}

proof fn accepts_range(range: RangeView)
    ensures
        accept_range(range_terms(range), range),
{
    aliases_differ();
    let terms = range_terms(range);
    assert forall|i: int, v: Seq<u8>, s: int|
        holds(terms, #[trigger] aliased_row(i, v, s)) <==> range.covers(v) by {
        let row = aliased_row(i, v, s);
        assert(row("i.value"@) == ValueView::Blob(v));
        if range.is_singleton() {
            let only = range.lower->0;
            assert(compares(row(terms[0].column), terms[0].test, terms[0].bound) <==> v == only);
            if key_lt(only, v) {
                key_lt_asymmetric(only, v);
            }
        } else {
            if terms.len() > 0 {
                let first = compares(row(terms[0].column), terms[0].test, terms[0].bound);
                assert(holds(terms, row) ==> first);
            }
            if terms.len() > 1 {
                let second = compares(row(terms[1].column), terms[1].test, terms[1].bound);
                assert(holds(terms, row) ==> second);
            }
        }
    }
}

/// The comparisons with an index and a store in front of those of a range.
spec fn index_terms(index: int, store: int) -> Seq<Term> {
    seq![
        equals("i.index_id"@, ValueView::Integer(index)),
        equals("i.object_store_id"@, ValueView::Integer(store)),
    ]
}

proof fn index_terms_pick_range(index: int, store: int, range: RangeView)
    ensures
        pick_range(index_terms(index, store) + range_terms(range), index, store, range),
{
    aliases_differ();
    accepts_range(range);
    let first = index_terms(index, store);
    let more = range_terms(range);
    let terms = first + more;
    assert forall|i: int, v: Seq<u8>, s: int|
        holds(terms, #[trigger] aliased_row(i, v, s)) <==> i == index && s == store
            && range.covers(v) by {
        let row = aliased_row(i, v, s);
        assert(row(first[0].column) == ValueView::Integer(i));
        assert(row(first[1].column) == ValueView::Integer(s));
        assert(holds(more, row) <==> range.covers(v));
        if holds(terms, row) {
            assert(terms[0] == first[0] && terms[1] == first[1]);
            assert forall|j: int| 0 <= j < more.len() implies compares(
                row((#[trigger] more[j]).column),
                more[j].test,
                more[j].bound,
            ) by {
                assert(terms[j + 2] == more[j]);
            }
        }
        if i == index && s == store && holds(more, row) {
            assert forall|j: int| 0 <= j < terms.len() implies compares(
                row((#[trigger] terms[j]).column),
                terms[j].test,
                terms[j].bound,
            ) by {
                if j >= 2 {
                    assert(terms[j] == more[j - 2]);
                }
            }
        }
    }
}

proof fn index_terms_text(index: int, store: int)
    ensures
        terms_text(index_terms(index, store))
            == " WHERE i.index_id = ? AND i.object_store_id = ?"@,
        terms_values(index_terms(index, store)) == seq![
            ValueView::Integer(index),
            ValueView::Integer(store),
        ],
{
    let terms = index_terms(index, store);
    short_terms(terms[0], terms[1]);
    assert(terms =~= seq![terms[0], terms[1]]);
    reveal_strlit(" WHERE ");
    reveal_strlit("i.index_id");
    reveal_strlit(" ");
    reveal_strlit("=");
    reveal_strlit(" ?");
    reveal_strlit(" AND ");
    reveal_strlit("i.object_store_id");
    reveal_strlit(" WHERE i.index_id = ? AND i.object_store_id = ?");
    assert(terms_text(terms) =~= " WHERE i.index_id = ? AND i.object_store_id = ?"@);
}

/// The records come in ascending order of the index key and then of the primary key, and no more
/// than `count` of them where it is more than zero.
pub open spec fn in_index_order(count: Option<u32>) -> StatementView {
    let order = " ORDER BY "@ + "i.value"@ + " ASC"@ + ", "@ + "i.object_data_key"@ + " ASC"@;
    match count {
        Some(count) if count > 0 => StatementView {
            sql: order + " LIMIT ?"@,
            values: seq![ValueView::Integer(count as int)],
        },
        _ => StatementView { sql: order, values: seq![] },
    }
}

/// The rows of an index's table, each with the object that it points at.
pub open spec fn joined_with_objects(unique: bool) -> Seq<char> {
    index_table_name(unique) + " i JOIN object_data o ON "@ + "o.object_store_id"@ + " = "@
        + "i.object_store_id"@ + " AND "@ + "o.key"@ + " = "@ + "i.object_data_key"@
}

/// A read of an index's records reads, of the objects that the index's own records of that store
/// point at, those whose index key the range covers.
pub proof fn index_reads_follow_the_range(
    index: IndexModel,
    store_id: int,
    range: RangeView,
    count: Option<u32>,
    shape: RecordsShape,
)
    ensures
        exists|terms: Seq<Term>|
            #[trigger] pick_range(terms, index.id as int, store_id, range) && reads(
                index_records_statement(index, store_id, range, count, shape),
                "i.value"@ + ", "@ + "i.object_data_key"@ + (if shape == RecordsShape::WithValues {
                    ", "@ + "o.data"@
                } else {
                    seq![]
                }),
                joined_with_objects(index.unique_index),
                terms,
                in_index_order(count),
            ),
{
    let first = index_terms(index.id as int, store_id);
    let terms = first + range_terms(range);
    let statement = index_records_statement(index, store_id, range, count, shape);
    index_terms_pick_range(index.id as int, store_id, range);
    index_terms_text(index.id as int, store_id);
    spells_range(first, range);
    reveal_strlit("SELECT i.value, i.object_data_key");
    reveal_strlit("SELECT ");
    reveal_strlit("i.value");
    reveal_strlit(", ");
    reveal_strlit("i.object_data_key");
    reveal_strlit(", o.data");
    reveal_strlit("o.data");
    reveal_strlit(" FROM ");
    reveal_strlit(" i JOIN object_data o ON ");
    reveal_strlit("o.object_store_id");
    reveal_strlit(" = ");
    reveal_strlit("i.object_store_id");
    reveal_strlit(" AND ");
    reveal_strlit("o.key");
    reveal_strlit(
        " i JOIN object_data o ON o.object_store_id = i.object_store_id AND o.key = i.object_data_key WHERE i.index_id = ? AND i.object_store_id = ?",
    );
    reveal_strlit(" WHERE i.index_id = ? AND i.object_store_id = ?");
    reveal_strlit(" ORDER BY i.value ASC, i.object_data_key ASC");
    reveal_strlit(" ORDER BY ");
    reveal_strlit(" ASC");
    reveal_strlit("");
    let source = joined_with_objects(index.unique_index);
    let columns = "i.value"@ + ", "@ + "i.object_data_key"@ + (if shape
        == RecordsShape::WithValues {
        ", "@ + "o.data"@
    } else {
        seq![]
    });
    let head = "SELECT i.value, i.object_data_key"@ + (if shape == RecordsShape::WithValues {
        ", o.data"@
    } else {
        ""@
    });
    assert("SELECT i.value, i.object_data_key"@ =~= "SELECT "@ + ("i.value"@ + ", "@
        + "i.object_data_key"@));
    assert(", o.data"@ =~= ", "@ + "o.data"@);
    assert(head =~= "SELECT "@ + columns);
    let on = " i JOIN object_data o ON "@ + "o.object_store_id"@ + " = "@ + "i.object_store_id"@
        + " AND "@ + "o.key"@ + " = "@ + "i.object_data_key"@;
    assert(" i JOIN object_data o ON o.object_store_id = i.object_store_id AND o.key = i.object_data_key WHERE i.index_id = ? AND i.object_store_id = ?"@
        =~= on + " WHERE i.index_id = ? AND i.object_store_id = ?"@);
    let order = " ORDER BY "@ + "i.value"@ + " ASC"@ + ", "@ + "i.object_data_key"@ + " ASC"@;
    assert(" ORDER BY i.value ASC, i.object_data_key ASC"@ =~= order);
    assert(source =~= index_table_name(index.unique_index) + on);
    let tail = in_index_order(count);
    let text = "SELECT "@ + columns + " FROM "@ + source + terms_text(terms) + tail.sql;
    assert(statement.sql =~= text);
    assert(statement.values =~= terms_values(terms) + tail.values);
    assert(reads(statement, columns, source, terms, tail));
}

/// A count of an index's records counts the index's own records of that store whose index key the
/// range covers.
pub proof fn index_counts_follow_the_range(index: IndexModel, store_id: int, range: RangeView)
    ensures
        exists|terms: Seq<Term>|
            #[trigger] pick_range(terms, index.id as int, store_id, range) && reads(
                index_count_statement(index, store_id, range),
                "COUNT(*)"@,
                index_table_name(index.unique_index) + " i"@,
                terms,
                no_tail(),
            ),
{
    let first = index_terms(index.id as int, store_id);
    let terms = first + range_terms(range);
    let statement = index_count_statement(index, store_id, range);
    index_terms_pick_range(index.id as int, store_id, range);
    index_terms_text(index.id as int, store_id);
    spells_range(first, range);
    reveal_strlit("SELECT ");
    reveal_strlit("COUNT(*)");
    reveal_strlit(" FROM ");
    reveal_strlit("SELECT COUNT(*) FROM ");
    reveal_strlit(" i");
    reveal_strlit(" i WHERE i.index_id = ? AND i.object_store_id = ?");
    reveal_strlit(" WHERE i.index_id = ? AND i.object_store_id = ?");
    assert("SELECT COUNT(*) FROM "@ =~= "SELECT "@ + "COUNT(*)"@ + " FROM "@);
    assert(" i WHERE i.index_id = ? AND i.object_store_id = ?"@ =~= " i"@
        + " WHERE i.index_id = ? AND i.object_store_id = ?"@);
    let source = index_table_name(index.unique_index) + " i"@;
    let text = "SELECT "@ + "COUNT(*)"@ + " FROM "@ + source + terms_text(terms) + no_tail().sql;
    assert(statement.sql =~= text);
    assert(statement.values =~= terms_values(terms) + no_tail().values);
    assert(reads(statement, "COUNT(*)"@, source, terms, no_tail()));
}

/// A row of `object_data` meets every condition of a `SELECT` from that table.
pub open spec fn selected_row(clauses: Seq<SelectClause>, row: Row) -> bool {
    &&& clauses.contains(SelectClause::From("object_data"@))
    &&& forall|i: int| 0 <= i < clauses.len() ==> selected_by(#[trigger] clauses[i], row)
}

/// The row meets the clause, where the clause is a condition.
pub open spec fn selected_by(clause: SelectClause, row: Row) -> bool {
    match clause {
        SelectClause::From(table) => table == "object_data"@,
        SelectClause::Where(tests, column, number) => passed(tests, row) && row(column)
            == ValueView::Integer(number),
        _ => true,
    }
}

/// The comparisons hold of the row.
pub open spec fn passed(tests: Seq<ColumnTest>, row: Row) -> bool {
    forall|t: int|
        0 <= t < tests.len() ==> compares(
            row((#[trigger] tests[t]).column),
            tests[t].test,
            ValueView::Blob(tests[t].bound),
        )
}

/// No more rows than `limit` come, or all of them without a limit.
pub open spec fn limited_to(clauses: Seq<SelectClause>, limit: Option<int>) -> bool {
    match limit {
        Some(limit) => clauses.last() == SelectClause::Limit(limit),
        None => forall|i: int| 0 <= i < clauses.len() ==> !((#[trigger] clauses[i]) is Limit),
    }
}

proof fn ranges_pass(range: RangeView, store: int, key: Seq<u8>, data: Seq<u8>)
    ensures
        passed(range_tests(range), object_row(store, key, data)) <==> range.covers(key),
{
    names_differ();
    let tests = range_tests(range);
    let row = object_row(store, key, data);
    assert(row("key"@) == ValueView::Blob(key));
    if range.is_singleton() {
        let only = range.lower->0;
        assert(compares(row(tests[0].column), tests[0].test, ValueView::Blob(tests[0].bound))
            <==> key == only);
        if key_lt(only, key) {
            key_lt_asymmetric(only, key);
        }
    } else {
        if tests.len() > 0 {
            let first = compares(
                row(tests[0].column),
                tests[0].test,
                ValueView::Blob(tests[0].bound),
            );
            assert(passed(tests, row) ==> first);
        }
        if tests.len() > 1 {
            let second = compares(
                row(tests[1].column),
                tests[1].test,
                ValueView::Blob(tests[1].bound),
            );
            assert(passed(tests, row) ==> second);
        }
    }
}

/// A read of one record, a read of all and a count each look at the objects of the store whose key
/// the range covers, and at no others. One record is read at most of the first, in the second they
/// come in ascending order of the key and no more than `count` of them where it is more than zero,
/// and the third counts them all.
pub proof fn store_reads_follow_the_range(
    store_id: int,
    range: RangeView,
    count: Option<u32>,
    shape: RecordsShape,
    s: int,
    k: Seq<u8>,
    d: Seq<u8>,
)
    ensures
        selected_row(get_clauses(store_id, range), object_row(s, k, d)) <==> s == store_id
            && range.covers(k),
        limited_to(get_clauses(store_id, range), Some(1)),
        selected_row(records_clauses(store_id, range, count, shape), object_row(s, k, d)) <==> s
            == store_id && range.covers(k),
        limited_to(
            records_clauses(store_id, range, count, shape),
            match count {
                Some(count) if count > 0 => Some(count as int),
                _ => None,
            },
        ),
        records_clauses(store_id, range, count, shape).contains(SelectClause::OrderBy("key"@)),
        records_clauses(store_id, range, count, shape).contains(SelectClause::Column("key"@)),
        records_clauses(store_id, range, count, shape).contains(SelectClause::Column("data"@))
            <==> shape == RecordsShape::WithValues,
        selected_row(count_clauses(store_id, range), object_row(s, k, d)) <==> s == store_id
            && range.covers(k),
        limited_to(count_clauses(store_id, range), None),
        count_clauses(store_id, range).contains(SelectClause::CountOf("key"@)),
{
    names_differ();
    ranges_pass(range, s, k, d);
    let row = object_row(s, k, d);
    assert(row("object_store_id"@) == ValueView::Integer(s));
    let get = get_clauses(store_id, range);
    assert(get[0] == SelectClause::From("object_data"@));
    assert(selected_row(get, row) ==> selected_by(get[4], row));
    let all = records_clauses(store_id, range, count, shape);
    let n: int = if shape == RecordsShape::WithValues {
        3
    } else {
        2
    };
    assert(all[0] == SelectClause::From("object_data"@));
    assert(all[1] == SelectClause::Column("key"@));
    assert(shape == RecordsShape::WithValues ==> all[2] == SelectClause::Column("data"@));
    assert(selected_row(all, row) ==> selected_by(all[n], row));
    assert(all[n + 1] == SelectClause::OrderBy("key"@));
    let number = count_clauses(store_id, range);
    assert(number[0] == SelectClause::From("object_data"@));
    assert(number[1] == SelectClause::CountOf("key"@));
    assert(selected_row(number, row) ==> selected_by(number[2], row));
}

/// A deletion of a range deletes the objects of the store whose key the range covers, and no
/// others.
pub proof fn deletions_follow_the_range(store_id: int, range: RangeView)
    ensures
        exists|tests: Seq<ColumnTest>|
            #[trigger] built_delete("object_data"@, tests, "object_store_id"@, store_id)
                == range_deletion(store_id, range) && forall|s: int, k: Seq<u8>, d: Seq<u8>|
                passed(tests, #[trigger] object_row(s, k, d)) <==> range.covers(k),
{
    let tests = range_tests(range);
    assert forall|s: int, k: Seq<u8>, d: Seq<u8>|
        passed(tests, #[trigger] object_row(s, k, d)) <==> range.covers(k) by {
        ranges_pass(range, s, k, d);
    }
    assert(built_delete("object_data"@, tests, "object_store_id"@, store_id) == range_deletion(
        store_id,
        range,
    ));
}

} // verus!
