//! The statements that read a range of records.

use sea_query::{
    Alias, Condition, Expr, ExprTrait, IntoCondition, Order, Query, SelectStatement,
    SqliteQueryBuilder,
};
use sea_query_rusqlite::{RusqliteBinder, RusqliteValues};
use vstd::prelude::*;
use vstd::string::*;

use crate::indexeddb::engine::model::{
    index_table, index_table_name, values_view, IndexModel, Statement, StatementView, Value,
    ValueView,
};
use crate::indexeddb::key::{
    copy_bytes, key_le, key_lt, key_lt_asymmetric, IndexedDBKeyRange, RangeView,
};
use crate::indexeddb::record::RecordsShape;

verus! {

/// How a record's key is compared with a bound.
#[derive(Clone, Copy, Debug, PartialEq, Eq, Structural)]
pub enum KeyTest {
    Equal,
    Less,
    LessOrEqual,
    Greater,
    GreaterOrEqual,
}

/// One comparison of a column.
pub struct ColumnTest {
    pub column: Seq<char>,
    pub test: KeyTest,
    pub bound: Seq<u8>,
}

/// The key passes one comparison.
pub open spec fn passes(test: ColumnTest, key: Seq<u8>) -> bool {
    match test.test {
        KeyTest::Equal => key == test.bound,
        KeyTest::Less => key_lt(key, test.bound),
        KeyTest::LessOrEqual => key_le(key, test.bound),
        KeyTest::Greater => key_lt(test.bound, key),
        KeyTest::GreaterOrEqual => key_le(test.bound, key),
    }
}

/// A condition of the `sea_query` crate.
#[verifier::external_type_specification]
#[verifier::external_body]
pub struct ExCondition(Condition);

/// A `SELECT` statement of the `sea_query` crate.
#[verifier::external_type_specification]
#[verifier::external_body]
pub struct ExSelectStatement(SelectStatement);

/// The values that the `sea_query_rusqlite` crate binds to a statement.
#[verifier::external_type_specification]
#[verifier::external_body]
pub struct ExRusqliteValues(RusqliteValues);

/// The comparisons that a condition joins by `AND`, in the order in which they were added.
pub uninterp spec fn column_tests(condition: Condition) -> Seq<ColumnTest>;

/// A condition without comparisons. Calls `Condition::all`.
#[verifier::external_body]
fn no_tests() -> (condition: Condition)
    ensures
        column_tests(condition) == Seq::<ColumnTest>::empty(),
{
    Condition::all()
}

/// The condition that a column is `bound`. Calls `ExprTrait::eq` and
/// `IntoCondition::into_condition`, which makes a condition of that one comparison.
#[verifier::external_body]
fn column_equals(column: &str, bound: Vec<u8>) -> (condition: Condition)
    ensures
        column_tests(condition) == seq![
            ColumnTest { column: column@, test: KeyTest::Equal, bound: bound@ },
        ],
{
    Expr::column(Alias::new(column)).eq(bound).into_condition()
}

/// Adds that a column comes before `bound`. Calls `ExprTrait::lt` and `Condition::add`, which adds
/// the comparison at the end.
#[verifier::external_body]
fn and_below(condition: Condition, column: &str, bound: Vec<u8>) -> (longer: Condition)
    ensures
        column_tests(longer) == column_tests(condition).push(
            ColumnTest { column: column@, test: KeyTest::Less, bound: bound@ },
        ),
{
    condition.add(Expr::column(Alias::new(column)).lt(bound))
}

/// Adds that a column does not come after `bound`. Calls `ExprTrait::lte` and `Condition::add`,
/// which adds the comparison at the end.
#[verifier::external_body]
fn and_at_most(condition: Condition, column: &str, bound: Vec<u8>) -> (longer: Condition)
    ensures
        column_tests(longer) == column_tests(condition).push(
            ColumnTest { column: column@, test: KeyTest::LessOrEqual, bound: bound@ },
        ),
{
    condition.add(Expr::column(Alias::new(column)).lte(bound))
}

/// Adds that a column comes after `bound`. Calls `ExprTrait::gt` and `Condition::add`, which adds
/// the comparison at the end.
#[verifier::external_body]
fn and_above(condition: Condition, column: &str, bound: Vec<u8>) -> (longer: Condition)
    ensures
        column_tests(longer) == column_tests(condition).push(
            ColumnTest { column: column@, test: KeyTest::Greater, bound: bound@ },
        ),
{
    condition.add(Expr::column(Alias::new(column)).gt(bound))
}

/// Adds that a column does not come before `bound`. Calls `ExprTrait::gte` and `Condition::add`,
/// which adds the comparison at the end.
#[verifier::external_body]
fn and_at_least(condition: Condition, column: &str, bound: Vec<u8>) -> (longer: Condition)
    ensures
        column_tests(longer) == column_tests(condition).push(
            ColumnTest { column: column@, test: KeyTest::GreaterOrEqual, bound: bound@ },
        ),
{
    condition.add(Expr::column(Alias::new(column)).gte(bound))
}

/// One comparison of the column `key`.
pub open spec fn key_test(test: KeyTest, bound: Seq<u8>) -> ColumnTest {
    ColumnTest { column: "key"@, test, bound }
}

/// The comparisons of the key that a range comes to: one for a range of one key, and otherwise one
/// for each bound, the upper one first.
pub open spec fn range_tests(range: RangeView) -> Seq<ColumnTest> {
    if range.is_singleton() {
        seq![key_test(KeyTest::Equal, range.lower->0)]
    } else {
        let upper = match range.upper {
            Some(upper) => seq![
                key_test(
                    if range.upper_open {
                        KeyTest::Less
                    } else {
                        KeyTest::LessOrEqual
                    },
                    upper,
                ),
            ],
            None => seq![],
        };
        match range.lower {
            Some(lower) => upper.push(
                key_test(
                    if range.lower_open {
                        KeyTest::Greater
                    } else {
                        KeyTest::GreaterOrEqual
                    },
                    lower,
                ),
            ),
            None => upper,
        }
    }
}

/// The comparisons of a range accept exactly the keys that the range covers.
pub proof fn range_tests_accept_the_range(range: RangeView, key: Seq<u8>)
    ensures
        range.covers(key) <==> forall|i: int|
            0 <= i < range_tests(range).len() ==> passes(#[trigger] range_tests(range)[i], key),
{
    let tests = range_tests(range);
    if range.is_singleton() {
        assert(tests[0] == key_test(KeyTest::Equal, range.lower->0));
        if key_lt(range.lower->0, key) {
            key_lt_asymmetric(range.lower->0, key);
        }
    } else {
        match (range.upper, range.lower) {
            (Some(upper), Some(lower)) => {
                assert(passes(tests[0], key) == if range.upper_open {
                    key_lt(key, upper)
                } else {
                    key_le(key, upper)
                });
                assert(passes(tests[1], key) == if range.lower_open {
                    key_lt(lower, key)
                } else {
                    key_le(lower, key)
                });
            },
            (Some(upper), None) => {
                assert(passes(tests[0], key) == if range.upper_open {
                    key_lt(key, upper)
                } else {
                    key_le(key, upper)
                });
            },
            (None, Some(lower)) => {
                assert(passes(tests[0], key) == if range.lower_open {
                    key_lt(lower, key)
                } else {
                    key_le(lower, key)
                });
            },
            (None, None) => {},
        }
    }
}

/// The condition that a record's key lies in the range.
pub fn range_to_query(range: &IndexedDBKeyRange) -> (condition: Condition)
    ensures
        column_tests(condition) == range_tests(range@),
{
    if let Some(singleton) = range.as_singleton() {
        return column_equals("key", copy_bytes(&singleton.encoded));
    }
    let mut condition = no_tests();
    if let Some(upper) = &range.upper {
        let bytes = copy_bytes(&upper.encoded);
        condition =
        if range.upper_open {
            and_below(condition, "key", bytes)
        } else {
            and_at_most(condition, "key", bytes)
        };
    }
    if let Some(lower) = &range.lower {
        let bytes = copy_bytes(&lower.encoded);
        condition =
        if range.lower_open {
            and_above(condition, "key", bytes)
        } else {
            and_at_least(condition, "key", bytes)
        };
    }
    assert(column_tests(condition) =~= range_tests(range@));
    condition
}

/// One clause of a `SELECT`.
pub enum SelectClause {
    /// The rows are those of this table.
    From(Seq<char>),
    /// This column is selected.
    Column(Seq<char>),
    /// The number of values of this column is selected.
    CountOf(Seq<char>),
    /// The comparisons hold, and this column is this number.
    Where(Seq<ColumnTest>, Seq<char>, int),
    /// The rows come in ascending order of this column.
    OrderBy(Seq<char>),
    /// No more rows than this come.
    Limit(int),
}

/// The clauses are the table and what is selected from it, and nothing else.
pub open spec fn selecting(clauses: Seq<SelectClause>) -> bool {
    forall|i: int|
        0 <= i < clauses.len() ==> (#[trigger] clauses[i]) is From || clauses[i] is Column
            || clauses[i] is CountOf
}

/// The number of rows is not limited yet.
pub open spec fn unlimited(clauses: Seq<SelectClause>) -> bool {
    forall|i: int| 0 <= i < clauses.len() ==> !((#[trigger] clauses[i]) is Limit)
}

/// The clauses of a `SELECT`: its table, what is selected in order, its condition if it has one, its
/// columns of order, and its limit if it has one.
pub uninterp spec fn select_clauses(statement: SelectStatement) -> Seq<SelectClause>;

/// The values bound to a statement, in order.
pub uninterp spec fn bound_values(values: RusqliteValues) -> Seq<ValueView>;

/// The text and values that a `SELECT` with these clauses comes to in SQLite's dialect.
pub uninterp spec fn built_select(clauses: Seq<SelectClause>) -> (Seq<char>, Seq<ValueView>);

/// The text and values of the `DELETE` of the rows of a table that pass the comparisons and whose
/// column is the number, in SQLite's dialect.
pub uninterp spec fn built_delete(
    table: Seq<char>,
    tests: Seq<ColumnTest>,
    column: Seq<char>,
    number: int,
) -> (Seq<char>, Seq<ValueView>);

/// A `SELECT` from a table. Calls `Query::select` and `SelectStatement::from`.
#[verifier::external_body]
fn select_from(table: &str) -> (statement: SelectStatement)
    ensures
        select_clauses(statement) == seq![SelectClause::From(table@)],
{
    let mut statement = Query::select();
    statement.from(Alias::new(table));
    statement
}

/// Selects one more column, as long as nothing but columns was added. Calls
/// `SelectStatement::column`, which adds it behind those selected so far.
#[verifier::external_body]
fn add_column(statement: &mut SelectStatement, column: &str)
    requires
        selecting(select_clauses(*old(statement))),
    ensures
        select_clauses(*final(statement)) == select_clauses(*old(statement)).push(
            SelectClause::Column(column@),
        ),
{
    statement.column(Alias::new(column));
}

/// Selects the number of values of a column, as long as nothing but columns was added. Calls
/// `ExprTrait::count` and `SelectStatement::expr`, which adds it behind what is selected so far.
#[verifier::external_body]
fn add_count_of(statement: &mut SelectStatement, column: &str)
    requires
        selecting(select_clauses(*old(statement))),
    ensures
        select_clauses(*final(statement)) == select_clauses(*old(statement)).push(
            SelectClause::CountOf(column@),
        ),
{
    statement.expr(Expr::col(Alias::new(column)).count());
}

/// Adds the one condition: that `condition` holds and that a column is the number. Calls
/// `ExprTrait::and`, `ExprTrait::is` and `SelectStatement::and_where`.
#[verifier::external_body]
fn add_where(statement: &mut SelectStatement, condition: Condition, column: &str, number: i32)
    requires
        selecting(select_clauses(*old(statement))),
    ensures
        select_clauses(*final(statement)) == select_clauses(*old(statement)).push(
            SelectClause::Where(column_tests(condition), column@, number as int),
        ),
{
    statement.and_where(condition.and(Expr::col(Alias::new(column)).is(number)));
}

/// Adds that the rows come in ascending order of a column, before any limit. Calls
/// `SelectStatement::order_by`, which adds it behind the columns of order so far.
#[verifier::external_body]
fn add_order_by(statement: &mut SelectStatement, column: &str)
    requires
        unlimited(select_clauses(*old(statement))),
    ensures
        select_clauses(*final(statement)) == select_clauses(*old(statement)).push(
            SelectClause::OrderBy(column@),
        ),
{
    statement.order_by(Alias::new(column), Order::Asc);
}

/// Sets the one limit: no more than `limit` rows come. Calls `SelectStatement::limit`.
#[verifier::external_body]
fn add_limit(statement: &mut SelectStatement, limit: u64)
    requires
        unlimited(select_clauses(*old(statement))),
    ensures
        select_clauses(*final(statement)) == select_clauses(*old(statement)).push(
            SelectClause::Limit(limit as int),
        ),
{
    statement.limit(limit);
}

/// A query that is built: its text and the values bound to it.
#[derive(Debug)]
pub struct BuiltQuery {
    pub sql: String,
    pub values: RusqliteValues,
}

impl BuiltQuery {
    /// The text and values of the query.
    pub open spec fn parts(&self) -> (Seq<char>, Seq<ValueView>) {
        (self.sql@, bound_values(self.values))
    }
}

/// Builds a `SELECT`. Calls `RusqliteBinder::build_rusqlite` with `SqliteQueryBuilder`. Believed of
/// it: what it builds depends on the clauses alone.
#[verifier::external_body]
fn build_select(statement: SelectStatement) -> (query: BuiltQuery)
    ensures
        (query.sql@, bound_values(query.values)) == built_select(select_clauses(statement)),
{
    let (sql, values) = statement.build_rusqlite(SqliteQueryBuilder);
    BuiltQuery { sql, values }
}

/// Builds the `DELETE` of the rows of a table that meet the condition and whose column is the
/// number. Calls `Query::delete`, `DeleteStatement::from_table`, `and_where` and
/// `RusqliteBinder::build_rusqlite`. Believed of it: what it builds depends on the table, the
/// comparisons, the column and the number alone.
#[verifier::external_body]
fn build_delete(table: &str, condition: Condition, column: &str, number: i32) -> (query: BuiltQuery)
    ensures
        (query.sql@, bound_values(query.values)) == built_delete(
            table@,
            column_tests(condition),
            column@,
            number as int,
        ),
{
    let (sql, values) = Query::delete()
        .from_table(Alias::new(table))
        .and_where(condition.and(Expr::col(Alias::new(column)).is(number)))
        .build_rusqlite(SqliteQueryBuilder);
    BuiltQuery { sql, values }
}

/// The clause that a record is one of the store and that its key lies in the range.
pub open spec fn in_store_and_range(store_id: int, range: RangeView) -> SelectClause {
    SelectClause::Where(range_tests(range), "object_store_id"@, store_id)
}

/// The clauses of the read of one record of a store in a range.
pub open spec fn get_clauses(store_id: int, range: RangeView) -> Seq<SelectClause> {
    seq![
        SelectClause::From("object_data"@),
        SelectClause::Column("object_store_id"@),
        SelectClause::Column("key"@),
        SelectClause::Column("data"@),
        in_store_and_range(store_id, range),
        SelectClause::Limit(1),
    ]
}

/// The query for one record of a store in the range.
pub fn get(store_id: i32, key_range: &IndexedDBKeyRange) -> (query: BuiltQuery)
    ensures
        query.parts() == built_select(get_clauses(store_id as int, key_range@)),
{
    let mut statement = select_from("object_data");
    add_column(&mut statement, "object_store_id");
    add_column(&mut statement, "key");
    add_column(&mut statement, "data");
    add_where(&mut statement, range_to_query(key_range), "object_store_id", store_id);
    add_limit(&mut statement, 1);
    assert(select_clauses(statement) =~= get_clauses(store_id as int, key_range@));
    build_select(statement)
}

/// The clauses of the read of a store's records in a range: the key, the value where it is asked
/// for, in ascending order of the key, and no more than `count`. A count of zero sets no limit.
pub open spec fn records_clauses(
    store_id: int,
    range: RangeView,
    count: Option<u32>,
    shape: RecordsShape,
) -> Seq<SelectClause> {
    let keys = seq![SelectClause::From("object_data"@), SelectClause::Column("key"@)];
    let columns = if shape == RecordsShape::WithValues {
        keys.push(SelectClause::Column("data"@))
    } else {
        keys
    };
    let ordered = columns.push(in_store_and_range(store_id, range)).push(
        SelectClause::OrderBy("key"@),
    );
    match count {
        Some(count) if count > 0 => ordered.push(SelectClause::Limit(count as int)),
        _ => ordered,
    }
}

/// The query for the records of a store in the range, in ascending order of the key.
pub fn object_store_records(
    store_id: i32,
    key_range: &IndexedDBKeyRange,
    count: Option<u32>,
    shape: RecordsShape,
) -> (query: BuiltQuery)
    ensures
        query.parts() == built_select(
            records_clauses(store_id as int, key_range@, count, shape),
        ),
{
    let mut statement = select_from("object_data");
    add_column(&mut statement, "key");
    if shape == RecordsShape::WithValues {
        add_column(&mut statement, "data");
    }
    add_where(&mut statement, range_to_query(key_range), "object_store_id", store_id);
    add_order_by(&mut statement, "key");
    if let Some(count) = count {
        if count > 0 {
            add_limit(&mut statement, count as u64);
        }
    }
    assert(select_clauses(statement) =~= records_clauses(
        store_id as int,
        key_range@,
        count,
        shape,
    ));
    build_select(statement)
}

/// The clauses of the count of a store's records in a range.
pub open spec fn count_clauses(store_id: int, range: RangeView) -> Seq<SelectClause> {
    seq![
        SelectClause::From("object_data"@),
        SelectClause::CountOf("key"@),
        in_store_and_range(store_id, range),
    ]
}

/// The query for the number of a store's records in the range.
pub fn count(store_id: i32, key_range: &IndexedDBKeyRange) -> (query: BuiltQuery)
    ensures
        query.parts() == built_select(count_clauses(store_id as int, key_range@)),
{
    let mut statement = select_from("object_data");
    add_count_of(&mut statement, "key");
    add_where(&mut statement, range_to_query(key_range), "object_store_id", store_id);
    assert(select_clauses(statement) =~= count_clauses(store_id as int, key_range@));
    build_select(statement)
}

/// The text and values of the deletion of a store's records in a range.
pub open spec fn range_deletion(store_id: int, range: RangeView) -> (Seq<char>, Seq<ValueView>) {
    built_delete("object_data"@, range_tests(range), "object_store_id"@, store_id)
}

/// The statement that deletes a store's records in the range.
pub fn delete_records(store_id: i32, key_range: &IndexedDBKeyRange) -> (query: BuiltQuery)
    ensures
        query.parts() == range_deletion(store_id as int, key_range@),
{
    build_delete("object_data", range_to_query(key_range), "object_store_id", store_id)
}

/// One comparison that a statement adds over a column.
pub open spec fn comparison(column: Seq<char>, operator: Seq<char>) -> Seq<char> {
    " AND "@ + column + " "@ + operator + " ?"@
}

/// The text that a range adds to a statement as comparisons over a column.
pub open spec fn range_predicate(column: Seq<char>, range: RangeView) -> Seq<char> {
    if range.is_singleton() {
        comparison(column, "="@)
    } else {
        let lower = match range.lower {
            Some(_) => comparison(
                column,
                if range.lower_open {
                    ">"@
                } else {
                    ">="@
                },
            ),
            None => seq![],
        };
        let upper = match range.upper {
            Some(_) => comparison(
                column,
                if range.upper_open {
                    "<"@
                } else {
                    "<="@
                },
            ),
            None => seq![],
        };
        lower + upper
    }
}

/// The values that go with [`range_predicate`].
pub open spec fn range_values(range: RangeView) -> Seq<ValueView> {
    if range.is_singleton() {
        seq![ValueView::Blob(range.lower->0)]
    } else {
        let lower = match range.lower {
            Some(lower) => seq![ValueView::Blob(lower)],
            None => seq![],
        };
        match range.upper {
            Some(upper) => lower.push(ValueView::Blob(upper)),
            None => lower,
        }
    }
}

fn push_value(values: &mut Vec<Value>, value: Value)
    ensures
        values_view(final(values)@) == values_view(old(values)@).push(value@),
{
    let ghost before = values@;
    values.push(value);
    assert(values_view(values@) =~= values_view(before).push(value@));
}

/// Adds the range to a statement as a comparison over `column`, with its bounds as values.
pub fn append_range_predicate(
    sql: &mut String,
    values: &mut Vec<Value>,
    column: &str,
    range: &IndexedDBKeyRange,
)
    ensures
        final(sql)@ == old(sql)@ + range_predicate(column@, range@),
        values_view(final(values)@) == values_view(old(values)@) + range_values(range@),
{
    let ghost text = sql@;
    let ghost bound = values_view(values@);
    if let Some(singleton) = range.as_singleton() {
        append_comparison(sql, column, "=");
        push_value(values, Value::Blob(copy_bytes(&singleton.encoded)));
        assert(values_view(values@) =~= bound + range_values(range@));
        return ;
    }
    if let Some(lower) = &range.lower {
        append_comparison(
            sql,
            column,
            if range.lower_open {
                ">"
            } else {
                ">="
            },
        );
        push_value(values, Value::Blob(copy_bytes(&lower.encoded)));
    }
    if let Some(upper) = &range.upper {
        append_comparison(
            sql,
            column,
            if range.upper_open {
                "<"
            } else {
                "<="
            },
        );
        push_value(values, Value::Blob(copy_bytes(&upper.encoded)));
    }
    assert(sql@ =~= text + range_predicate(column@, range@));
    assert(values_view(values@) =~= bound + range_values(range@));
}

fn append_comparison(sql: &mut String, column: &str, operator: &str)
    ensures
        final(sql)@ == old(sql)@ + comparison(column@, operator@),
{
    let mut text = " AND ".to_owned();
    text.append(column);
    text.append(" ");
    text.append(operator);
    text.append(" ?");
    sql.append(text.as_str());
}

/// The read of an index's records in a range, by index key and then by primary key. The join
/// stands even where no value is read: it drops an index record whose object is gone.
pub open spec fn index_records_statement(
    index: IndexModel,
    store_id: int,
    range: RangeView,
    count: Option<u32>,
    shape: RecordsShape,
) -> StatementView {
    let sql = "SELECT i.value, i.object_data_key"@ + (if shape == RecordsShape::WithValues {
        ", o.data"@
    } else {
        ""@
    }) + " FROM "@ + index_table_name(index.unique_index)
        + " i JOIN object_data o ON o.object_store_id = i.object_store_id AND o.key = i.object_data_key WHERE i.index_id = ? AND i.object_store_id = ?"@
        + range_predicate("i.value"@, range) + " ORDER BY i.value ASC, i.object_data_key ASC"@;
    let values = seq![ValueView::Integer(index.id as int), ValueView::Integer(store_id)]
        + range_values(range);
    match count {
        Some(count) if count > 0 => StatementView {
            sql: sql + " LIMIT ?"@,
            values: values.push(ValueView::Integer(count as int)),
        },
        _ => StatementView { sql, values },
    }
}

/// The statement that reads an index's records in a range.
pub fn index_records(
    index: &IndexModel,
    store_id: i32,
    key_range: &IndexedDBKeyRange,
    count: Option<u32>,
    shape: RecordsShape,
) -> (statement: Statement)
    ensures
        statement@ == index_records_statement(*index, store_id as int, key_range@, count, shape),
{
    let mut sql = "SELECT i.value, i.object_data_key".to_owned();
    sql.append(
        match shape {
            RecordsShape::WithValues => ", o.data",
            RecordsShape::KeysOnly => "",
        },
    );
    sql.append(" FROM ");
    sql.append(index_table(index));
    sql.append(
        " i JOIN object_data o ON o.object_store_id = i.object_store_id AND o.key = i.object_data_key WHERE i.index_id = ? AND i.object_store_id = ?",
    );
    let mut values: Vec<Value> = Vec::new();
    push_value(&mut values, Value::Integer(index.id as i64));
    push_value(&mut values, Value::Integer(store_id as i64));
    append_range_predicate(&mut sql, &mut values, "i.value", key_range);
    sql.append(" ORDER BY i.value ASC, i.object_data_key ASC");
    if let Some(count) = count {
        if count > 0 {
            sql.append(" LIMIT ?");
            push_value(&mut values, Value::Integer(count as i64));
        }
    }
    let ghost expected = index_records_statement(
        *index,
        store_id as int,
        key_range@,
        count,
        shape,
    );
    assert(values_view(values@) =~= expected.values);
    Statement { sql, values }
}

/// The count of an index's records in a range.
pub open spec fn index_count_statement(
    index: IndexModel,
    store_id: int,
    range: RangeView,
) -> StatementView {
    StatementView {
        sql: "SELECT COUNT(*) FROM "@ + index_table_name(index.unique_index)
            + " i WHERE i.index_id = ? AND i.object_store_id = ?"@ + range_predicate(
            "i.value"@,
            range,
        ),
        values: seq![ValueView::Integer(index.id as int), ValueView::Integer(store_id)]
            + range_values(range),
    }
}

/// The statement that counts an index's records in a range without loading a value.
pub fn index_count(
    index: &IndexModel,
    store_id: i32,
    key_range: &IndexedDBKeyRange,
) -> (statement: Statement)
    ensures
        statement@ == index_count_statement(*index, store_id as int, key_range@),
{
    let mut sql = "SELECT COUNT(*) FROM ".to_owned();
    sql.append(index_table(index));
    sql.append(" i WHERE i.index_id = ? AND i.object_store_id = ?");
    let mut values: Vec<Value> = Vec::new();
    push_value(&mut values, Value::Integer(index.id as i64));
    push_value(&mut values, Value::Integer(store_id as i64));
    append_range_predicate(&mut sql, &mut values, "i.value", key_range);
    assert(values_view(values@) =~= index_count_statement(
        *index,
        store_id as int,
        key_range@,
    ).values);
    Statement { sql, values }
}

} // verus!
