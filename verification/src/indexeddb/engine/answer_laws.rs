//! What requests are answered with, in terms of what the tables hold.

use vstd::prelude::*;
use vstd::seq_lib::{lemma_seq_concat_contains_all_elements, lemma_seq_contains_after_push};
use vstd::string::*;

use crate::indexeddb::engine::backfill::{
    all_pairs, entry_pairs, first_writes, pair_write, Backfill, BackfillStep, IndexBackfillEntry,
};
use crate::indexeddb::engine::command::writes;
use crate::indexeddb::engine::dispatch::{row_view, SourceRecord, Work};
use crate::indexeddb::engine::job::{
    asks_index, backfills, puts, reads_index, reads_object, reads_store, resumes, starts, Job,
    JobEvent, JobStep, ObjectRow, ReadQuery, Reply,
};
use crate::indexeddb::engine::laws::{complete_put_knows_all, put_stores_the_record, sound};
use crate::indexeddb::engine::model::{
    index_table_name, BackendError, IndexModel, PutItemResult, Statement, StatementView, ValueView,
};
use crate::indexeddb::engine::put::{rows_of, updates_view, Answer, PutItem, PutStep, QuestionView};
use crate::indexeddb::engine::query::{
    built_select, count_clauses, get_clauses, index_records_statement, records_clauses, BuiltQuery,
    SelectClause,
};
use crate::indexeddb::engine::sql::{
    aliased_row, columns_text, equals, holds, in_index_order, index_counts_follow_the_range,
    index_reads_follow_the_range, joined_with_objects, no_tail, object_row, pick_range, reads,
    selected_row, spelled, store_reads_follow_the_range, terms_text, terms_values, Cell, Sql, Term,
};
use crate::indexeddb::engine::stores::{
    delete_index_statements, delete_store_statements, statements_view,
};
use crate::indexeddb::engine::tables::{IndexRow, Schema, Tables};
use crate::indexeddb::engine::transaction_run::refuses;
use crate::indexeddb::key::{IndexedDBKeyRange, IndexedDBKeyType, RangeView};
use crate::indexeddb::operation::KvsOperationTarget;
use crate::indexeddb::record::{records_view, IndexedDBRecord, RecordsShape};

verus! {

/// The row is what the tables answer to a query for one object: an object that meets its conditions,
/// or none where no object does.
pub open spec fn answers_object(
    parts: (Seq<char>, Seq<ValueView>),
    row: Option<ObjectRow>,
    tables: Tables,
) -> bool {
    forall|clauses: Seq<SelectClause>| #[trigger]
        built_select(clauses) == parts ==> match row {
            Some(row) => exists|s: int| #[trigger]
                tables.objects.contains_key((s, row.key@)) && tables.objects[(s, row.key@)]
                    == row.data@ && selected_row(clauses, object_row(s, row.key@, row.data@)),
            None => forall|s: int, k: Seq<u8>| #[trigger]
                tables.objects.contains_key((s, k)) ==> !selected_row(
                    clauses,
                    object_row(s, k, tables.objects[(s, k)]),
                ),
        }
}

/// The objects of a store whose key the range covers.
pub open spec fn objects_in(tables: Tables, store_id: int, range: RangeView) -> Set<
    (int, Seq<u8>),
> {
    Set::new(
        |at: (int, Seq<u8>)|
            tables.objects.contains_key(at) && at.0 == store_id && range.covers(at.1),
    )
}

/// The number is what the tables answer to a count of objects.
pub open spec fn answers_count(
    parts: (Seq<char>, Seq<ValueView>),
    number: int,
    tables: Tables,
) -> bool {
    forall|clauses: Seq<SelectClause>| #[trigger]
        built_select(clauses) == parts ==> number == Set::new(
            |at: (int, Seq<u8>)|
                tables.objects.contains_key(at) && selected_row(
                    clauses,
                    object_row(at.0, at.1, tables.objects[at]),
                ),
        ).len()
}

/// The rows are what the tables answer to a read of objects: objects that meet its conditions, and
/// where there is no limit, all of them.
pub open spec fn answers_objects(
    parts: (Seq<char>, Seq<ValueView>),
    rows: Seq<SourceRecord>,
    tables: Tables,
) -> bool {
    forall|clauses: Seq<SelectClause>| #[trigger]
        built_select(clauses) == parts ==> {
            &&& forall|r: int|
                0 <= r < rows.len() ==> is_selected_object(clauses, #[trigger] rows[r], tables)
            &&& (forall|c: int| 0 <= c < clauses.len() ==> !((#[trigger] clauses[c]) is Limit))
                ==> forall|s: int, k: Seq<u8>| #[trigger]
                tables.objects.contains_key((s, k)) && selected_row(
                    clauses,
                    object_row(s, k, tables.objects[(s, k)]),
                ) ==> exists|r: int| 0 <= r < rows.len() && (#[trigger] rows[r]).key@ == k
        }
}

/// The row is an object that meets the conditions, whose key is its primary key.
pub open spec fn is_selected_object(
    clauses: Seq<SelectClause>,
    row: SourceRecord,
    tables: Tables,
) -> bool {
    &&& row.primary_key@ == row.key@
    &&& exists|s: int| #[trigger]
        tables.objects.contains_key((s, row.key@)) && selected_row(
            clauses,
            object_row(s, row.key@, tables.objects[(s, row.key@)]),
        ) && (clauses.contains(SelectClause::Column("data"@)) ==> row.data@ == tables.objects[(
            s,
            row.key@,
        )])
}

/// A `get` from a store is answered with the value of an object of that store whose key the range
/// covers, and with nothing exactly where there is none; a `getKey` with the key of such an object.
pub proof fn gets_answer_from_the_range(
    store_id: i32,
    range: IndexedDBKeyRange,
    keys_only: bool,
    job: Job,
    query: BuiltQuery,
    row: Option<ObjectRow>,
    next: Option<Job>,
    reply: JobStep,
    tables: Tables,
)
    requires
        starts(
            if keys_only {
                Work::GetKey { store_id, target: KvsOperationTarget::ObjectStore, key_range: range }
            } else {
                Work::Get { store_id, target: KvsOperationTarget::ObjectStore, key_range: range }
            },
            Some(job),
            JobStep::ReadObject(query),
        ),
        answers_object(query.parts(), row, tables),
        resumes(job, JobEvent::Object(row), next, reply),
        row matches Some(row) ==> row.key_decodes,
    ensures
        next is None,
        keys_only ==> (reply matches JobStep::Reply(Reply::Key(Ok(key))) && match key {
            Some(key) => tables.objects.contains_key((store_id as int, key@)) && range@.covers(
                key@,
            ),
            None => forall|k: Seq<u8>|
                range@.covers(k) ==> !#[trigger] tables.objects.contains_key((store_id as int, k)),
        }),
        !keys_only ==> (reply matches JobStep::Reply(Reply::Value(Ok(value))) && match value {
            Some(value) => exists|k: Seq<u8>| #[trigger]
                tables.objects.contains_key((store_id as int, k)) && range@.covers(k)
                    && tables.objects[(store_id as int, k)] == value@,
            None => forall|k: Seq<u8>|
                range@.covers(k) ==> !#[trigger] tables.objects.contains_key((store_id as int, k)),
        }),
{
    let clauses = get_clauses(store_id as int, range@);
    assert(built_select(clauses) == query.parts());
    match row {
        Some(row) => {
            let s = choose|s: int| #[trigger]
                tables.objects.contains_key((s, row.key@)) && tables.objects[(s, row.key@)]
                    == row.data@ && selected_row(clauses, object_row(s, row.key@, row.data@));
            store_reads_follow_the_range(
                store_id as int,
                range@,
                None,
                RecordsShape::KeysOnly,
                s,
                row.key@,
                row.data@,
            );
            assert(s == store_id);
        },
        None => {
            assert forall|k: Seq<u8>| range@.covers(k) implies !#[trigger] tables.objects.contains_key(
                (store_id as int, k),
            ) by {
                store_reads_follow_the_range(
                    store_id as int,
                    range@,
                    None,
                    RecordsShape::KeysOnly,
                    store_id as int,
                    k,
                    tables.objects[(store_id as int, k)],
                );
            }
        },
    }
}

/// A `count` of a store is answered with the number of its objects whose key the range covers.
pub proof fn counts_answer_from_the_range(
    store_id: i32,
    range: IndexedDBKeyRange,
    job: Job,
    query: BuiltQuery,
    number: i64,
    next: Option<Job>,
    reply: JobStep,
    tables: Tables,
)
    requires
        starts(
            Work::Count { store_id, target: KvsOperationTarget::ObjectStore, key_range: range },
            Some(job),
            JobStep::ReadNumber(ReadQuery::Built(query)),
        ),
        number >= 0,
        answers_count(query.parts(), number as int, tables),
        resumes(job, JobEvent::Number(number), next, reply),
    ensures
        next is None,
        reply matches JobStep::Reply(Reply::Count(Ok(count))) && count == objects_in(
            tables,
            store_id as int,
            range@,
        ).len(),
{
    let clauses = count_clauses(store_id as int, range@);
    assert(built_select(clauses) == query.parts());
    let found = Set::new(
        |at: (int, Seq<u8>)|
            tables.objects.contains_key(at) && selected_row(
                clauses,
                object_row(at.0, at.1, tables.objects[at]),
            ),
    );
    assert forall|at: (int, Seq<u8>)| #[trigger]
        found.contains(at) <==> objects_in(tables, store_id as int, range@).contains(at) by {
        store_reads_follow_the_range(
            store_id as int,
            range@,
            None,
            RecordsShape::KeysOnly,
            at.0,
            at.1,
            tables.objects[at],
        );
    }
    assert(found =~= objects_in(tables, store_id as int, range@));
}

/// A read of a store's records is answered with objects of that store whose key the range covers,
/// each under its own key, in the order in which the tables gave them; without a count, with all of
/// them.
pub proof fn reads_answer_from_the_range(
    store_id: i32,
    range: IndexedDBKeyRange,
    count: Option<u32>,
    shape: RecordsShape,
    job: Job,
    query: BuiltQuery,
    rows: Vec<SourceRecord>,
    next: Option<Job>,
    records: Vec<IndexedDBRecord>,
    tables: Tables,
)
    requires
        starts(
            Work::Iterate {
                store_id,
                target: KvsOperationTarget::ObjectStore,
                key_range: range,
                count,
                shape,
            },
            Some(job),
            JobStep::ReadRecords(ReadQuery::Built(query), shape),
        ),
        answers_objects(query.parts(), rows@, tables),
        resumes(
            job,
            JobEvent::Records(rows),
            next,
            JobStep::Reply(Reply::Records(Ok(records))),
        ),
    ensures
        next is None,
        records@.len() == rows@.len(),
        forall|r: int|
            0 <= r < records@.len() ==> {
                let record = (#[trigger] records@[r])@;
                &&& record.key == rows@[r].key@
                &&& record.primary_key == record.key
                &&& tables.objects.contains_key((store_id as int, record.key))
                &&& range@.covers(record.key)
                &&& shape == RecordsShape::WithValues ==> record.value == tables.objects[(
                    store_id as int,
                    record.key,
                )]
            },
        count is None ==> forall|k: Seq<u8>| #[trigger]
            tables.objects.contains_key((store_id as int, k)) && range@.covers(k) ==> exists|r: int|
                0 <= r < records@.len() && (#[trigger] records@[r])@.key == k,
{
    let clauses = records_clauses(store_id as int, range@, count, shape);
    assert(built_select(clauses) == query.parts());
    let views = records_view(records@);
    let all = rows@.map_values(|row: SourceRecord| row_view(row));
    assert(views == all);
    assert(views.len() == all.len());
    assert forall|r: int| 0 <= r < records@.len() implies {
        let record = (#[trigger] records@[r])@;
        &&& record.key == rows@[r].key@
        &&& record.primary_key == record.key
        &&& tables.objects.contains_key((store_id as int, record.key))
        &&& range@.covers(record.key)
        &&& shape == RecordsShape::WithValues ==> record.value == tables.objects[(
            store_id as int,
            record.key,
        )]
    } by {
        assert(views[r] == all[r]);
        let row = rows@[r];
        assert(is_selected_object(clauses, row, tables));
        let s = choose|s: int| #[trigger]
            tables.objects.contains_key((s, row.key@)) && selected_row(
                clauses,
                object_row(s, row.key@, tables.objects[(s, row.key@)]),
            ) && (clauses.contains(SelectClause::Column("data"@)) ==> row.data@ == tables.objects[(
                s,
                row.key@,
            )]);
        store_reads_follow_the_range(
            store_id as int,
            range@,
            count,
            shape,
            s,
            row.key@,
            tables.objects[(s, row.key@)],
        );
        assert(s == store_id);
    }
    if count is None {
        assert forall|k: Seq<u8>| #[trigger]
            tables.objects.contains_key((store_id as int, k)) && range@.covers(k) implies exists|
            r: int,
        |
            0 <= r < records@.len() && (#[trigger] records@[r])@.key == k by {
            store_reads_follow_the_range(
                store_id as int,
                range@,
                count,
                shape,
                store_id as int,
                k,
                tables.objects[(store_id as int, k)],
            );
            let r = choose|r: int| 0 <= r < rows@.len() && (#[trigger] rows@[r]).key@ == k;
            assert(views[r] == all[r]);
            assert(records@[r]@.key == k);
        }
    }
}

/// The record of an index: the store that it points into, where the index has it.
pub open spec fn has_record(
    tables: Tables,
    unique: bool,
    index: int,
    value: Seq<u8>,
    store: int,
    primary_key: Seq<u8>,
) -> bool {
    if unique {
        tables.unique_records.contains_key((index, value)) && tables.unique_records[(index, value)]
            == (store, primary_key)
    } else {
        tables.records.contains_key((index, value, primary_key)) && tables.records[(
            index,
            value,
            primary_key,
        )] == store
    }
}

/// The row is a record of the index's table that meets the conditions, with the object that it points
/// at.
pub open spec fn is_selected_record(
    terms: Seq<Term>,
    unique: bool,
    row: SourceRecord,
    with_values: bool,
    tables: Tables,
) -> bool {
    exists|i: int, s: int| #[trigger]
        has_record(tables, unique, i, row.key@, s, row.primary_key@) && holds(
            terms,
            aliased_row(i, row.key@, s),
        ) && tables.objects.contains_key((s, row.primary_key@)) && (with_values ==> row.data@
            == tables.objects[(s, row.primary_key@)])
}

/// The rows are what the tables answer to a read of an index's records.
pub open spec fn answers_records(
    statement: StatementView,
    rows: Seq<SourceRecord>,
    unique: bool,
    with_values: bool,
    tables: Tables,
) -> bool {
    forall|columns: Seq<char>, terms: Seq<Term>, tail: StatementView| #[trigger]
        reads(statement, columns, joined_with_objects(unique), terms, tail) ==> {
            &&& forall|r: int|
                0 <= r < rows.len() ==> is_selected_record(
                    terms,
                    unique,
                    #[trigger] rows[r],
                    with_values,
                    tables,
                )
            &&& rows.len() == 0 ==> forall|i: int, v: Seq<u8>, s: int, p: Seq<u8>| #[trigger]
                has_record(tables, unique, i, v, s, p) && tables.objects.contains_key((s, p))
                    ==> !holds(terms, aliased_row(i, v, s))
        }
}

/// The row is a record of this index and this store whose index key the range covers.
pub open spec fn is_in_index(
    row: SourceRecord,
    index: IndexModel,
    store_id: int,
    range: RangeView,
    tables: Tables,
) -> bool {
    &&& has_record(
        tables,
        index.unique_index,
        index.id as int,
        row.key@,
        store_id,
        row.primary_key@,
    )
    &&& range.covers(row.key@)
    &&& tables.objects.contains_key((store_id, row.primary_key@))
}

/// A request to an index asks for the index of that name in its store, and then reads, of the index
/// that it is told of, the records of that store whose index key its range covers: `get` the value of
/// the object of the first, `getKey` the key of that object, and a read of records all of them.
pub proof fn index_requests_answer_from_the_range(
    store_id: i32,
    name: String,
    range: IndexedDBKeyRange,
    which: IndexRequest,
    ask: JobStep,
    job: Job,
    index: IndexModel,
    reading: Job,
    statement: Statement,
    own: RecordsShape,
    rows: Vec<SourceRecord>,
    next: Option<Job>,
    reply: JobStep,
    tables: Tables,
)
    requires
        starts(index_work(which, store_id, name, range), Some(job), ask),
        resumes(
            job,
            JobEvent::Answered(Answer::Index(Some(index))),
            Some(reading),
            JobStep::ReadRecords(ReadQuery::Plain(statement), own),
        ),
        answers_records(
            statement@,
            rows@,
            index.unique_index,
            own == RecordsShape::WithValues,
            tables,
        ),
        resumes(reading, JobEvent::Records(rows), next, reply),
        forall|r: int| 0 <= r < rows@.len() ==> (#[trigger] rows@[r]).decodes(),
    ensures
        ask matches JobStep::Ask(question) && question@ == (
        QuestionView::Index {
            store_id: store_id as int,
            name: name@,
        }),
        next is None,
        forall|r: int|
            0 <= r < rows@.len() ==> is_in_index(
                #[trigger] rows@[r],
                index,
                store_id as int,
                range@,
                tables,
            ),
        which is Get ==> (reply matches JobStep::Reply(Reply::Value(Ok(value))) && match value {
            Some(value) => rows@.len() > 0 && value@ == tables.objects[(
                store_id as int,
                rows@[0].primary_key@,
            )],
            None => rows@.len() == 0,
        }),
        which is GetKey ==> (reply matches JobStep::Reply(Reply::Key(Ok(key))) && match key {
            Some(key) => rows@.len() > 0 && key@ == rows@[0].primary_key@,
            None => rows@.len() == 0,
        }),
        which is Iterate ==> (reply matches JobStep::Reply(Reply::Records(Ok(records)))
            && records@.len() == rows@.len() && forall|r: int|
            0 <= r < rows@.len() ==> (#[trigger] records@[r])@.key == rows@[r].key@
                && records@[r]@.primary_key == rows@[r].primary_key@ && records@[r]@.value
                == rows@[r].data@),
        rows@.len() == 0 ==> forall|v: Seq<u8>, p: Seq<u8>|
            range@.covers(v) && #[trigger] has_record(
                tables,
                index.unique_index,
                index.id as int,
                v,
                store_id as int,
                p,
            ) ==> !tables.objects.contains_key((store_id as int, p)),
{
    let (count, shape) = match which {
        IndexRequest::Get => (Some(1u32), RecordsShape::WithValues),
        IndexRequest::GetKey => (Some(1u32), RecordsShape::KeysOnly),
        IndexRequest::Iterate { count, shape } => (count, shape),
    };
    assert(own == shape);
    assert(statement@ == index_records_statement(index, store_id as int, range@, count, shape));
    index_reads_follow_the_range(index, store_id as int, range@, count, shape);
    let columns = "i.value"@ + ", "@ + "i.object_data_key"@ + (if shape
        == RecordsShape::WithValues {
        ", "@ + "o.data"@
    } else {
        seq![]
    });
    let terms = choose|terms: Seq<Term>|
        #[trigger] pick_range(terms, index.id as int, store_id as int, range@) && reads(
            index_records_statement(index, store_id as int, range@, count, shape),
            columns,
            joined_with_objects(index.unique_index),
            terms,
            in_index_order(count),
        );
    assert(reads(
        statement@,
        columns,
        joined_with_objects(index.unique_index),
        terms,
        in_index_order(count),
    ));
    assert forall|r: int| 0 <= r < rows@.len() implies is_in_index(
        #[trigger] rows@[r],
        index,
        store_id as int,
        range@,
        tables,
    ) && (own == RecordsShape::WithValues ==> rows@[r].data@ == tables.objects[(
        store_id as int,
        rows@[r].primary_key@,
    )]) by {
        let row = rows@[r];
        assert(is_selected_record(
            terms,
            index.unique_index,
            row,
            own == RecordsShape::WithValues,
            tables,
        ));
        let (i, s) = choose|i: int, s: int| #[trigger]
            has_record(tables, index.unique_index, i, row.key@, s, row.primary_key@) && holds(
                terms,
                aliased_row(i, row.key@, s),
            ) && tables.objects.contains_key((s, row.primary_key@)) && ((own
                == RecordsShape::WithValues) ==> row.data@ == tables.objects[(
                s,
                row.primary_key@,
            )]);
        assert(i == index.id && s == store_id && range@.covers(row.key@));
    }
    if rows@.len() == 0 {
        assert forall|v: Seq<u8>, p: Seq<u8>|
            range@.covers(v) && #[trigger] has_record(
                tables,
                index.unique_index,
                index.id as int,
                v,
                store_id as int,
                p,
            ) implies !tables.objects.contains_key((store_id as int, p)) by {
            assert(holds(terms, aliased_row(index.id as int, v, store_id as int)));
        }
    }
    if which is Iterate {
        if let JobStep::Reply(Reply::Records(Ok(records))) = reply {
            let views = records_view(records@);
            let all = rows@.map_values(
                |row: SourceRecord| row_view(row),
            );
            assert(views == all);
            assert(views.len() == all.len());
            assert forall|r: int| 0 <= r < rows@.len() implies (#[trigger] records@[r])@.key
                == rows@[r].key@ && records@[r]@.primary_key == rows@[r].primary_key@
                && records@[r]@.value == rows@[r].data@ by {
                assert(views[r] == all[r]);
            }
        }
    }
}

/// A request that reads records of an index.
pub enum IndexRequest {
    Get,
    GetKey,
    Iterate { count: Option<u32>, shape: RecordsShape },
}

/// The work of such a request.
pub open spec fn index_work(
    which: IndexRequest,
    store_id: i32,
    name: String,
    range: IndexedDBKeyRange,
) -> Work {
    let target = KvsOperationTarget::Index { name };
    match which {
        IndexRequest::Get => Work::Get { store_id, target, key_range: range },
        IndexRequest::GetKey => Work::GetKey { store_id, target, key_range: range },
        IndexRequest::Iterate { count, shape } => Work::Iterate {
            store_id,
            target,
            key_range: range,
            count,
            shape,
        },
    }
}

/// A `count` of an index counts the records of that index and its store whose index key the range
/// covers, and is answered with their number; one of an index that is not there is answered with
/// zero.
pub proof fn index_counts_answer_from_the_range(
    store_id: i32,
    name: String,
    range: IndexedDBKeyRange,
    ask: JobStep,
    job: Job,
    index: Option<IndexModel>,
    next: Option<Job>,
    step: JobStep,
)
    requires
        starts(
            Work::Count {
                store_id,
                target: KvsOperationTarget::Index { name },
                key_range: range,
            },
            Some(job),
            ask,
        ),
        resumes(job, JobEvent::Answered(Answer::Index(index)), next, step),
    ensures
        index matches Some(index) ==> {
            &&& step matches JobStep::ReadNumber(ReadQuery::Plain(statement))
            &&& exists|terms: Seq<Term>|
                #[trigger] pick_range(terms, index.id as int, store_id as int, range@) && reads(
                    statement@,
                    "COUNT(*)"@,
                    index_table_name(index.unique_index) + " i"@,
                    terms,
                    no_tail(),
                )
            &&& next matches Some(counting) && forall|number: i64, after: Option<Job>, reply: JobStep|
                number >= 0 && #[trigger] resumes(
                    counting,
                    JobEvent::Number(number),
                    after,
                    reply,
                ) ==> after is None && reply == JobStep::Reply(Reply::Count(Ok(number as u64)))
        },
        index is None ==> next is None && step == JobStep::Reply(Reply::Count(Ok(0))),
{
    if let Some(index) = index {
        index_counts_follow_the_range(index, store_id as int, range@);
    }
}

/// A `put` whose questions were all answered truly stores its record, and is answered with its key,
/// exactly where the store has no object under that key or the request overwrites; otherwise it
/// changes nothing and says so.
pub proof fn puts_answer_what_they_did(
    put: PutItem,
    step: PutStep,
    tables: Tables,
    schema: Schema,
)
    requires
        sound(put, tables, schema),
        put.question() is None,
        put.leads_to(step),
    ensures
        ({
            let at = (put.store_id as int, put.key@);
            let stores = put.should_overwrite || !tables.objects.contains_key(at);
            &&& step matches PutStep::Finish { result, commands }
            &&& stores ==> (result matches PutItemResult::Key(key) && key@ == put.key@)
                && tables.after_all(writes(commands@)).objects == tables.objects.insert(
                at,
                put.value@,
            )
            &&& !stores ==> result is CannotOverwrite && tables.after_all(writes(commands@))
                == tables
        }),
{
    complete_put_knows_all(put, tables, schema);
    let at = (put.store_id as int, put.key@);
    if put.should_overwrite || !tables.objects.contains_key(at) {
        put_stores_the_record(
            tables,
            put.store_id as int,
            put.key@,
            put.value@,
            updates_view(put.updates@),
            rows_of(put.indexes@),
            put.generator,
        );
    }
}

/// One of the entries has this index key for this object.
pub open spec fn is_entered(
    entries: Seq<IndexBackfillEntry>,
    primary_key: Seq<u8>,
    value: Seq<u8>,
) -> bool {
    exists|e: int, k: int| is_entered_at(entries, primary_key, value, e, k)
}

/// The entry in this place has this index key for this object.
pub open spec fn is_entered_at(
    entries: Seq<IndexBackfillEntry>,
    primary_key: Seq<u8>,
    value: Seq<u8>,
    e: int,
    k: int,
) -> bool {
    &&& 0 <= e < entries.len()
    &&& entries[e].primary_key@ == primary_key
    &&& 0 <= k < entries[e].keys@.len()
    &&& entries[e].keys@[k]@ == value
}

/// What a backfill writes is each index key of each entry, for that entry's object, and nothing else.
pub proof fn backfills_write_what_was_entered(
    entries: Seq<IndexBackfillEntry>,
    primary_key: Seq<u8>,
    value: Seq<u8>,
)
    ensures
        all_pairs(entries).contains((primary_key, value)) <==> is_entered(
            entries,
            primary_key,
            value,
        ),
    decreases entries.len(),
{
    let pair = (primary_key, value);
    if entries.len() > 0 {
        let fewer = entries.drop_last();
        let n = fewer.len() as int;
        let last = entry_pairs(entries.last());
        backfills_write_what_was_entered(fewer, primary_key, value);
        lemma_seq_concat_contains_all_elements(all_pairs(fewer), last, pair);
        if is_entered(fewer, primary_key, value) {
            let (e, k) = choose|e: int, k: int| is_entered_at(fewer, primary_key, value, e, k);
            assert(is_entered_at(entries, primary_key, value, e, k));
        }
        if last.contains(pair) {
            let k = choose|k: int| 0 <= k < last.len() && last[k] == pair;
            assert(is_entered_at(entries, primary_key, value, n, k));
        }
        if is_entered(entries, primary_key, value) {
            let (e, k) = choose|e: int, k: int| is_entered_at(entries, primary_key, value, e, k);
            if e < n {
                assert(is_entered_at(fewer, primary_key, value, e, k));
            } else {
                assert(last[k] == pair);
            }
        }
    } else {
        if is_entered(entries, primary_key, value) {
            let (e, k) = choose|e: int, k: int| is_entered_at(entries, primary_key, value, e, k);
        }
    }
}

/// A backfill that has written everything leaves the index with a record for each of its pairs, and
/// the objects and every other record as they were.
pub proof fn backfills_fill_the_index(
    tables: Tables,
    store_id: int,
    row: IndexRow,
    pairs: Seq<(Seq<u8>, Seq<u8>)>,
    n: int,
)
    requires
        !row.unique,
        0 <= n <= pairs.len(),
    ensures
        ({
            let after = tables.after_all(first_writes(store_id, row, pairs, n));
            &&& after.objects == tables.objects
            &&& after.generators == tables.generators
            &&& after.unique_records == tables.unique_records
            &&& forall|i: int, v: Seq<u8>, p: Seq<u8>| #[trigger]
                after.records.contains_key((i, v, p)) <==> tables.records.contains_key((i, v, p))
                    || (i == row.id && pairs.take(n).contains((p, v)))
            &&& forall|i: int, v: Seq<u8>, p: Seq<u8>|
                i == row.id && pairs.take(n).contains((p, v)) ==> #[trigger] after.records[(i, v, p)]
                    == store_id
        }),
    decreases n,
{
    let all = first_writes(store_id, row, pairs, n);
    if n == 0 {
        assert(all =~= seq![]);
    } else {
        backfills_fill_the_index(tables, store_id, row, pairs, n - 1);
        let fewer = first_writes(store_id, row, pairs, n - 1);
        assert(all.drop_last() =~= fewer);
        assert(all.last() == pair_write(store_id, row, pairs[n - 1]));
        let last = pairs[n - 1];
        assert(pairs.take(n) =~= pairs.take(n - 1).push(last));
        assert forall|pair: (Seq<u8>, Seq<u8>)| #[trigger]
            pairs.take(n).contains(pair) <==> pairs.take(n - 1).contains(pair) || pair == last by {
            lemma_seq_contains_after_push(pairs.take(n - 1), last, pair);
        }
    }
}

/// Deleting a store deletes everything of it, and nothing of another: the index records of both
/// kinds, the declarations of its indexes, its objects, and the store itself at last.
pub proof fn deleted_stores_leave_nothing(store_id: int)
    ensures
        ({
            let of_store = seq![equals("object_store_id"@, ValueView::Integer(store_id))];
            let own = seq![equals("id"@, ValueView::Integer(store_id))];
            delete_store_statements(store_id) == seq![
                (Sql::Delete { table: "index_data"@, terms: of_store }).statement(),
                (Sql::Delete { table: "unique_index_data"@, terms: of_store }).statement(),
                (Sql::Delete { table: "object_store_index"@, terms: of_store }).statement(),
                (Sql::Delete { table: "object_data"@, terms: of_store }).statement(),
                (Sql::Delete { table: "object_store"@, terms: own }).statement(),
            ]
        }),
{
    let of_store = seq![equals("object_store_id"@, ValueView::Integer(store_id))];
    let own = seq![equals("id"@, ValueView::Integer(store_id))];
    one_term(of_store[0]);
    one_term(own[0]);
    reveal_strlit("DELETE FROM ");
    reveal_strlit(" WHERE ");
    reveal_strlit("object_store_id");
    reveal_strlit("id");
    reveal_strlit(" ");
    reveal_strlit("=");
    reveal_strlit(" ?");
    reveal_strlit("object_store_index");
    reveal_strlit("object_data");
    reveal_strlit("object_store");
    reveal_strlit(" WHERE object_store_id = ?");
    reveal_strlit("DELETE FROM object_store_index WHERE object_store_id = ?");
    reveal_strlit("DELETE FROM object_data WHERE object_store_id = ?");
    reveal_strlit("DELETE FROM object_store WHERE id = ?");
    let text = terms_text(of_store);
    assert(text =~= " WHERE object_store_id = ?"@);
    let all = delete_store_statements(store_id);
    assert(all[0].sql =~= "DELETE FROM "@ + "index_data"@ + text);
    assert(all[1].sql =~= "DELETE FROM "@ + "unique_index_data"@ + text);
    assert(all[2].sql =~= "DELETE FROM "@ + "object_store_index"@ + text);
    assert(all[3].sql =~= "DELETE FROM "@ + "object_data"@ + text);
    assert(all[4].sql =~= "DELETE FROM "@ + "object_store"@ + terms_text(own));
}

proof fn one_term(term: Term)
    ensures
        terms_text(seq![term]) == " WHERE "@ + term.column + " "@
            + spelled(term.test) + " ?"@,
        terms_values(seq![term]) == seq![term.bound],
{
    reveal_with_fuel(terms_text, 2);
    assert(seq![term].drop_last() =~= seq![]);
    assert(terms_text(seq![term]) =~= " WHERE "@ + term.column + " "@
        + spelled(term.test) + " ?"@);
    assert(terms_values(seq![term]) =~= seq![term.bound]);
}

/// Deleting an index deletes the records of that index alone, and the one declaration of that name
/// in that store.
pub proof fn deleted_indexes_leave_nothing(store_id: int, name: Seq<char>, index: IndexModel)
    ensures
        ({
            let of_index = seq![equals("index_id"@, ValueView::Integer(index.id as int))];
            let own = seq![
                equals("name"@, ValueView::Text(name)),
                equals("object_store_id"@, ValueView::Integer(store_id)),
            ];
            let declaration =
                (Sql::Delete { table: "object_store_index"@, terms: own }).statement();
            &&& delete_index_statements(store_id, name, Some(index)) == seq![
                (Sql::Delete {
                    table: if index.unique_index {
                        "unique_index_data"@
                    } else {
                        "index_data"@
                    },
                    terms: of_index,
                }).statement(),
                declaration,
            ]
            &&& delete_index_statements(store_id, name, None) == seq![declaration]
        }),
{
    let of_index = seq![equals("index_id"@, ValueView::Integer(index.id as int))];
    let own = seq![
        equals("name"@, ValueView::Text(name)),
        equals("object_store_id"@, ValueView::Integer(store_id)),
    ];
    one_term(of_index[0]);
    one_term(own[0]);
    assert(own.drop_last() =~= seq![own[0]]);
    assert(terms_values(own) =~= seq![ValueView::Text(name), ValueView::Integer(store_id)]);
    reveal_strlit("DELETE FROM ");
    reveal_strlit(" WHERE ");
    reveal_strlit(" AND ");
    reveal_strlit("name");
    reveal_strlit("object_store_id");
    reveal_strlit("index_id");
    reveal_strlit(" ");
    reveal_strlit("=");
    reveal_strlit(" ?");
    reveal_strlit("object_store_index");
    reveal_strlit(" WHERE index_id = ?");
    reveal_strlit("DELETE FROM object_store_index WHERE name = ? AND object_store_id = ?");
    assert(terms_text(of_index) =~= " WHERE index_id = ?"@);
    let declaration = (Sql::Delete { table: "object_store_index"@, terms: own }).statement();
    let some = delete_index_statements(store_id, name, Some(index));
    let none = delete_index_statements(store_id, name, None);
    assert(none[0].sql =~= declaration.sql);
    assert(some[1].sql =~= declaration.sql);
    assert(some[0].sql =~= "DELETE FROM "@ + index_table_name(index.unique_index) + terms_text(
        of_index,
    ));
}

/// The step runs this one statement.
pub open spec fn runs_one(step: JobStep, statement: StatementView) -> bool {
    step matches JobStep::Execute(run) && run@.len() == 1 && run@[0]@ == statement
}

/// Renaming a store or an index renames that one, and no other of its name.
pub proof fn renames_are_of_one(work: Work, job: Option<Job>, step: JobStep)
    requires
        starts(work, job, step),
    ensures
        work matches Work::RenameStore { store, new_name } ==> runs_one(
            step,
            (Sql::Update {
                table: "object_store"@,
                cells: seq![Cell { column: "name"@, value: ValueView::Text(new_name@) }],
                terms: seq![equals("id"@, ValueView::Integer(store.id as int))],
            }).statement(),
        ),
        work matches Work::RenameIndex { store, index_name, new_name } ==> runs_one(
            step,
            (Sql::Update {
                table: "object_store_index"@,
                cells: seq![Cell { column: "name"@, value: ValueView::Text(new_name@) }],
                terms: seq![
                    equals("name"@, ValueView::Text(index_name@)),
                    equals("object_store_id"@, ValueView::Integer(store.id as int)),
                ],
            }).statement(),
        ),
{
    reveal_strlit("");
    reveal_strlit("UPDATE ");
    reveal_strlit("object_store");
    reveal_strlit("object_store_index");
    reveal_strlit(" SET ");
    reveal_strlit("name");
    reveal_strlit(" = ?");
    reveal_strlit(" WHERE ");
    reveal_strlit(" AND ");
    reveal_strlit("id");
    reveal_strlit("object_store_id");
    reveal_strlit(" ");
    reveal_strlit("=");
    reveal_strlit(" ?");
    reveal_strlit("UPDATE object_store SET name = ? WHERE id = ?");
    reveal_strlit("UPDATE object_store_index SET name = ? WHERE name = ? AND object_store_id = ?");
    reveal_with_fuel(columns_text, 2);
    match work {
        Work::RenameStore { store, new_name } => {
            let cells = seq![Cell { column: "name"@, value: ValueView::Text(new_name@) }];
            let terms = seq![equals("id"@, ValueView::Integer(store.id as int))];
            one_term(terms[0]);
            assert(cells.drop_last() =~= seq![]);
            let sql = Sql::Update { table: "object_store"@, cells, terms };
            let text = sql.statement().sql;
            assert(text =~= "UPDATE object_store SET name = ? WHERE id = ?"@);
            if let JobStep::Execute(run) = step {
                let views = statements_view(run@);
                assert(views.len() == 1);
                assert(run@[0]@ == views[0]);
                assert(views[0].values =~= sql.statement().values);
            }
        },
        Work::RenameIndex { store, index_name, new_name } => {
            let cells = seq![Cell { column: "name"@, value: ValueView::Text(new_name@) }];
            let terms = seq![
                equals("name"@, ValueView::Text(index_name@)),
                equals("object_store_id"@, ValueView::Integer(store.id as int)),
            ];
            one_term(terms[0]);
            assert(terms.drop_last() =~= seq![terms[0]]);
            assert(cells.drop_last() =~= seq![]);
            let sql = Sql::Update { table: "object_store_index"@, cells, terms };
            let text = sql.statement().sql;
            assert(text
                =~= "UPDATE object_store_index SET name = ? WHERE name = ? AND object_store_id = ?"@);
            if let JobStep::Execute(run) = step {
                let views = statements_view(run@);
                assert(views.len() == 1);
                assert(run@[0]@ == views[0]);
                assert(views[0].values =~= sql.statement().values);
            }
        },
        _ => {},
    }
}

/// What a read selects, column by column.
pub open spec fn selects_columns(clauses: Seq<SelectClause>, columns: Seq<Seq<char>>) -> bool {
    &&& clauses.len() > columns.len()
    &&& clauses[0] == SelectClause::From("object_data"@)
    &&& forall|c: int|
        0 <= c < columns.len() ==> clauses[c + 1] == SelectClause::Column(#[trigger] columns[c])
    &&& forall|c: int|
        columns.len() < c < clauses.len() ==> !((#[trigger] clauses[c]) is Column)
            && !(clauses[c] is CountOf)
}

/// The rows of a read hold what they are read as: an object its store, its key and its value; a
/// record its key and, where values are asked for, its value; a count counts keys. Records come in
/// ascending order of the key.
pub proof fn reads_select_what_they_answer(
    store_id: int,
    range: RangeView,
    count: Option<u32>,
    shape: RecordsShape,
)
    ensures
        selects_columns(
            get_clauses(store_id, range),
            seq!["object_store_id"@, "key"@, "data"@],
        ),
        selects_columns(
            records_clauses(store_id, range, count, shape),
            if shape == RecordsShape::KeysOnly {
                seq!["key"@]
            } else {
                seq!["key"@, "data"@]
            },
        ),
        count_clauses(store_id, range)[0] == SelectClause::From("object_data"@),
        count_clauses(store_id, range)[1] == SelectClause::CountOf("key"@),
        records_clauses(store_id, range, count, shape).contains(SelectClause::OrderBy("key"@)),
        get_clauses(store_id, range).last() == SelectClause::Limit(1),
        records_clauses(store_id, range, count, shape).last() is Limit <==> (count matches Some(
            limit,
        ) && limit > 0),
        count matches Some(limit) ==> (limit > 0 ==> records_clauses(
            store_id,
            range,
            count,
            shape,
        ).last() == SelectClause::Limit(limit as int)),
{
    let clauses = records_clauses(store_id, range, count, shape);
    let at: int = if shape == RecordsShape::KeysOnly {
        3
    } else {
        4
    };
    assert(clauses[at] == SelectClause::OrderBy("key"@));
}

/// Records are read in the shape that is asked for, and an index is asked for by its store and name.
pub proof fn reads_are_shaped_as_asked(
    step: JobStep,
    index: IndexModel,
    store_id: i32,
    range: RangeView,
    count: Option<u32>,
    shape: RecordsShape,
    name: Seq<char>,
)
    ensures
        reads_store(step, store_id, range, count, shape) ==> (step matches JobStep::ReadRecords(
            ReadQuery::Built(_),
            own,
        ) && own == shape),
        reads_index(step, index, store_id, range, count, shape) ==> (
        step matches JobStep::ReadRecords(ReadQuery::Plain(_), own) && own == shape),
        reads_object(step, store_id, range) ==> step is ReadObject,
        asks_index(step, store_id, name) ==> (step matches JobStep::Ask(question)
            && question@ matches QuestionView::Index { store_id: own, name: own_name } && own
            == store_id && own_name == name),
{
}

/// A `put` asks until it writes, and a backfill asks and writes one record at a time until it
/// answers; neither does anything else.
pub proof fn writers_ask_before_they_write(
    put: PutItem,
    backfill: Backfill,
    job: Option<Job>,
    step: JobStep,
)
    ensures
        puts(put, job, step) ==> match step {
            JobStep::Ask(_) => job == Some(Job::Put(put)),
            JobStep::Run(_) => job is Some && job->0 is PutWriting,
            _ => false,
        },
        backfills(backfill, job, step) ==> match step {
            JobStep::Ask(_) => job == Some(Job::Backfill(backfill)),
            JobStep::Run(commands) => job == Some(Job::Backfill(backfill)) && commands@.len() == 1,
            JobStep::Reply(Reply::Backfill(Ok(_))) => job is None,
            _ => false,
        },
{
}

/// A request that is refused is refused on its own channel, with the text of the error.
pub proof fn refusals_go_to_their_request(
    answer: (u64, Reply),
    channel: u64,
    text: Seq<char>,
    other: Seq<char>,
)
    requires
        refuses(answer, channel, text),
    ensures
        answer.0 == channel,
        answer.1 matches Reply::Refused(BackendError::DbErr(own)) && own@ == text,
        refuses(answer, channel, other) ==> other == text,
{
}

/// A backfill of an index that is gone does nothing. Otherwise it ends once every key is written, and
/// not before; into a unique index it writes a key only after it asked who holds that key.
pub proof fn backfills_write_every_key(backfill: Backfill, step: BackfillStep)
    requires
        backfill.wf(),
        backfill.leads_to(step),
    ensures
        step is Finish ==> (backfill.index matches Some(index) && (index is None
            || backfill.written == backfill.pairs@.len())),
        backfill.index matches Some(Some(index)) ==> (backfill.written < backfill.pairs@.len()
            ==> match step {
            BackfillStep::Run(command) => (index.unique_index ==> backfill.free) && command@
                == pair_write(
                backfill.store_id as int,
                IndexRow { id: index.id as int, unique: index.unique_index },
                (
                    backfill.pairs@[backfill.written as int].primary_key@,
                    backfill.pairs@[backfill.written as int].value@,
                ),
            ),
            BackfillStep::Ask(question) => index.unique_index && !backfill.free && question@ == (
            QuestionView::Holder {
                index_id: index.id as int,
                value: backfill.pairs@[backfill.written as int].value@,
            }),
            _ => false,
        }),
{
}

/// A key that another object holds ends a backfill; one that nobody holds, or that the object itself
/// holds, is free, and learning so changes nothing else.
pub proof fn held_keys_end_a_backfill(
    backfill: Backfill,
    held: Option<IndexedDBKeyType>,
    answer: Answer,
    after: Backfill,
)
    requires
        backfill.wf(),
        answer matches Answer::Holder(own) && (own is Some <==> held is Some) && (
        held is Some ==> own->0@ == held->0@),
    ensures
        backfill.collides(answer) <==> backfill.awaits_holder() && (held matches Some(key) && key@
            != backfill.pairs@[backfill.written as int].primary_key@),
        backfill.learns(answer, after) && backfill.awaits_holder() ==> after.free && after.index
            == backfill.index && after.written == backfill.written && after.pairs@
            == backfill.pairs@ && after.store_id == backfill.store_id,
        backfill.learns(answer, after) && !backfill.awaits_holder() ==> after == backfill,
{
}

} // verus!
