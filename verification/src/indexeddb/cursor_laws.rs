//! Where an iteration takes a cursor.

use vstd::prelude::*;

use crate::error::{plain, Error, ErrorKind};
use crate::indexeddb::cursor::{
    answers_key, first_of_key, next_visits_the_following_record, order_excludes,
    prev_visits_the_preceding_record, records_of, search_at, starts, CursorView, IDBCursor,
    IDBCursorDirection, Iteration, IterationParam, KeyAnswer, ObjectStoreOrIndex, Search, SourceStatus,
};
use crate::indexeddb::get_all::{first_of_runs, projected, unique_keeps_the_lowest};
use crate::indexeddb::key::{
    key_le, key_lt, key_lt_asymmetric, key_lt_irreflexive, key_lt_transitive, key_order_total,
    IndexedDBKeyType,
};
use crate::indexeddb::operation::KvsOperationTarget;
use crate::indexeddb::record::{in_record_order, record_lt, RecordView};
use crate::indexeddb::transaction::{IDBTransactionMode, TransactionStatus};

verus! {

/// The direction goes up through the keys.
pub open spec fn goes_up(direction: IDBCursorDirection) -> bool {
    direction == IDBCursorDirection::Next || direction == IDBCursorDirection::Nextunique
}

/// The direction stops once at every key.
pub open spec fn stops_once(direction: IDBCursorDirection) -> bool {
    direction == IDBCursorDirection::Nextunique || direction == IDBCursorDirection::Prevunique
}

/// A cursor that moves on from `from` comes to `to`.
pub open spec fn ahead(direction: IDBCursorDirection, from: Seq<u8>, to: Seq<u8>) -> bool {
    if goes_up(direction) {
        key_lt(from, to)
    } else {
        key_lt(to, from)
    }
}

/// A cursor is at `to`, or comes to it.
pub open spec fn not_behind(direction: IDBCursorDirection, from: Seq<u8>, to: Seq<u8>) -> bool {
    from == to || ahead(direction, from, to)
}

/// The record lies ahead of the cursor, in its range, and no nearer than what was asked for.
pub open spec fn lies_ahead(search: Search, record: RecordView) -> bool {
    let direction = search.direction;
    &&& search.range.covers(record.key)
    &&& search.key matches Some(key) ==> not_behind(direction, key, record.key)
    &&& search.key matches Some(key) ==> (search.primary_key matches Some(primary_key) ==> ahead(
        direction,
        key,
        record.key,
    ) || not_behind(direction, primary_key, record.primary_key))
    &&& search.position matches Some(position) ==> {
        ||| ahead(direction, position, record.key)
        ||| {
            &&& search.source == ObjectStoreOrIndex::Index
            &&& !stops_once(direction)
            &&& record.key == position
            &&& search.object_store_position matches Some(own) && ahead(
                direction,
                own,
                record.primary_key,
            )
        }
    }
}

/// What an iteration may ask for: a primary key goes with a key, and not with a direction that stops
/// once at every key.
pub open spec fn asks_soundly(search: Search) -> bool {
    search.primary_key is Some ==> search.key is Some && !stops_once(search.direction)
}

/// The record that a search finds lies ahead of the cursor and has reached what was asked for; no
/// record that does so too is nearer, and one of the same key is none that comes sooner.
pub proof fn searches_find_the_nearest(search: Search, records: Seq<RecordView>, i: int, j: int)
    requires
        records_of(search.source, records),
        asks_soundly(search),
        search.finds(records, i),
        0 <= j < records.len(),
        lies_ahead(search, records[j]),
    ensures
        lies_ahead(search, records[i]),
        not_behind(search.direction, records[i].key, records[j].key),
        search.direction != IDBCursorDirection::Prev ==> records[i].key == records[j].key ==> i
            <= j,
        search.direction == IDBCursorDirection::Prev ==> records[i].key == records[j].key ==> j
            <= i,
{
    assert(search.selects(records[j]));
    if search.direction == IDBCursorDirection::Prevunique {
        let t = choose|t: int| #[trigger]
            search.last(records, t) && first_of_key(records, records[t].key, i);
        assert(j <= t);
        if j < t {
            assert(record_lt(records[j], records[t]));
        }
        if records[i].key == records[j].key && j < i {
            assert(records[j].key != records[t].key);
        }
    } else if goes_up(search.direction) {
        assert(i <= j);
        if i < j {
            assert(record_lt(records[i], records[j]));
        }
    } else {
        assert(j <= i);
        if j < i {
            assert(record_lt(records[j], records[i]));
        }
    }
}

/// The record that a search for a key finds is at that key or beyond it, in the cursor's direction.
pub proof fn searches_reach_the_key(
    search: Search,
    records: Seq<RecordView>,
    i: int,
    key: Seq<u8>,
)
    requires
        search.finds(records, i),
        search.key == Some(key),
    ensures
        goes_up(search.direction) ==> key_le(key, records[i].key),
        !goes_up(search.direction) ==> key_le(records[i].key, key),
        !stops_once(search.direction) ==> (search.primary_key matches Some(primary_key) ==> {
            ||| ahead(search.direction, key, records[i].key)
            ||| not_behind(search.direction, primary_key, records[i].primary_key)
        }),
{
}

/// A search finds nothing only where no record lies ahead.
pub proof fn searches_miss_nothing(search: Search, records: Seq<RecordView>, j: int)
    requires
        asks_soundly(search),
        0 <= j < records.len(),
        lies_ahead(search, records[j]),
    ensures
        !search.misses(records),
{
    assert(search.selects(records[j]));
}

/// A cursor on a record stands there: its key is the record's, and its effective key is the key that
/// the record is stored under. A value handed out for another key is not handed out again.
pub proof fn cursors_stand_on_their_record(cursor: CursorView, record: RecordView)
    requires
        cursor.source == ObjectStoreOrIndex::ObjectStore ==> record.key == record.primary_key,
    ensures
        ({
            let moved = cursor.moved_to(record);
            &&& moved.key == Some(record.key)
            &&& moved.position == Some(record.key)
            &&& moved.effective_key() == Some(record.primary_key)
            &&& moved.range == cursor.range
            &&& moved.direction == cursor.direction
            &&& moved.source == cursor.source
            &&& moved.request == cursor.request
            &&& moved.key_only == cursor.key_only
            &&& cursor.key != Some(record.key) ==> moved.cached_key is None
            &&& cursor.effective_key() != Some(record.primary_key) ==> moved.cached_primary_key is None
        }),
{
}

/// A cursor that has run out has no key and no value, and on an index no effective key.
pub proof fn exhausted_cursors_hold_nothing(cursor: CursorView)
    ensures
        ({
            let after = cursor.exhausted();
            &&& after.key is None
            &&& !cursor.key_only ==> after.value is None
            &&& after.position == cursor.position
            &&& cursor.source == ObjectStoreOrIndex::Index ==> after.effective_key() is None
            &&& after.request == cursor.request
            &&& cursor.key is Some ==> after.cached_key is None
        }),
{
}

/// `continue` takes exactly the keys that lie ahead of the cursor.
pub proof fn continue_takes_keys_ahead(cursor: CursorView, key: Seq<u8>, position: Seq<u8>)
    requires
        cursor.position == Some(position),
    ensures
        !cursor.refuses_key(key) <==> ahead(cursor.direction, position, key),
{
    key_order_total(key, position);
    key_lt_irreflexive(position);
    if key_lt(key, position) {
        key_lt_asymmetric(key, position);
    }
    if key_lt(position, key) {
        key_lt_asymmetric(position, key);
    }
}

/// `continuePrimaryKey` takes exactly what lies ahead of the record that the cursor stands on.
pub proof fn continue_primary_key_takes_keys_ahead(
    cursor: CursorView,
    key: Seq<u8>,
    primary_key: Seq<u8>,
    position: Seq<u8>,
    own: Seq<u8>,
)
    requires
        cursor.position == Some(position),
        cursor.object_store_position == Some(own),
        !stops_once(cursor.direction),
    ensures
        !cursor.refuses_primary_key(key, primary_key) <==> {
            ||| ahead(cursor.direction, position, key)
            ||| key == position && ahead(cursor.direction, own, primary_key)
        },
{
    key_order_total(key, position);
    key_order_total(primary_key, own);
    key_lt_irreflexive(position);
    key_lt_irreflexive(own);
    if key_lt(key, position) {
        key_lt_asymmetric(key, position);
    }
    if key_lt(position, key) {
        key_lt_asymmetric(position, key);
    }
    if key_lt(primary_key, own) {
        key_lt_asymmetric(primary_key, own);
    }
    if key_lt(own, primary_key) {
        key_lt_asymmetric(own, primary_key);
    }
}

/// A cursor can be iterated only while its transaction takes requests, what it iterates over is
/// there, and no iteration is under way; through it can be written only where, besides, the
/// transaction may write and the cursor has values. `continuePrimaryKey` is for an index and a
/// direction that stops at every record.
pub proof fn cursors_work_only_where_they_may(
    cursor: CursorView,
    transaction: TransactionStatus,
    status: SourceStatus,
)
    ensures
        cursor.iteration_refusal(transaction, status) is None <==> {
            &&& transaction.active && transaction.usable
            &&& status.store_exists
            &&& cursor.source == ObjectStoreOrIndex::Index ==> status.index_exists
            &&& cursor.got_value
        },
        cursor.write_refusal(transaction, status) is None <==> {
            &&& cursor.iteration_refusal(transaction, status) is None
            &&& transaction.mode != IDBTransactionMode::Readonly
            &&& !cursor.key_only
        },
        cursor.primary_key_refusal(transaction, status) is None <==> {
            &&& cursor.iteration_refusal(transaction, status) is None
            &&& cursor.source == ObjectStoreOrIndex::Index
            &&& !stops_once(cursor.direction)
        },
        !(transaction.active && transaction.usable) ==> {
            let refusal = Some(plain(ErrorKind::TransactionInactive));
            &&& cursor.iteration_refusal(transaction, status) == refusal
            &&& cursor.write_refusal(transaction, status) == refusal
            &&& cursor.primary_key_refusal(transaction, status) == refusal
        },
{
}

/// The cursor, iterated again and again, comes to these records one after the other, and then to
/// none.
pub open spec fn visits(search: Search, records: Seq<RecordView>, visited: Seq<RecordView>) -> bool {
    &&& visited.len() == 0 ==> search.misses(records)
    &&& visited.len() > 0 ==> comes_to(search, records, visited[0])
    &&& forall|n: int|
        0 <= n < visited.len() - 1 ==> comes_to(
            search.at(#[trigger] visited[n]),
            records,
            visited[n + 1],
        )
    &&& visited.len() > 0 ==> search.at(visited.last()).misses(records)
}

/// The search finds the record.
pub open spec fn comes_to(search: Search, records: Seq<RecordView>, record: RecordView) -> bool {
    exists|i: int| #[trigger] search.finds(records, i) && records[i] == record
}

/// The search is the first of a cursor over these records, which all lie in its range.
pub open spec fn starts_over(search: Search, records: Seq<RecordView>) -> bool {
    &&& records_of(search.source, records)
    &&& search.key is None
    &&& search.primary_key is None
    &&& search.position is None
    &&& forall|i: int| 0 <= i < records.len() ==> search.range.covers((#[trigger] records[i]).key)
}

/// `getAll` in a direction answers with the records that a cursor in that direction visits, in the
/// order in which it visits them.
pub proof fn get_all_answers_what_a_cursor_visits(search: Search, records: Seq<RecordView>)
    requires
        starts_over(search, records),
    ensures
        visits(search, records, projected(search.direction, None, records)),
{
    match search.direction {
        IDBCursorDirection::Next => next_visits_all(search, records),
        IDBCursorDirection::Prev => prev_visits_all(search, records),
        IDBCursorDirection::Nextunique => nextunique_visits_runs(search, records),
        IDBCursorDirection::Prevunique => prevunique_visits_runs(search, records),
    }
}

/// A count keeps the records that come first, and no more than it says.
pub proof fn counts_keep_the_first(
    direction: IDBCursorDirection,
    count: u32,
    records: Seq<RecordView>,
)
    ensures
        ({
            let all = projected(direction, None, records);
            let some = projected(direction, Some(count), records);
            &&& some.len() <= count
            &&& some.len() == all.len() || some.len() == count
            &&& some.len() <= all.len()
            &&& forall|i: int| 0 <= i < some.len() ==> #[trigger] some[i] == all[i]
        }),
{
}

proof fn next_visits_all(search: Search, records: Seq<RecordView>)
    requires
        starts_over(search, records),
        search.direction == IDBCursorDirection::Next,
    ensures
        visits(search, records, records),
{
    if records.len() > 0 {
        assert(search.finds(records, 0));
        assert forall|n: int| 0 <= n < records.len() - 1 implies comes_to(
            search.at(#[trigger] records[n]),
            records,
            records[n + 1],
        ) by {
            next_visits_the_following_record(search, records, n);
            assert(search.at(records[n]).finds(records, n + 1));
        }
        let last = records.last();
        let from = search.at(last);
        assert forall|j: int| 0 <= j < records.len() implies !from.selects(#[trigger] records[j]) by {
            if j < records.len() - 1 {
                assert(record_lt(records[j], records[records.len() - 1]));
            }
            order_excludes(records[j], last);
        }
    }
}

proof fn prev_visits_all(search: Search, records: Seq<RecordView>)
    requires
        starts_over(search, records),
        search.direction == IDBCursorDirection::Prev,
    ensures
        visits(search, records, records.reverse()),
{
    let turned = records.reverse();
    let len = records.len() as int;
    if len > 0 {
        assert(search.finds(records, len - 1));
        assert(turned[0] == records[len - 1]);
        assert forall|n: int| 0 <= n < turned.len() - 1 implies comes_to(
            search.at(#[trigger] turned[n]),
            records,
            turned[n + 1],
        ) by {
            prev_visits_the_preceding_record(search, records, len - 1 - n);
            assert(search.at(records[len - 1 - n]).finds(records, len - 2 - n));
        }
        let first = records[0];
        assert(turned.last() == first);
        let from = search.at(first);
        assert forall|j: int| 0 <= j < records.len() implies !from.selects(#[trigger] records[j]) by {
            if j > 0 {
                assert(record_lt(records[0], records[j]));
            }
            order_excludes(first, records[j]);
        }
    }
}

/// The first of each run is a record, and the first of its key.
proof fn runs_are_records(records: Seq<RecordView>, n: int) -> (k: int)
    requires
        in_record_order(records),
        0 <= n < first_of_runs(records).len(),
    ensures
        0 <= k < records.len(),
        records[k] == first_of_runs(records)[n],
        first_of_key(records, records[k].key, k),
{
    let runs = first_of_runs(records);
    let k = run_place(records, n);
    unique_keeps_the_lowest(records);
    assert forall|j: int| 0 <= j < k implies (#[trigger] records[j]).key != records[k].key by {
        if records[j].key == records[k].key {
            let i = choose|i: int|
                0 <= i < runs.len() && (#[trigger] runs[i]).key == records[j].key && (runs[i]
                    == records[j] || record_lt(runs[i], records[j]));
            key_lt_irreflexive(records[k].key);
            assert(i == n) by {
                if i < n {
                    assert(key_lt(runs[i].key, runs[n].key));
                } else if n < i {
                    assert(key_lt(runs[n].key, runs[i].key));
                }
            }
            assert(record_lt(records[j], records[k]));
            key_lt_irreflexive(records[k].primary_key);
            if runs[n] != records[j] {
                key_lt_transitive(
                    records[k].primary_key,
                    records[j].primary_key,
                    records[k].primary_key,
                );
            }
        }
    }
    k
}

proof fn run_place(records: Seq<RecordView>, n: int) -> (k: int)
    requires
        0 <= n < first_of_runs(records).len(),
    ensures
        0 <= k < records.len(),
        records[k] == first_of_runs(records)[n],
    decreases records.len(),
{
    let before = first_of_runs(records.drop_last());
    if n < before.len() {
        let k = run_place(records.drop_last(), n);
        assert(records.drop_last()[k] == records[k]);
        k
    } else {
        records.len() - 1
    }
}

/// A record has the key of one of the runs.
proof fn run_of(records: Seq<RecordView>, j: int) -> (m: int)
    requires
        in_record_order(records),
        0 <= j < records.len(),
    ensures
        0 <= m < first_of_runs(records).len(),
        first_of_runs(records)[m].key == records[j].key,
{
    unique_keeps_the_lowest(records);
    let runs = first_of_runs(records);
    choose|m: int|
        0 <= m < runs.len() && (#[trigger] runs[m]).key == records[j].key && (runs[m] == records[j]
            || record_lt(runs[m], records[j]))
}

/// The keys of the runs ascend.
proof fn runs_ascend(records: Seq<RecordView>, m: int, n: int)
    requires
        in_record_order(records),
        0 <= m < first_of_runs(records).len(),
        0 <= n < first_of_runs(records).len(),
    ensures
        key_lt(first_of_runs(records)[m].key, first_of_runs(records)[n].key) <==> m < n,
        first_of_runs(records)[m].key == first_of_runs(records)[n].key <==> m == n,
{
    unique_keeps_the_lowest(records);
    let runs = first_of_runs(records);
    key_lt_irreflexive(runs[m].key);
    if m < n {
        assert(key_lt(runs[m].key, runs[n].key));
    } else if n < m {
        assert(key_lt(runs[n].key, runs[m].key));
        key_lt_asymmetric(runs[n].key, runs[m].key);
    }
}

/// Keys never descend.
proof fn keys_ascend(records: Seq<RecordView>, i: int, j: int)
    requires
        in_record_order(records),
        0 <= i <= j < records.len(),
    ensures
        key_le(records[i].key, records[j].key),
        !key_lt(records[j].key, records[i].key),
{
    key_lt_irreflexive(records[i].key);
    if i < j {
        assert(record_lt(records[i], records[j]));
        if key_lt(records[i].key, records[j].key) {
            key_lt_asymmetric(records[i].key, records[j].key);
        }
    }
}

proof fn nextunique_visits_runs(search: Search, records: Seq<RecordView>)
    requires
        starts_over(search, records),
        search.direction == IDBCursorDirection::Nextunique,
    ensures
        visits(search, records, first_of_runs(records)),
{
    let runs = first_of_runs(records);
    unique_keeps_the_lowest(records);
    if runs.len() > 0 {
        let k = runs_are_records(records, 0);
        if k > 0 {
            let m = run_of(records, 0);
            keys_ascend(records, 0, k);
            runs_ascend(records, m, 0);
            runs_ascend(records, 0, m);
        }
        assert(search.finds(records, k));
        assert forall|n: int| 0 <= n < runs.len() - 1 implies comes_to(
            search.at(#[trigger] runs[n]),
            records,
            runs[n + 1],
        ) by {
            let from = search.at(runs[n]);
            let k = runs_are_records(records, n + 1);
            runs_ascend(records, n, n + 1);
            assert(from.selects(records[k]));
            assert forall|j: int| 0 <= j < k implies !from.selects(#[trigger] records[j]) by {
                let m = run_of(records, j);
                keys_ascend(records, j, k);
                runs_ascend(records, m, n + 1);
                runs_ascend(records, n, m);
            }
            assert(from.finds(records, k));
        }
        let last = runs.len() - 1;
        let from = search.at(runs[last]);
        assert forall|j: int| 0 <= j < records.len() implies !from.selects(#[trigger] records[j]) by {
            let m = run_of(records, j);
            runs_ascend(records, last, m);
        }
    }
}

proof fn prevunique_visits_runs(search: Search, records: Seq<RecordView>)
    requires
        starts_over(search, records),
        search.direction == IDBCursorDirection::Prevunique,
    ensures
        visits(search, records, first_of_runs(records).reverse()),
{
    let runs = first_of_runs(records);
    let turned = runs.reverse();
    let len = runs.len() as int;
    unique_keeps_the_lowest(records);
    if len > 0 {
        let k = runs_are_records(records, len - 1);
        let t = records.len() - 1;
        assert(search.last(records, t));
        assert(records[t].key == runs[len - 1].key);
        assert(search.finds(records, k));
        assert(turned[0] == runs[len - 1]);
        assert forall|n: int| 0 <= n < turned.len() - 1 implies comes_to(
            search.at(#[trigger] turned[n]),
            records,
            turned[n + 1],
        ) by {
            let at = len - 1 - n;
            assert(turned[n] == runs[at] && turned[n + 1] == runs[at - 1]);
            let from = search.at(runs[at]);
            let k = runs_are_records(records, at);
            let before = runs_are_records(records, at - 1);
            runs_ascend(records, at - 1, at);
            if k <= before {
                keys_ascend(records, k, before);
            }
            let t = k - 1;
            let m = run_of(records, t);
            keys_ascend(records, t, k);
            runs_ascend(records, m, at);
            keys_ascend(records, before, t);
            runs_ascend(records, m, at - 1);
            assert(m == at - 1);
            assert(from.selects(records[t]));
            assert forall|j: int| t < j < records.len() implies !from.selects(
                #[trigger] records[j],
            ) by {
                keys_ascend(records, k, j);
            }
            assert(from.last(records, t));
            assert(from.finds(records, before));
        }
        assert(turned.last() == runs[0]);
        let from = search.at(runs[0]);
        assert forall|j: int| 0 <= j < records.len() implies !from.selects(#[trigger] records[j]) by {
            let m = run_of(records, j);
            runs_ascend(records, m, 0);
        }
    } else {
        if records.len() > 0 {
            let m = run_of(records, 0);
        }
    }
}

/// An iteration looks for records in the cursor's own range and direction, from the given place on
/// and no nearer than what it was asked for, and for every such record.
pub proof fn iterations_search_from_the_cursor(
    cursor: IDBCursor,
    param: IterationParam,
    position: Option<IndexedDBKeyType>,
    object_store_position: Option<IndexedDBKeyType>,
    record: RecordView,
)
    requires
        param.primary_key is Some ==> param.key is Some && !stops_once(cursor@.direction),
    ensures
        ({
            let direction = cursor@.direction;
            let search = search_at(cursor, param, position, object_store_position);
            let beyond = position matches Some(position) ==> ahead(direction, position@, record.key);
            let within = position matches Some(position) && cursor@.source
                == ObjectStoreOrIndex::Index && !stops_once(direction) && record.key == position@ && (
            object_store_position matches Some(own) && ahead(direction, own@, record.primary_key));
            let reached = param.key matches Some(key) ==> not_behind(direction, key@, record.key)
                && (param.primary_key matches Some(primary_key) ==> ahead(
                direction,
                key@,
                record.key,
            ) || not_behind(direction, primary_key@, record.primary_key));
            search.selects(record) <==> cursor@.range.covers(record.key) && reached && (beyond
                || within)
        }),
{
    let search = search_at(cursor, param, position, object_store_position);
    assert(lies_ahead(search, record) <==> search.selects(record));
}

/// A key that was handed out before is handed out again; otherwise it is the one that the cursor
/// stands on that is converted.
pub proof fn keys_are_converted_once(
    answer: KeyAnswer,
    cached: Option<u64>,
    key: Option<Seq<u8>>,
    value: u64,
    held: Option<IndexedDBKeyType>,
)
    requires
        answers_key(answer, cached, key),
    ensures
        answer == KeyAnswer::Cached(value) <==> cached == Some(value),
        answer == KeyAnswer::Convert(held) ==> cached is None && (held is Some <==> key is Some) && (
        held matches Some(held) ==> key == Some(held@)),
        cached is None ==> answer is Convert,
{
}

/// An iteration reads the cursor's whole range from its own source again, in the name of its one
/// request, and takes along what it was asked for; the cursor has no value until it is answered.
pub proof fn iterations_read_the_cursors_source(
    result: Result<Iteration, Error>,
    before: CursorView,
    after: CursorView,
    index_name: Seq<char>,
    key: Option<Seq<u8>>,
    primary_key: Option<Seq<u8>>,
    count: Option<u32>,
)
    requires
        starts(result, before, after, index_name, key, primary_key, count),
    ensures
        result is Ok <==> before.request is Some,
        result matches Err(error) ==> error@.kind == ErrorKind::InvalidState,
        !after.got_value,
        after.position == before.position,
        after.object_store_position == before.object_store_position,
        after.key == before.key,
        after.range == before.range,
        after.direction == before.direction,
        result matches Ok(iteration) ==> {
            &&& before.request == Some(iteration.request)
            &&& iteration.key_range@ == before.range
            &&& iteration.param.key is Some <==> key is Some
            &&& iteration.param.key matches Some(own) ==> key == Some(own@)
            &&& iteration.param.primary_key is Some <==> primary_key is Some
            &&& iteration.param.primary_key matches Some(own) ==> primary_key == Some(own@)
            &&& iteration.param.count == count
            &&& iteration.context.target is ObjectStore <==> before.source
                == ObjectStoreOrIndex::ObjectStore
            &&& iteration.context.target matches KvsOperationTarget::Index { name } ==> name@
                == index_name
            &&& iteration.context.index_updates@.len() == 0
        },
{
}

} // verus!
