//! The requests that read many records: `getAll`, `getAllKeys` and `getAllRecords`.

use vstd::prelude::*;

use crate::indexeddb::cursor::IDBCursorDirection;
use crate::indexeddb::key::{
    key_lt, key_lt_irreflexive, key_lt_transitive, IndexedDBKeyRange, IndexedDBKeyType,
};
use crate::indexeddb::record::{
    in_record_order, record_lt, records_view, IndexedDBRecord, RecordView, RecordsShape,
};

verus! {

/// Which projection of each record a request answers with.
#[derive(Clone, Copy, Debug, PartialEq, Eq, Structural)]
pub enum GetAllKind {
    /// `getAll`: the stored value of each record.
    Values,
    /// `getAllKeys`: the object store key of each record.
    PrimaryKeys,
    /// `getAllRecords`: the record itself.
    Records,
}

impl GetAllKind {
    /// Which columns the read asks for: `getAllKeys` never reads a stored value.
    pub fn shape(self) -> (shape: RecordsShape)
        ensures
            shape == if self == GetAllKind::PrimaryKeys {
                RecordsShape::KeysOnly
            } else {
                RecordsShape::WithValues
            },
    {
        match self {
            GetAllKind::PrimaryKeys => RecordsShape::KeysOnly,
            GetAllKind::Values | GetAllKind::Records => RecordsShape::WithValues,
        }
    }
}

/// A resolved request: what the engine reads, and what is made of its answer.
#[derive(Debug)]
pub struct GetAllRequest {
    pub key_range: IndexedDBKeyRange,
    /// The count that the engine may apply during the read.
    pub count: Option<u32>,
    pub kind: GetAllKind,
    pub direction: IDBCursorDirection,
    /// The count that is applied to the answer.
    pub answer_count: Option<u32>,
}

/// A count as a limit: zero sets none.
pub open spec fn limit_of(count: Option<u32>) -> Option<u32> {
    match count {
        Some(count) if count > 0 => Some(count),
        _ => None,
    }
}

impl GetAllRequest {
    /// Splits a request into what the engine may apply during the read and what is applied after
    /// it. Of the counts that limit, only that of "next" can be pushed down: the engine answers in
    /// ascending order and drops no duplicates.
    pub fn new(
        kind: GetAllKind,
        key_range: IndexedDBKeyRange,
        direction: IDBCursorDirection,
        count: Option<u32>,
    ) -> (request: Self)
        ensures
            request.key_range == key_range,
            request.kind == kind,
            request.direction == direction,
            request.answer_count == limit_of(count),
            request.count == if direction == IDBCursorDirection::Next {
                limit_of(count)
            } else {
                None
            },
    {
        let limit = match count {
            Some(count) => if count > 0 {
                Some(count)
            } else {
                None
            },
            None => None,
        };
        GetAllRequest {
            key_range,
            count: match direction {
                IDBCursorDirection::Next => limit,
                _ => None,
            },
            kind,
            direction,
            answer_count: limit,
        }
    }
}

/// The first record of every run of records with equal keys.
pub open spec fn first_of_runs(records: Seq<RecordView>) -> Seq<RecordView>
    decreases records.len(),
{
    if records.len() == 0 {
        seq![]
    } else {
        let before = first_of_runs(records.drop_last());
        if records.len() > 1 && records[records.len() - 2].key == records.last().key {
            before
        } else {
            before.push(records.last())
        }
    }
}

/// The direction skips records of a key that came already.
pub open spec fn is_unique(direction: IDBCursorDirection) -> bool {
    direction == IDBCursorDirection::Nextunique || direction == IDBCursorDirection::Prevunique
}

/// The direction goes down.
pub open spec fn is_downward(direction: IDBCursorDirection) -> bool {
    direction == IDBCursorDirection::Prev || direction == IDBCursorDirection::Prevunique
}

/// The records in the direction's order, without what a unique direction skips.
pub open spec fn directed(direction: IDBCursorDirection, records: Seq<RecordView>) -> Seq<RecordView> {
    let kept = if is_unique(direction) {
        first_of_runs(records)
    } else {
        records
    };
    if is_downward(direction) {
        kept.reverse()
    } else {
        kept
    }
}

/// The records that a request answers with: in the direction's order, no more than `count`.
pub open spec fn projected(
    direction: IDBCursorDirection,
    count: Option<u32>,
    records: Seq<RecordView>,
) -> Seq<RecordView> {
    let kept = directed(direction, records);
    match count {
        Some(count) if count < kept.len() => kept.take(count as int),
        _ => kept,
    }
}

/// Drops every record whose key the record before it has.
fn keep_first_of_runs(records: Vec<IndexedDBRecord>) -> (kept: Vec<IndexedDBRecord>)
    ensures
        records_view(kept@) == first_of_runs(records_view(records@)),
{
    let ghost view = records_view(records@);
    let mut kept: Vec<IndexedDBRecord> = Vec::new();
    let mut previous: Option<IndexedDBKeyType> = None;
    assert(view.take(0) =~= seq![]);
    assert(records_view(kept@) =~= seq![]);
    for record in it: records
        invariant
            it.seq() == records@,
            view == records_view(records@),
            records_view(kept@) == first_of_runs(view.take(it.index() as int)),
            it.index() == 0 ==> previous is None,
            it.index() > 0 ==> (previous matches Some(key) && key@ == view[it.index() - 1].key),
    {
        let ghost i = it.index() as int;
        assert(view[i] == record@);
        assert(view.take(i + 1).drop_last() =~= view.take(i));
        assert(view.take(i + 1).last() == view[i]);
        let repeated = match &previous {
            Some(key) => key.same(&record.key),
            None => false,
        };
        previous = Some(record.key.clone());
        if !repeated {
            let ghost before = kept@;
            kept.push(record);
            assert(records_view(kept@) =~= records_view(before).push(view[i]));
        }
    }
    assert(view.take(view.len() as int) =~= view);
    kept
}

/// Turns the records round.
fn reversed(mut records: Vec<IndexedDBRecord>) -> (turned: Vec<IndexedDBRecord>)
    ensures
        records_view(turned@) == records_view(records@).reverse(),
{
    let ghost view = records_view(records@);
    let ghost all = records@;
    let mut turned: Vec<IndexedDBRecord> = Vec::new();
    while records.len() > 0
        invariant
            records.len() <= all.len(),
            records@ == all.take(records.len() as int),
            turned.len() == all.len() - records.len(),
            forall|j: int| 0 <= j < turned.len() ==> #[trigger] turned[j] == all[all.len() - 1 - j],
        decreases records.len(),
    {
        match records.pop() {
            Some(record) => turned.push(record),
            None => {},
        }
        assert(records@ =~= all.take(records.len() as int));
    }
    assert(records_view(turned@) =~= view.reverse());
    turned
}

/// Applies the direction and the count of a request to the records that the engine answered with.
/// The engine answers in ascending order for every direction, so what a unique direction keeps of
/// a key is the record with the lowest primary key, and that is chosen before the records are
/// turned round. The count comes last.
pub fn project_records(
    direction: IDBCursorDirection,
    count: Option<u32>,
    records: Vec<IndexedDBRecord>,
) -> (answer: Vec<IndexedDBRecord>)
    ensures
        records_view(answer@) == projected(direction, count, records_view(records@)),
{
    let ghost view = records_view(records@);
    let kept = match direction {
        IDBCursorDirection::Nextunique | IDBCursorDirection::Prevunique => keep_first_of_runs(
            records,
        ),
        _ => records,
    };
    let mut answer = match direction {
        IDBCursorDirection::Prev | IDBCursorDirection::Prevunique => reversed(kept),
        _ => kept,
    };
    let ghost before = records_view(answer@);
    assert(before == directed(direction, view));
    if let Some(count) = count {
        answer.truncate(count as usize);
        assert(count < before.len() ==> records_view(answer@) =~= before.take(count as int));
        assert(count >= before.len() ==> records_view(answer@) =~= before);
    }
    answer
}

/// A count that the engine applies during a "next" read changes nothing of the answer.
pub proof fn pushed_down_count_is_harmless(count: u32, records: Seq<RecordView>)
    requires
        count > 0,
    ensures
        ({
            let read = if count < records.len() {
                records.take(count as int)
            } else {
                records
            };
            projected(IDBCursorDirection::Next, Some(count), read) == projected(
                IDBCursorDirection::Next,
                Some(count),
                records,
            )
        }),
{
}

/// The first of the runs, over ordered records, are in ascending order of their keys, with no key
/// twice, and are the records with the lowest primary key of their keys: `records[j]` has the key
/// of one of them, which does not come after it.
pub proof fn unique_keeps_the_lowest(records: Seq<RecordView>)
    requires
        in_record_order(records),
    ensures
        forall|i: int, j: int|
            0 <= i < j < first_of_runs(records).len() ==> key_lt(
                (#[trigger] first_of_runs(records)[i]).key,
                (#[trigger] first_of_runs(records)[j]).key,
            ),
        forall|j: int|
            0 <= j < records.len() ==> exists|i: int|
                0 <= i < first_of_runs(records).len() && (
                #[trigger] first_of_runs(records)[i]).key == (#[trigger] records[j]).key && (
                first_of_runs(records)[i] == records[j] || record_lt(
                    first_of_runs(records)[i],
                    records[j],
                )),
        records.len() > 0 ==> first_of_runs(records).len() > 0 && first_of_runs(records).last().key
            == records.last().key,
    decreases records.len(),
{
    if records.len() > 0 {
        let rest = records.drop_last();
        let n = rest.len() as int;
        let before = first_of_runs(rest);
        let after = first_of_runs(records);
        assert forall|i: int, j: int| 0 <= i < j < rest.len() implies record_lt(
            #[trigger] rest[i],
            #[trigger] rest[j],
        ) by {
            assert(record_lt(records[i], records[j]));
        }
        unique_keeps_the_lowest(rest);
        if n > 0 {
            assert(record_lt(records[n - 1], records[n]));
            assert(rest.last() == records[n - 1]);
            assert(before.last().key == records[n - 1].key);
        }
        let repeats = n > 0 && records[n - 1].key == records[n].key;
        assert forall|i: int, j: int| 0 <= i < j < after.len() implies key_lt(
            (#[trigger] after[i]).key,
            (#[trigger] after[j]).key,
        ) by {
            assert(after[i] == before[i]);
            if j < before.len() {
                assert(after[j] == before[j]);
            } else {
                if i < before.len() - 1 {
                    assert(key_lt(before[i].key, before[before.len() - 1].key));
                    key_lt_transitive(before[i].key, before.last().key, records[n].key);
                }
            }
        }
        assert forall|j: int| 0 <= j < records.len() implies exists|i: int|
            0 <= i < after.len() && (#[trigger] after[i]).key == (#[trigger] records[j]).key && (
            after[i] == records[j] || record_lt(after[i], records[j])) by {
            if j < n {
                assert(rest[j] == records[j]);
                let i = choose|i: int|
                    0 <= i < before.len() && (#[trigger] before[i]).key == rest[j].key && (before[i]
                        == rest[j] || record_lt(before[i], rest[j]));
                assert(after[i] == before[i]);
            } else if repeats {
                let i = choose|i: int|
                    0 <= i < before.len() && (#[trigger] before[i]).key == rest[n - 1].key && (
                    before[i] == rest[n - 1] || record_lt(before[i], rest[n - 1]));
                assert(after[i] == before[i]);
                key_lt_irreflexive(records[n].key);
                if before[i] != rest[n - 1] {
                    key_lt_transitive(
                        before[i].primary_key,
                        records[n - 1].primary_key,
                        records[n].primary_key,
                    );
                }
            } else {
                assert(after[after.len() - 1] == records[n]);
            }
        }
    }
}

/// What "prevunique" answers with is what "nextunique" answers with, turned round.
pub proof fn prevunique_mirrors_nextunique(records: Seq<RecordView>)
    ensures
        projected(IDBCursorDirection::Prevunique, None, records) == projected(
            IDBCursorDirection::Nextunique,
            None,
            records,
        ).reverse(),
        projected(IDBCursorDirection::Prev, None, records) == projected(
            IDBCursorDirection::Next,
            None,
            records,
        ).reverse(),
{
}

} // verus!
