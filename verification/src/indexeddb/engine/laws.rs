//! What the engine's operations come to, stated over the tables.

use vstd::prelude::*;

use crate::indexeddb::engine::command::Write;
use crate::indexeddb::engine::put::{
    all_record_writes, drop_all_writes, drop_writes, put_writes, record_writes, replace_writes,
    row_of, rows_of, updates_view, Answer, PutItem, QuestionView, UpdateView,
};
use crate::indexeddb::engine::tables::{writes_compose, IndexRow, Schema, Tables};
use crate::indexeddb::key::RangeView;

verus! {

/// The indexes that the updates name, as the schema has them.
pub open spec fn schema_rows(
    schema: Schema,
    store_id: int,
    updates: Seq<UpdateView>,
) -> Seq<Option<IndexRow>> {
    Seq::new(updates.len(), |u: int| schema.get((store_id, updates[u].name)))
}

/// No unique index holds one of the record's keys for another object.
pub open spec fn conflict_free(
    tables: Tables,
    key: Seq<u8>,
    updates: Seq<UpdateView>,
    rows: Seq<Option<IndexRow>>,
) -> bool {
    forall|u: int, k: int|
        0 <= u < updates.len() && 0 <= k < updates[u].keys.len() && rows[u] is Some
            && rows[u]->0.unique ==> !tables.held_by_other(
            rows[u]->0,
            #[trigger] updates[u].keys[k],
            key,
        )
}

/// The answer is what the tables hold.
pub open spec fn true_answer(
    question: QuestionView,
    answer: Answer,
    tables: Tables,
    schema: Schema,
) -> bool {
    match (question, answer) {
        (QuestionView::Object { store_id, key }, Answer::Object(exists)) => exists
            == tables.objects.contains_key((store_id, key)),
        (QuestionView::Index { store_id, name }, Answer::Index(index)) => row_of(index)
            == schema.get((store_id, name)),
        (QuestionView::Holder { index_id, value }, Answer::Holder(holder)) => match holder {
            Some(held) => tables.unique_records.contains_key((index_id, value))
                && tables.unique_records[(index_id, value)].1 == held@,
            None => !tables.unique_records.contains_key((index_id, value)),
        },
        _ => false,
    }
}

/// What the `put` has learned is what the tables hold, and no key that was looked at is held for
/// another object.
pub open spec fn sound(put: PutItem, tables: Tables, schema: Schema) -> bool {
    let n = put.indexes.len() - 1;
    &&& put.wf()
    &&& put.exists matches Some(exists) ==> exists == tables.objects.contains_key(
        (put.store_id as int, put.key@),
    )
    &&& forall|u: int|
        0 <= u < put.indexes.len() ==> row_of(#[trigger] put.indexes[u]) == schema.get(
            (put.store_id as int, put.updates[u].index_name@),
        )
    &&& forall|u: int, k: int|
        0 <= u < put.indexes.len() && 0 <= k < put.updates[u].keys.len() && (u < n || k
            < put.checked) && put.indexes[u] is Some && put.indexes[u]->0.unique_index
            ==> !tables.held_by_other(
            row_of(put.indexes[u])->0,
            (#[trigger] put.updates[u].keys[k])@,
            put.key@,
        )
}

/// A `put` that is answered truly keeps knowing the truth.
pub proof fn true_answers_keep_put_sound(
    before: PutItem,
    answer: Answer,
    after: PutItem,
    tables: Tables,
    schema: Schema,
)
    requires
        sound(before, tables, schema),
        before.question() matches Some(question) && true_answer(question, answer, tables, schema),
        before.expects(answer),
        !before.collides(answer),
        before.learns(answer, after),
        after.wf(),
    ensures
        sound(after, tables, schema),
{
    let n = before.indexes.len() - 1;
    match answer {
        Answer::Object(_) => {},
        Answer::Index(index) => {
            assert forall|u: int| 0 <= u < after.indexes.len() implies row_of(
                #[trigger] after.indexes[u],
            ) == schema.get((after.store_id as int, after.updates[u].index_name@)) by {
                if u <= n {
                    assert(after.indexes@[u] == before.indexes@[u]);
                }
            }
            assert forall|u: int, k: int|
                0 <= u < after.indexes.len() && 0 <= k < after.updates[u].keys.len() && (u
                    < after.indexes.len() - 1 || k < after.checked) && after.indexes[u] is Some
                    && after.indexes[u]->0.unique_index implies !tables.held_by_other(
                row_of(after.indexes[u])->0,
                (#[trigger] after.updates[u].keys[k])@,
                after.key@,
            ) by {
                assert(after.indexes@[u] == before.indexes@[u]);
                assert(before.updates[u].keys[k] == after.updates[u].keys[k]);
            }
        },
        Answer::Holder(_) => {
            assert forall|u: int, k: int|
                0 <= u < after.indexes.len() && 0 <= k < after.updates[u].keys.len() && (u
                    < after.indexes.len() - 1 || k < after.checked) && after.indexes[u] is Some
                    && after.indexes[u]->0.unique_index implies !tables.held_by_other(
                row_of(after.indexes[u])->0,
                (#[trigger] after.updates[u].keys[k])@,
                after.key@,
            ) by {
                if !(u < n || k < before.checked) {
                    assert(u == n && k == before.checked);
                } else {
                    assert(before.updates[u].keys[k] == after.updates[u].keys[k]);
                }
            }
        },
    }
}

/// A `put` is refused for a unique index only where that index does hold a key of the record for
/// another object.
pub proof fn refusal_is_real(put: PutItem, answer: Answer, tables: Tables, schema: Schema)
    requires
        sound(put, tables, schema),
        put.question() matches Some(question) && true_answer(question, answer, tables, schema),
        put.expects(answer),
        put.collides(answer),
    ensures
        ({
            let n = put.indexes.len() - 1;
            &&& 0 <= n
            &&& schema.get((put.store_id as int, put.updates[n].index_name@)) matches Some(row)
                && row.unique && tables.held_by_other(
                row,
                put.updates[n].keys[put.checked as int]@,
                put.key@,
            )
        }),
{
    let n = put.indexes.len() - 1;
    assert(row_of(put.indexes[n]) == schema.get((put.store_id as int, put.updates[n].index_name@)));
}

/// A `put` that has asked everything writes with the indexes that the schema declares, and no
/// unique index holds one of its keys for another object.
pub proof fn complete_put_knows_all(put: PutItem, tables: Tables, schema: Schema)
    requires
        sound(put, tables, schema),
        put.question() is None,
    ensures
        put.exists == Some(tables.objects.contains_key((put.store_id as int, put.key@))),
        rows_of(put.indexes@) == schema_rows(
            schema,
            put.store_id as int,
            updates_view(put.updates@),
        ),
        conflict_free(tables, put.key@, updates_view(put.updates@), rows_of(put.indexes@)),
{
    let updates = updates_view(put.updates@);
    let rows = rows_of(put.indexes@);
    assert forall|u: int| 0 <= u < rows.len() implies #[trigger] rows[u] == schema_rows(
        schema,
        put.store_id as int,
        updates,
    )[u] by {
        assert(rows[u] == row_of(put.indexes[u]));
        assert(updates[u].name == put.updates[u].index_name@);
    }
    assert(rows =~= schema_rows(schema, put.store_id as int, updates));
    assert forall|u: int, k: int|
        0 <= u < updates.len() && 0 <= k < updates[u].keys.len() && rows[u] is Some
            && rows[u]->0.unique implies !tables.held_by_other(
        rows[u]->0,
        #[trigger] updates[u].keys[k],
        put.key@,
    ) by {
        assert(rows[u] == row_of(put.indexes[u]));
        assert(updates[u].keys[k] == put.updates[u].keys[k]@);
    }
}

/// One of the indexes of this kind takes the index record from the object.
pub open spec fn takes(
    updates: Seq<UpdateView>,
    rows: Seq<Option<IndexRow>>,
    unique: bool,
    index_id: int,
    value: Seq<u8>,
) -> bool
    decreases updates.len(),
{
    if updates.len() == 0 {
        false
    } else {
        let n = updates.len() - 1;
        takes(updates.drop_last(), rows, unique, index_id, value) || takes_one(
            updates[n].keys,
            rows[n],
            unique,
            index_id,
            value,
        )
    }
}

/// This index, of this kind, takes the index record from the object.
pub open spec fn takes_one(
    keys: Seq<Seq<u8>>,
    row: Option<IndexRow>,
    unique: bool,
    index_id: int,
    value: Seq<u8>,
) -> bool {
    row matches Some(row) && row.unique == unique && row.id == index_id && keys.contains(value)
}

/// The tables after index records of an object were written: those that `takes` names are there
/// and point at the object, and nothing else has changed.
pub open spec fn recorded(
    before: Tables,
    after: Tables,
    store_id: int,
    primary_key: Seq<u8>,
    takes: spec_fn(bool, int, Seq<u8>) -> bool,
) -> bool {
    &&& after.objects == before.objects
    &&& after.generators == before.generators
    &&& forall|i: int, v: Seq<u8>, p: Seq<u8>| #[trigger]
        after.records.contains_key((i, v, p)) <==> (p == primary_key && takes(false, i, v))
            || before.records.contains_key((i, v, p))
    &&& forall|i: int, v: Seq<u8>, p: Seq<u8>|
        after.records.contains_key((i, v, p)) ==> #[trigger] after.records[(i, v, p)] == if p
            == primary_key && takes(false, i, v) {
            store_id
        } else {
            before.records[(i, v, p)]
        }
    &&& forall|i: int, v: Seq<u8>| #[trigger]
        after.unique_records.contains_key((i, v)) <==> takes(true, i, v)
            || before.unique_records.contains_key((i, v))
    &&& forall|i: int, v: Seq<u8>|
        after.unique_records.contains_key((i, v)) ==> #[trigger] after.unique_records[(i, v)]
            == if takes(true, i, v) {
            (store_id, primary_key)
        } else {
            before.unique_records[(i, v)]
        }
}

proof fn one_index_recorded(
    tables: Tables,
    store_id: int,
    primary_key: Seq<u8>,
    keys: Seq<Seq<u8>>,
    row: Option<IndexRow>,
)
    ensures
        recorded(
            tables,
            tables.after_all(record_writes(store_id, primary_key, keys, row)),
            store_id,
            primary_key,
            |unique: bool, i: int, v: Seq<u8>| takes_one(keys, row, unique, i, v),
        ),
    decreases keys.len(),
{
    let all = record_writes(store_id, primary_key, keys, row);
    if row is Some && keys.len() > 0 {
        let fewer = keys.drop_last();
        one_index_recorded(tables, store_id, primary_key, fewer, row);
        let rest = record_writes(store_id, primary_key, fewer, row);
        assert(all.drop_last() =~= rest);
        assert forall|v: Seq<u8>| #[trigger]
            keys.contains(v) <==> fewer.contains(v) || v == keys.last() by {
            assert(keys =~= fewer.push(keys.last()));
            vstd::seq_lib::lemma_seq_contains_after_push(fewer, keys.last(), v);
        }
    } else {
        assert(all =~= seq![]);
    }
}

proof fn all_indexes_recorded(
    tables: Tables,
    store_id: int,
    primary_key: Seq<u8>,
    updates: Seq<UpdateView>,
    rows: Seq<Option<IndexRow>>,
)
    ensures
        recorded(
            tables,
            tables.after_all(all_record_writes(store_id, primary_key, updates, rows)),
            store_id,
            primary_key,
            |unique: bool, i: int, v: Seq<u8>| takes(updates, rows, unique, i, v),
        ),
    decreases updates.len(),
{
    if updates.len() > 0 {
        let n = updates.len() - 1;
        let ahead = all_record_writes(store_id, primary_key, updates.drop_last(), rows);
        let last = record_writes(store_id, primary_key, updates[n].keys, rows[n]);
        let middle = tables.after_all(ahead);
        all_indexes_recorded(tables, store_id, primary_key, updates.drop_last(), rows);
        one_index_recorded(middle, store_id, primary_key, updates[n].keys, rows[n]);
        writes_compose(tables, ahead, last);
    }
}

/// Storing a record under a key makes it the object under that key, leaves every other object as
/// it was, and leaves of index records that point at it exactly those that the record's own index
/// keys ask for. Other objects' index records stay, but for a unique index record whose index key
/// the record takes. The key generator of the store is set where the request set it.
pub proof fn put_stores_the_record(
    tables: Tables,
    store_id: int,
    key: Seq<u8>,
    value: Seq<u8>,
    updates: Seq<UpdateView>,
    rows: Seq<Option<IndexRow>>,
    generator: Option<i64>,
)
    ensures
        ({
            let after = tables.after_all(
                put_writes(
                    store_id,
                    key,
                    value,
                    tables.objects.contains_key((store_id, key)),
                    updates,
                    rows,
                    generator,
                ),
            );
            &&& after.objects == tables.objects.insert((store_id, key), value)
            &&& forall|i: int, v: Seq<u8>, p: Seq<u8>| #[trigger]
                after.records.contains_key((i, v, p)) <==> (p == key && takes(
                    updates,
                    rows,
                    false,
                    i,
                    v,
                )) || (tables.records.contains_key((i, v, p)) && !(p == key
                    && tables.records[(i, v, p)] == store_id))
            &&& forall|i: int, v: Seq<u8>| #[trigger]
                after.unique_records.contains_key((i, v)) <==> takes(updates, rows, true, i, v)
                    || (tables.unique_records.contains_key((i, v)) && tables.unique_records[(
                    i,
                    v,
                )] != (store_id, key))
            &&& forall|i: int, v: Seq<u8>|
                after.unique_records.contains_key((i, v)) ==> #[trigger] after.unique_records[(
                    i,
                    v,
                )] == if takes(updates, rows, true, i, v) {
                    (store_id, key)
                } else {
                    tables.unique_records[(i, v)]
                }
            &&& after.generators == match generator {
                Some(number) => tables.generators.insert(store_id, number as int),
                None => tables.generators,
            }
        }),
{
    let exists_already = tables.objects.contains_key((store_id, key));
    let object = if exists_already {
        seq![Write::UpdateObject { store_id, key, data: value }]
    } else {
        seq![Write::InsertObject { store_id, key, data: value }]
    };
    let drops = drop_writes(store_id, key);
    let records = all_record_writes(store_id, key, updates, rows);
    let replaces = replace_writes(store_id, key, updates, rows);
    let stored = object + replaces;
    let t1 = tables.after_all(object);
    let t2 = t1.after_all(drops);
    let t3 = t2.after_all(records);
    writes_compose(tables, object, replaces);
    writes_compose(t1, drops, records);
    assert(object.drop_last() =~= seq![]);
    assert(tables.after_all(object.drop_last()) == tables);
    assert(t1.objects == tables.objects.insert((store_id, key), value));
    assert(drops.drop_last().drop_last() =~= seq![]);
    let d1 = t1.after(drops[0]);
    assert(t1.after_all(drops.drop_last().drop_last()) == t1);
    assert(t1.after_all(drops.drop_last()) == d1);
    assert(t2 == d1.after(drops[1]));
    all_indexes_recorded(t2, store_id, key, updates, rows);
    let all = put_writes(store_id, key, value, exists_already, updates, rows, generator);
    assert(generator is Some ==> all.drop_last() =~= stored);
}

/// A record that no unique index refuses takes no index record away from another object.
pub proof fn put_spares_other_objects(
    tables: Tables,
    store_id: int,
    key: Seq<u8>,
    value: Seq<u8>,
    updates: Seq<UpdateView>,
    rows: Seq<Option<IndexRow>>,
    generator: Option<i64>,
    i: int,
    v: Seq<u8>,
)
    requires
        updates.len() == rows.len(),
        conflict_free(tables, key, updates, rows),
        tables.unique_records.contains_key((i, v)),
        tables.unique_records[(i, v)].1 != key,
    ensures
        ({
            let after = tables.after_all(
                put_writes(
                    store_id,
                    key,
                    value,
                    tables.objects.contains_key((store_id, key)),
                    updates,
                    rows,
                    generator,
                ),
            );
            after.unique_records.contains_key((i, v)) && after.unique_records[(i, v)]
                == tables.unique_records[(i, v)]
        }),
{
    put_stores_the_record(tables, store_id, key, value, updates, rows, generator);
    not_taken(tables, key, updates, rows, i, v);
}

proof fn not_taken(
    tables: Tables,
    key: Seq<u8>,
    updates: Seq<UpdateView>,
    rows: Seq<Option<IndexRow>>,
    i: int,
    v: Seq<u8>,
)
    requires
        updates.len() <= rows.len(),
        conflict_free(tables, key, updates, rows),
        tables.unique_records.contains_key((i, v)),
        tables.unique_records[(i, v)].1 != key,
    ensures
        !takes(updates, rows, true, i, v),
    decreases updates.len(),
{
    if updates.len() > 0 {
        let n = updates.len() - 1;
        let fewer = updates.drop_last();
        assert forall|u: int, k: int|
            0 <= u < fewer.len() && 0 <= k < fewer[u].keys.len() && rows[u] is Some
                && rows[u]->0.unique implies !tables.held_by_other(
            rows[u]->0,
            #[trigger] fewer[u].keys[k],
            key,
        ) by {
            assert(updates[u].keys[k] == fewer[u].keys[k]);
        }
        not_taken(tables, key, fewer, rows, i, v);
        if takes_one(updates[n].keys, rows[n], true, i, v) {
            let k = choose|k: int| 0 <= k < updates[n].keys.len() && updates[n].keys[k] == v;
            assert(!tables.held_by_other(rows[n]->0, updates[n].keys[k], key));
        }
    }
}

impl Tables {
    /// The tables without the objects of a store that a range covers.
    pub open spec fn without_range(self, store_id: int, range: RangeView) -> Tables {
        Tables {
            objects: Map::new(
                |k: (int, Seq<u8>)|
                    self.objects.contains_key(k) && !(k.0 == store_id && range.covers(k.1)),
                |k: (int, Seq<u8>)| self.objects[k],
            ),
            ..self
        }
    }
}

/// One of the byte strings is this one.
pub open spec fn listed(keys: Seq<Vec<u8>>, key: Seq<u8>) -> bool {
    exists|i: int| 0 <= i < keys.len() && (#[trigger] keys[i])@ == key
}

proof fn drops_are_exact(tables: Tables, store_id: int, removed: Seq<Vec<u8>>)
    ensures
        ({
            let after = tables.after_all(drop_all_writes(store_id, removed));
            &&& after.objects == tables.objects
            &&& after.generators == tables.generators
            &&& forall|i: int, v: Seq<u8>, p: Seq<u8>| #[trigger]
                after.records.contains_key((i, v, p)) <==> tables.records.contains_key((i, v, p))
                    && !(tables.records[(i, v, p)] == store_id && listed(removed, p))
            &&& forall|i: int, v: Seq<u8>, p: Seq<u8>|
                after.records.contains_key((i, v, p)) ==> #[trigger] after.records[(i, v, p)]
                    == tables.records[(i, v, p)]
            &&& forall|i: int, v: Seq<u8>| #[trigger]
                after.unique_records.contains_key((i, v)) <==> tables.unique_records.contains_key(
                    (i, v),
                ) && !(tables.unique_records[(i, v)].0 == store_id && listed(
                    removed,
                    tables.unique_records[(i, v)].1,
                ))
            &&& forall|i: int, v: Seq<u8>|
                after.unique_records.contains_key((i, v)) ==> #[trigger] after.unique_records[(
                    i,
                    v,
                )] == tables.unique_records[(i, v)]
        }),
    decreases removed.len(),
{
    if removed.len() > 0 {
        let fewer = removed.drop_last();
        let key = removed.last()@;
        let ahead = drop_all_writes(store_id, fewer);
        let drops = drop_writes(store_id, key);
        drops_are_exact(tables, store_id, fewer);
        writes_compose(tables, ahead, drops);
        let middle = tables.after_all(ahead);
        assert(drops.drop_last().drop_last() =~= seq![]);
        let d1 = middle.after(drops[0]);
        assert(middle.after_all(drops.drop_last().drop_last()) == middle);
        assert(middle.after_all(drops.drop_last()) == d1);
        assert(middle.after_all(drops) == d1.after(drops[1]));
        assert forall|p: Seq<u8>| #[trigger]
            listed(removed, p) <==> listed(fewer, p) || p == key by {
            if listed(fewer, p) {
                let i = choose|i: int| 0 <= i < fewer.len() && (#[trigger] fewer[i])@ == p;
                assert(removed[i]@ == p);
            }
            if listed(removed, p) && p != key {
                let i = choose|i: int| 0 <= i < removed.len() && (#[trigger] removed[i])@ == p;
                assert(fewer[i]@ == p);
            }
            if p == key {
                assert(removed[removed.len() - 1]@ == p);
            }
        }
    }
}

/// Deleting a range removes exactly the objects of the store that the range covers, and with them
/// exactly the index records that point at them. `removed` are the keys that were read beforehand.
pub proof fn delete_removes_objects_and_their_records(
    tables: Tables,
    store_id: int,
    range: RangeView,
    removed: Seq<Vec<u8>>,
)
    requires
        forall|k: Seq<u8>| #[trigger]
            listed(removed, k) <==> tables.objects.contains_key((store_id, k)) && range.covers(k),
    ensures
        ({
            let after = tables.after_all(drop_all_writes(store_id, removed)).without_range(
                store_id,
                range,
            );
            &&& forall|s: int, k: Seq<u8>| #[trigger]
                after.objects.contains_key((s, k)) <==> tables.objects.contains_key((s, k)) && !(s
                    == store_id && range.covers(k))
            &&& forall|s: int, k: Seq<u8>|
                after.objects.contains_key((s, k)) ==> #[trigger] after.objects[(s, k)]
                    == tables.objects[(s, k)]
            &&& forall|i: int, v: Seq<u8>, p: Seq<u8>| #[trigger]
                after.records.contains_key((i, v, p)) <==> tables.records.contains_key((i, v, p))
                    && !(tables.records[(i, v, p)] == store_id && tables.objects.contains_key(
                    (store_id, p),
                ) && range.covers(p))
            &&& forall|i: int, v: Seq<u8>| #[trigger]
                after.unique_records.contains_key((i, v)) <==> tables.unique_records.contains_key(
                    (i, v),
                ) && !(tables.unique_records[(i, v)].0 == store_id && tables.objects.contains_key(
                    (store_id, tables.unique_records[(i, v)].1),
                ) && range.covers(tables.unique_records[(i, v)].1))
        }),
{
    drops_are_exact(tables, store_id, removed);
}

} // verus!
