//! Cursors over object stores and indexes.

use vstd::prelude::*;

use crate::error::{failed, plain, says, Error, ErrorKind, ErrorView};
use crate::indexeddb::key::{
    copy_option_key, key_le, key_lt, key_lt_asymmetric, key_lt_irreflexive, option_key,
    same_option_key, IndexedDBKeyRange, IndexedDBKeyType, RangeView,
};
use crate::indexeddb::operation::{
    addresses_index, addresses_store, index_context, KvsOperationContext,
};
use crate::indexeddb::record::{
    in_record_order, record_lt, records_view, IndexedDBRecord, RecordView,
};
use crate::indexeddb::transaction::{IDBTransactionMode, TransactionStatus};

verus! {

/// The direction in which a cursor moves.
#[derive(Clone, Copy, Debug, PartialEq, Eq, Structural)]
pub enum IDBCursorDirection {
    Next,
    Nextunique,
    Prev,
    Prevunique,
}

/// What a cursor iterates over.
#[derive(Clone, Copy, Debug, PartialEq, Eq, Structural)]
pub enum ObjectStoreOrIndex {
    ObjectStore,
    Index,
}

/// Whether what a cursor iterates over still exists.
#[derive(Clone, Copy, Debug, PartialEq, Eq, Structural)]
pub struct SourceStatus {
    /// The cursor's effective object store is still in the database.
    pub store_exists: bool,
    /// The cursor's index is still in that store's index set. Read for an index cursor only.
    pub index_exists: bool,
}

/// A cursor. A JavaScript value or a request stands here as the number of its handle.
#[derive(Debug)]
pub struct IDBCursor {
    pub range: IndexedDBKeyRange,
    pub source: ObjectStoreOrIndex,
    pub direction: IDBCursorDirection,
    pub position: Option<IndexedDBKeyType>,
    pub key: Option<IndexedDBKeyType>,
    /// The value handed out for `key`, kept until `key` changes.
    pub cached_key: Option<u64>,
    /// The value handed out for the effective key, kept until a position changes.
    pub cached_primary_key: Option<u64>,
    /// The record's value; `None` is `undefined`.
    pub value: Option<u64>,
    pub got_value: bool,
    pub object_store_position: Option<IndexedDBKeyType>,
    pub key_only: bool,
    pub request: Option<u64>,
}

/// What a cursor holds.
pub struct CursorView {
    pub range: RangeView,
    pub source: ObjectStoreOrIndex,
    pub direction: IDBCursorDirection,
    pub position: Option<Seq<u8>>,
    pub key: Option<Seq<u8>>,
    pub cached_key: Option<u64>,
    pub cached_primary_key: Option<u64>,
    pub value: Option<u64>,
    pub got_value: bool,
    pub object_store_position: Option<Seq<u8>>,
    pub key_only: bool,
    pub request: Option<u64>,
}

impl View for IDBCursor {
    type V = CursorView;

    open spec fn view(&self) -> CursorView {
        CursorView {
            range: self.range@,
            source: self.source,
            direction: self.direction,
            position: option_key(self.position),
            key: option_key(self.key),
            cached_key: self.cached_key,
            cached_primary_key: self.cached_primary_key,
            value: self.value,
            got_value: self.got_value,
            object_store_position: option_key(self.object_store_position),
            key_only: self.key_only,
            request: self.request,
        }
    }
}

/// Where an iteration asks the cursor to go.
#[derive(Debug)]
pub struct IterationParam {
    pub key: Option<IndexedDBKeyType>,
    pub primary_key: Option<IndexedDBKeyType>,
    pub count: Option<u32>,
}

/// One search of an iteration: what is asked for, and where the cursor stands.
pub struct Search {
    pub source: ObjectStoreOrIndex,
    pub direction: IDBCursorDirection,
    pub range: RangeView,
    pub key: Option<Seq<u8>>,
    pub primary_key: Option<Seq<u8>>,
    pub position: Option<Seq<u8>>,
    pub object_store_position: Option<Seq<u8>>,
}

impl Search {
    /// The record lies at or beyond the key that was asked for, going up.
    pub open spec fn reached_upward(self, record: RecordView) -> bool {
        &&& self.key matches Some(key) ==> key_le(key, record.key)
        &&& self.primary_key matches Some(primary_key) ==> self.key matches Some(key) && {
            ||| record.key == key && key_le(primary_key, record.primary_key)
            ||| key_lt(key, record.key)
        }
    }

    /// The record lies at or beyond the key that was asked for, going down.
    pub open spec fn reached_downward(self, record: RecordView) -> bool {
        &&& self.key matches Some(key) ==> key_le(record.key, key)
        &&& self.primary_key matches Some(primary_key) ==> self.key matches Some(key) && {
            ||| record.key == key && key_le(record.primary_key, primary_key)
            ||| key_lt(record.key, key)
        }
    }

    /// The record lies above the cursor's position. On an index, records of equal key are told
    /// apart by primary key.
    pub open spec fn above_position(self, record: RecordView) -> bool {
        self.position matches Some(position) ==> {
            ||| key_lt(position, record.key)
            ||| {
                &&& self.source == ObjectStoreOrIndex::Index
                &&& record.key == position
                &&& self.object_store_position matches Some(p) && key_lt(p, record.primary_key)
            }
        }
    }

    /// The record lies below the cursor's position.
    pub open spec fn below_position(self, record: RecordView) -> bool {
        self.position matches Some(position) ==> {
            ||| key_lt(record.key, position)
            ||| {
                &&& self.source == ObjectStoreOrIndex::Index
                &&& record.key == position
                &&& self.object_store_position matches Some(p) && key_lt(record.primary_key, p)
            }
        }
    }

    /// The record meets every requirement of the search.
    pub open spec fn selects(self, record: RecordView) -> bool {
        &&& self.range.covers(record.key)
        &&& match self.direction {
            IDBCursorDirection::Next => self.reached_upward(record) && self.above_position(record),
            IDBCursorDirection::Nextunique => {
                &&& self.key matches Some(key) ==> key_le(key, record.key)
                &&& self.position matches Some(position) ==> key_lt(position, record.key)
            },
            IDBCursorDirection::Prev => self.reached_downward(record) && self.below_position(
                record,
            ),
            IDBCursorDirection::Prevunique => {
                &&& self.key matches Some(key) ==> key_le(record.key, key)
                &&& self.position matches Some(position) ==> key_lt(record.key, position)
            },
        }
    }

    /// `i` is the first record that the search selects.
    pub open spec fn first(self, records: Seq<RecordView>, i: int) -> bool {
        &&& 0 <= i < records.len()
        &&& self.selects(records[i])
        &&& forall|j: int| 0 <= j < i ==> !self.selects(#[trigger] records[j])
    }

    /// `i` is the last record that the search selects.
    pub open spec fn last(self, records: Seq<RecordView>, i: int) -> bool {
        &&& 0 <= i < records.len()
        &&& self.selects(records[i])
        &&& forall|j: int| i < j < records.len() ==> !self.selects(#[trigger] records[j])
    }

    /// No record is selected.
    pub open spec fn misses(self, records: Seq<RecordView>) -> bool {
        forall|j: int| 0 <= j < records.len() ==> !self.selects(#[trigger] records[j])
    }

    /// The search ends at record `i`: the first that it selects going up, the last going down,
    /// and for `prevunique` the first of all records with the key of the last that it selects.
    pub open spec fn finds(self, records: Seq<RecordView>, i: int) -> bool {
        match self.direction {
            IDBCursorDirection::Next | IDBCursorDirection::Nextunique => self.first(records, i),
            IDBCursorDirection::Prev => self.last(records, i),
            IDBCursorDirection::Prevunique => exists|t: int| #[trigger]
                self.last(records, t) && first_of_key(records, records[t].key, i),
        }
    }

    /// The search that follows, with the cursor on the record that was found.
    pub open spec fn at(self, record: RecordView) -> Search {
        Search {
            position: Some(record.key),
            object_store_position: if self.source == ObjectStoreOrIndex::Index {
                Some(record.primary_key)
            } else {
                self.object_store_position
            },
            ..self
        }
    }

    /// The searches, each from the record that the one before found, find the records of `path`.
    pub open spec fn follows(self, records: Seq<RecordView>, path: Seq<int>) -> bool {
        forall|j: int| 0 <= j < path.len() ==> #[trigger] self.steps(records, path, j)
    }

    /// Step `j` of `path` goes to the record that the search from the step before finds.
    pub open spec fn steps(self, records: Seq<RecordView>, path: Seq<int>, j: int) -> bool {
        self.after(records, path, j).finds(records, path[j])
    }

    /// The search that comes after the first `n` records of `path`.
    pub open spec fn after(self, records: Seq<RecordView>, path: Seq<int>, n: int) -> Search {
        if n == 0 {
            self
        } else {
            self.at(records[path[n - 1]])
        }
    }

    /// A search from the end of a path makes the path longer.
    proof fn follows_on(self, records: Seq<RecordView>, path: Seq<int>, i: int)
        requires
            self.follows(records, path),
            self.after(records, path, path.len() as int).finds(records, i),
        ensures
            self.follows(records, path.push(i)),
            self.after(records, path.push(i), path.len() as int + 1) == self.at(records[i]),
    {
        let longer = path.push(i);
        assert forall|j: int| 0 <= j < longer.len() implies #[trigger] self.steps(
            records,
            longer,
            j,
        ) by {
            assert(self.after(records, longer, j) == self.after(records, path, j));
            if j < path.len() {
                assert(self.steps(records, path, j));
            }
        }
    }

    /// `count` searches in a row all find a record, the last of them record `i`.
    pub open spec fn walks(self, records: Seq<RecordView>, count: nat, i: int) -> bool {
        exists|path: Seq<int>| #[trigger]
            self.follows(records, path) && path.len() == count && count > 0 && path.last() == i
    }

    /// One of `count` searches in a row finds nothing.
    pub open spec fn runs_out(self, records: Seq<RecordView>, count: nat) -> bool {
        exists|path: Seq<int>| #[trigger]
            self.follows(records, path) && path.len() < count && self.after(
                records,
                path,
                path.len() as int,
            ).misses(records)
    }
}

/// `i` is the first record with the given key.
pub open spec fn first_of_key(records: Seq<RecordView>, key: Seq<u8>, i: int) -> bool {
    &&& 0 <= i < records.len()
    &&& records[i].key == key
    &&& forall|j: int| 0 <= j < i ==> (#[trigger] records[j]).key != key
}

impl CursorView {
    /// The search that an iteration of this cursor starts with.
    pub open spec fn search(self, key: Option<Seq<u8>>, primary_key: Option<Seq<u8>>) -> Search {
        Search {
            source: self.source,
            direction: self.direction,
            range: self.range,
            key,
            primary_key,
            position: self.position,
            object_store_position: self.object_store_position,
        }
    }

    /// The cursor with another key; the value handed out for the old key goes with it.
    pub open spec fn with_key(self, key: Option<Seq<u8>>) -> CursorView {
        CursorView {
            key,
            cached_key: if self.key == key {
                self.cached_key
            } else {
                None
            },
            ..self
        }
    }

    /// The cursor with another position.
    pub open spec fn with_position(self, position: Option<Seq<u8>>) -> CursorView {
        CursorView {
            position,
            cached_primary_key: if self.position == position {
                self.cached_primary_key
            } else {
                None
            },
            ..self
        }
    }

    /// The cursor with another object store position.
    pub open spec fn with_object_store_position(self, position: Option<Seq<u8>>) -> CursorView {
        CursorView {
            object_store_position: position,
            cached_primary_key: if self.object_store_position == position {
                self.cached_primary_key
            } else {
                None
            },
            ..self
        }
    }

    /// The cursor once it has run out of records.
    pub open spec fn exhausted(self) -> CursorView {
        let cleared = self.with_key(None);
        let cleared = if self.source == ObjectStoreOrIndex::Index {
            cleared.with_object_store_position(None)
        } else {
            cleared
        };
        CursorView {
            value: if self.key_only {
                self.value
            } else {
                None
            },
            ..cleared
        }
    }

    /// The cursor once it stands on `record`.
    pub open spec fn moved_to(self, record: RecordView) -> CursorView {
        let moved = self.with_position(Some(record.key));
        let moved = if self.source == ObjectStoreOrIndex::Index {
            moved.with_object_store_position(Some(record.primary_key))
        } else {
            moved
        };
        moved.with_key(Some(record.key))
    }

    /// The key under which the record that the cursor stands on is stored.
    pub open spec fn effective_key(self) -> Option<Seq<u8>> {
        match self.source {
            ObjectStoreOrIndex::ObjectStore => self.position,
            ObjectStoreOrIndex::Index => self.object_store_position,
        }
    }
}

/// Whether `record` meets every requirement of a search that goes up through records one by one.
fn next_selects(
    cursor: &IDBCursor,
    param: &IterationParam,
    position: &Option<IndexedDBKeyType>,
    object_store_position: &Option<IndexedDBKeyType>,
    record: &IndexedDBRecord,
) -> (selected: bool)
    requires
        cursor.direction == IDBCursorDirection::Next,
    ensures
        selected == search_at(*cursor, *param, *position, *object_store_position).selects(record@),
{
    let reached = match &param.key {
        Some(key) => key.at_or_before(&record.key),
        None => true,
    };
    let reached_primary = match &param.primary_key {
        Some(primary_key) => match &param.key {
            Some(key) => (record.key.same(key) && primary_key.at_or_before(&record.primary_key))
                || key.before(&record.key),
            None => false,
        },
        None => true,
    };
    let passed = match position {
        Some(position) => match cursor.source {
            ObjectStoreOrIndex::ObjectStore => position.before(&record.key),
            ObjectStoreOrIndex::Index => {
                let within = match object_store_position {
                    Some(p) => record.key.same(position) && p.before(&record.primary_key),
                    None => false,
                };
                within || position.before(&record.key)
            },
        },
        None => true,
    };
    reached && reached_primary && passed && cursor.range.contains(&record.key)
}

/// Whether `record` meets every requirement of a search that goes up through distinct keys.
fn nextunique_selects(
    cursor: &IDBCursor,
    param: &IterationParam,
    position: &Option<IndexedDBKeyType>,
    object_store_position: &Option<IndexedDBKeyType>,
    record: &IndexedDBRecord,
) -> (selected: bool)
    requires
        cursor.direction == IDBCursorDirection::Nextunique,
    ensures
        selected == search_at(*cursor, *param, *position, *object_store_position).selects(record@),
{
    let reached = match &param.key {
        Some(key) => key.at_or_before(&record.key),
        None => true,
    };
    let passed = match position {
        Some(position) => position.before(&record.key),
        None => true,
    };
    reached && passed && cursor.range.contains(&record.key)
}

/// Whether `record` meets every requirement of a search that goes down through records one by one.
fn prev_selects(
    cursor: &IDBCursor,
    param: &IterationParam,
    position: &Option<IndexedDBKeyType>,
    object_store_position: &Option<IndexedDBKeyType>,
    record: &IndexedDBRecord,
) -> (selected: bool)
    requires
        cursor.direction == IDBCursorDirection::Prev,
    ensures
        selected == search_at(*cursor, *param, *position, *object_store_position).selects(record@),
{
    let reached = match &param.key {
        Some(key) => record.key.at_or_before(key),
        None => true,
    };
    let reached_primary = match &param.primary_key {
        Some(primary_key) => match &param.key {
            Some(key) => (record.key.same(key) && record.primary_key.at_or_before(primary_key))
                || record.key.before(key),
            None => false,
        },
        None => true,
    };
    let passed = match position {
        Some(position) => match cursor.source {
            ObjectStoreOrIndex::ObjectStore => record.key.before(position),
            ObjectStoreOrIndex::Index => {
                let within = match object_store_position {
                    Some(p) => record.key.same(position) && record.primary_key.before(p),
                    None => false,
                };
                within || record.key.before(position)
            },
        },
        None => true,
    };
    reached && reached_primary && passed && cursor.range.contains(&record.key)
}

/// Whether `record` meets every requirement of a search that goes down through distinct keys.
fn prevunique_selects(
    cursor: &IDBCursor,
    param: &IterationParam,
    position: &Option<IndexedDBKeyType>,
    object_store_position: &Option<IndexedDBKeyType>,
    record: &IndexedDBRecord,
) -> (selected: bool)
    requires
        cursor.direction == IDBCursorDirection::Prevunique,
    ensures
        selected == search_at(*cursor, *param, *position, *object_store_position).selects(record@),
{
    let reached = match &param.key {
        Some(key) => record.key.at_or_before(key),
        None => true,
    };
    let passed = match position {
        Some(position) => record.key.before(position),
        None => true,
    };
    reached && passed && cursor.range.contains(&record.key)
}

/// The search of `cursor` for `param` from the given place.
pub open spec fn search_at(
    cursor: IDBCursor,
    param: IterationParam,
    position: Option<IndexedDBKeyType>,
    object_store_position: Option<IndexedDBKeyType>,
) -> Search {
    Search {
        position: option_key(position),
        object_store_position: option_key(object_store_position),
        ..cursor@.search(option_key(param.key), option_key(param.primary_key))
    }
}

/// Runs one search over the records.
fn find_record(
    cursor: &IDBCursor,
    param: &IterationParam,
    position: &Option<IndexedDBKeyType>,
    object_store_position: &Option<IndexedDBKeyType>,
    records: &Vec<IndexedDBRecord>,
) -> (found: Option<usize>)
    ensures
        match found {
            Some(i) => search_at(*cursor, *param, *position, *object_store_position).finds(
                records_view(records@),
                i as int,
            ) && i < records.len(),
            None => search_at(*cursor, *param, *position, *object_store_position).misses(
                records_view(records@),
            ),
        },
{
    let ghost search = search_at(*cursor, *param, *position, *object_store_position);
    let ghost view = records_view(records@);
    match cursor.direction {
        IDBCursorDirection::Next | IDBCursorDirection::Nextunique => {
            let mut i: usize = 0;
            while i < records.len()
                invariant
                    i <= records.len(),
                    view == records_view(records@),
                    search == search_at(*cursor, *param, *position, *object_store_position),
                    cursor.direction == IDBCursorDirection::Next || cursor.direction
                        == IDBCursorDirection::Nextunique,
                    forall|j: int| 0 <= j < i ==> !search.selects(#[trigger] view[j]),
                decreases records.len() - i,
            {
                let selected = match cursor.direction {
                    IDBCursorDirection::Next => next_selects(
                        cursor,
                        param,
                        position,
                        object_store_position,
                        &records[i],
                    ),
                    _ => nextunique_selects(
                        cursor,
                        param,
                        position,
                        object_store_position,
                        &records[i],
                    ),
                };
                assert(view[i as int] == records[i as int]@);
                if selected {
                    return Some(i);
                }
                i += 1;
            }
            None
        },
        IDBCursorDirection::Prev | IDBCursorDirection::Prevunique => {
            let mut n: usize = records.len();
            while n > 0
                invariant
                    n <= records.len(),
                    view == records_view(records@),
                    search == search_at(*cursor, *param, *position, *object_store_position),
                    cursor.direction == IDBCursorDirection::Prev || cursor.direction
                        == IDBCursorDirection::Prevunique,
                    forall|j: int| n <= j < view.len() ==> !search.selects(#[trigger] view[j]),
                decreases n,
            {
                let i: usize = n - 1;
                let selected = match cursor.direction {
                    IDBCursorDirection::Prev => prev_selects(
                        cursor,
                        param,
                        position,
                        object_store_position,
                        &records[i],
                    ),
                    _ => prevunique_selects(
                        cursor,
                        param,
                        position,
                        object_store_position,
                        &records[i],
                    ),
                };
                assert(view[i as int] == records[i as int]@);
                if selected {
                    assert(search.last(view, i as int));
                    if cursor.direction == IDBCursorDirection::Prev {
                        return Some(i);
                    }
                    return Some(first_with_key(records, i));
                }
                n = i;
            }
            None
        },
    }
}

/// The first record that has the key of record `from`.
fn first_with_key(records: &Vec<IndexedDBRecord>, from: usize) -> (first: usize)
    requires
        from < records.len(),
    ensures
        first <= from,
        first_of_key(records_view(records@), records[from as int].key@, first as int),
{
    let ghost view = records_view(records@);
    let mut i: usize = 0;
    while i < from
        invariant
            i <= from < records.len(),
            view == records_view(records@),
            forall|j: int| 0 <= j < i ==> (#[trigger] view[j]).key != records[from as int].key@,
        decreases from - i,
    {
        assert(view[i as int] == records[i as int]@);
        if records[i].key.same(&records[from].key) {
            return i;
        }
        i += 1;
    }
    assert(view[from as int] == records[from as int]@);
    from
}

impl IDBCursor {
    /// A cursor that has not been iterated yet.
    pub fn new_inherited(
        direction: IDBCursorDirection,
        got_value: bool,
        source: ObjectStoreOrIndex,
        range: IndexedDBKeyRange,
        key_only: bool,
    ) -> (cursor: IDBCursor)
        ensures
            cursor@ == (CursorView {
                range: range@,
                source,
                direction,
                position: None,
                key: None,
                cached_key: None,
                cached_primary_key: None,
                value: None,
                got_value,
                object_store_position: None,
                key_only,
                request: None,
            }),
    {
        IDBCursor {
            range,
            source,
            direction,
            position: None,
            key: None,
            cached_key: None,
            cached_primary_key: None,
            value: None,
            got_value,
            object_store_position: None,
            key_only,
            request: None,
        }
    }

    fn set_position(&mut self, position: Option<IndexedDBKeyType>)
        ensures
            final(self)@ == old(self)@.with_position(option_key(position)),
    {
        if !same_option_key(&self.position, &position) {
            self.cached_primary_key = None;
        }
        self.position = position;
    }

    fn set_key(&mut self, key: Option<IndexedDBKeyType>)
        ensures
            final(self)@ == old(self)@.with_key(option_key(key)),
    {
        if !same_option_key(&self.key, &key) {
            self.cached_key = None;
        }
        self.key = key;
    }

    fn set_object_store_position(&mut self, position: Option<IndexedDBKeyType>)
        ensures
            final(self)@ == old(self)@.with_object_store_position(option_key(position)),
    {
        if !same_option_key(&self.object_store_position, &position) {
            self.cached_primary_key = None;
        }
        self.object_store_position = position;
    }
}

/// Moves the cursor to the record that the iteration asks for, and answers which of `records` it
/// is, or that there is none. The record's value is read afterwards: see
/// [`IDBCursor::finish_iteration`].
pub fn iterate_cursor(
    cursor: &mut IDBCursor,
    param: &IterationParam,
    records: &Vec<IndexedDBRecord>,
) -> (result: Result<Option<usize>, Error>)
    requires
        param.primary_key is Some ==> old(cursor).source == ObjectStoreOrIndex::Index && (old(
            cursor,
        ).direction == IDBCursorDirection::Next || old(cursor).direction
            == IDBCursorDirection::Prev),
    ensures
        ({
            let search = old(cursor)@.search(option_key(param.key), option_key(param.primary_key));
            let view = records_view(records@);
            let count: nat = match param.count {
                Some(count) => count as nat,
                None => 1,
            };
            match result {
                Ok(Some(i)) => {
                    &&& search.walks(view, count, i as int)
                    &&& i < records.len()
                    &&& final(cursor)@ == old(cursor)@.moved_to(view[i as int])
                },
                Ok(None) => search.runs_out(view, count) && final(cursor)@ == old(
                    cursor,
                )@.exhausted(),
                Err(error) => {
                    &&& count == 0
                    &&& error@ == plain(ErrorKind::Operation)
                    &&& final(cursor)@ == old(cursor)@
                },
            }
        }),
{
    let mut position = copy_option_key(&cursor.position);
    let mut object_store_position = copy_option_key(&cursor.object_store_position);
    let mut count: u32 = match param.count {
        Some(count) => count,
        None => 1,
    };
    let mut found_record: Option<usize> = None;
    let ghost start = search_at(*cursor, *param, position, object_store_position);
    let ghost view = records_view(records@);
    let ghost total = count as nat;
    let ghost before = *cursor;
    let ghost mut path: Seq<int> = seq![];
    assert(start == before@.search(option_key(param.key), option_key(param.primary_key)));

    while count > 0
        invariant
            *cursor == before,
            before == *old(cursor),
            start == before@.search(option_key(param.key), option_key(param.primary_key)),
            view == records_view(records@),
            total == (match param.count {
                Some(count) => count as nat,
                None => 1,
            }),
            count <= total,
            path.len() == total - count,
            start.follows(view, path),
            found_record is None ==> path.len() == 0,
            found_record matches Some(i) ==> i < records.len() && path.len() > 0 && path.last()
                == i,
            search_at(before, *param, position, object_store_position) == start.after(
                view,
                path,
                path.len() as int,
            ),
        decreases count,
    {
        found_record = find_record(cursor, param, &position, &object_store_position, records);
        match found_record {
            None => {
                cursor.set_key(None);
                if cursor.source == ObjectStoreOrIndex::Index {
                    cursor.set_object_store_position(None);
                }
                if !cursor.key_only {
                    cursor.value = None;
                }
                return Ok(None);
            },
            Some(i) => {
                proof {
                    start.follows_on(view, path, i as int);
                    path = path.push(i as int);
                }
                let record = &records[i];
                assert(view[i as int] == record@);
                position = Some(record.key.clone());
                if cursor.source == ObjectStoreOrIndex::Index {
                    object_store_position = Some(record.primary_key.clone());
                }
                count -= 1;
            },
        }
    }
    match found_record {
        Some(i) => {
            let record = &records[i];
            cursor.set_position(position);
            if cursor.source == ObjectStoreOrIndex::Index {
                cursor.set_object_store_position(object_store_position);
            }
            cursor.set_key(Some(record.key.clone()));
            Ok(Some(i))
        },
        None => Err(Error::plain(ErrorKind::Operation)),
    }
}

/// A further iteration of a cursor: the request that carries its answer, and what it asks for.
#[derive(Debug)]
pub struct Iteration {
    pub request: u64,
    pub param: IterationParam,
    pub key_range: IndexedDBKeyRange,
    pub context: KvsOperationContext,
}

/// `iteration` reruns the request of `cursor` over the cursor's range and source, for the given
/// key, primary key and count.
pub open spec fn iterates(
    iteration: Iteration,
    cursor: CursorView,
    index_name: Seq<char>,
    key: Option<Seq<u8>>,
    primary_key: Option<Seq<u8>>,
    count: Option<u32>,
) -> bool {
    &&& cursor.request == Some(iteration.request)
    &&& option_key(iteration.param.key) == key
    &&& option_key(iteration.param.primary_key) == primary_key
    &&& iteration.param.count == count
    &&& iteration.key_range@ == cursor.range
    &&& match cursor.source {
        ObjectStoreOrIndex::ObjectStore => addresses_store(iteration.context),
        ObjectStoreOrIndex::Index => addresses_index(iteration.context, index_name),
    }
}

/// The outcome of starting an iteration on a cursor that may be iterated.
pub open spec fn starts(
    result: Result<Iteration, Error>,
    before: CursorView,
    after: CursorView,
    index_name: Seq<char>,
    key: Option<Seq<u8>>,
    primary_key: Option<Seq<u8>>,
    count: Option<u32>,
) -> bool {
    &&& after == (CursorView { got_value: false, ..before })
    &&& result is Ok <==> before.request is Some
    &&& result matches Ok(iteration) ==> iterates(
        iteration,
        before,
        index_name,
        key,
        primary_key,
        count,
    )
    &&& result is Err ==> failed(
        result,
        says(ErrorKind::InvalidState, "The cursor has no request"@),
    )
}

impl SourceStatus {
    /// What a cursor of the given source iterates over has not been deleted.
    pub open spec fn intact(self, source: ObjectStoreOrIndex) -> bool {
        self.store_exists && (source == ObjectStoreOrIndex::Index ==> self.index_exists)
    }

    /// What is said where it has been deleted.
    pub open spec fn complaint(self) -> ErrorView {
        if !self.store_exists {
            says(ErrorKind::InvalidState, "The cursor's effective object store has been deleted"@)
        } else {
            says(ErrorKind::InvalidState, "The cursor's source index has been deleted"@)
        }
    }
}

impl CursorView {
    /// `key` does not move the cursor in its own direction.
    pub open spec fn refuses_key(self, key: Seq<u8>) -> bool {
        self.position matches Some(position) && match self.direction {
            IDBCursorDirection::Next | IDBCursorDirection::Nextunique => key_le(key, position),
            IDBCursorDirection::Prev | IDBCursorDirection::Prevunique => key_le(position, key),
        }
    }

    /// `key` and `primary_key` do not move the cursor in its own direction.
    pub open spec fn refuses_primary_key(self, key: Seq<u8>, primary_key: Seq<u8>) -> bool {
        self.position matches Some(position) && match self.direction {
            IDBCursorDirection::Next => key_lt(key, position) || (key == position
                && (self.object_store_position matches Some(p) && key_le(primary_key, p))),
            IDBCursorDirection::Prev => key_lt(position, key) || (key == position
                && (self.object_store_position matches Some(p) && key_le(p, primary_key))),
            _ => false,
        }
    }
}

/// What a getter answers with: a value handed out before, or a key that is still to be converted.
#[derive(Debug)]
pub enum KeyAnswer {
    Cached(u64),
    Convert(Option<IndexedDBKeyType>),
}

/// The answer is the cached value where there is one, and otherwise the key.
pub open spec fn answers_key(
    answer: KeyAnswer,
    cached: Option<u64>,
    key: Option<Seq<u8>>,
) -> bool {
    match cached {
        Some(value) => answer == KeyAnswer::Cached(value),
        None => answer matches KeyAnswer::Convert(held) && option_key(held) == key,
    }
}

impl IDBCursor {
    /// The last steps of an iteration that found a record: the record's value becomes the
    /// cursor's, unless the cursor is key-only. `value` is what reading it gave; it is not looked
    /// at for a key-only cursor.
    pub fn finish_iteration(&mut self, value: Result<u64, Error>) -> (result: Result<(), Error>)
        ensures
            old(self).key_only ==> result is Ok && final(self)@ == (CursorView {
                got_value: true,
                ..old(self)@
            }),
            !old(self).key_only ==> match value {
                Ok(value) => result is Ok && final(self)@ == (CursorView {
                    got_value: true,
                    value: Some(value),
                    ..old(self)@
                }),
                Err(error) => result == Err::<(), Error>(error) && final(self)@ == old(self)@,
            },
    {
        if !self.key_only {
            match value {
                Ok(value) => {
                    self.value = Some(value);
                },
                Err(error) => return Err(error),
            }
        }
        self.got_value = true;
        Ok(())
    }

    /// Gives the cursor its request.
    pub fn set_request(&mut self, request: u64)
        ensures
            final(self)@ == (CursorView { request: Some(request), ..old(self)@ }),
    {
        self.request = Some(request);
    }

    /// The key under which the record that the cursor stands on is stored.
    pub fn effective_key(&self) -> (key: Option<IndexedDBKeyType>)
        ensures
            option_key(key) == self@.effective_key(),
    {
        match self.source {
            ObjectStoreOrIndex::ObjectStore => copy_option_key(&self.position),
            ObjectStoreOrIndex::Index => copy_option_key(&self.object_store_position),
        }
    }

    /// What goes to the engine beside the cursor's reads: an index cursor names its index on
    /// every iteration.
    pub fn operation_context(&self, index_name: &String) -> (context: KvsOperationContext)
        ensures
            match self.source {
                ObjectStoreOrIndex::ObjectStore => addresses_store(context),
                ObjectStoreOrIndex::Index => addresses_index(context, index_name@),
            },
    {
        match self.source {
            ObjectStoreOrIndex::ObjectStore => KvsOperationContext::default(),
            ObjectStoreOrIndex::Index => index_context(index_name),
        }
    }

    /// Refuses an iteration where the transaction is not active or the source is gone.
    pub fn check_transaction_and_source(
        &self,
        transaction: &TransactionStatus,
        status: &SourceStatus,
    ) -> (result: Result<(), Error>)
        ensures
            result is Ok <==> transaction.accepts_requests() && status.intact(self.source),
            !transaction.accepts_requests() ==> failed(
                result,
                plain(ErrorKind::TransactionInactive),
            ),
            transaction.accepts_requests() && !status.intact(self.source) ==> failed(
                result,
                status.complaint(),
            ),
    {
        match transaction.check_transaction_active() {
            Err(error) => return Err(error),
            Ok(()) => {},
        }
        self.check_source(status)
    }

    /// Refuses work on a cursor whose object store or index has been deleted.
    fn check_source(&self, status: &SourceStatus) -> (result: Result<(), Error>)
        ensures
            result is Ok <==> status.intact(self.source),
            !status.intact(self.source) ==> failed(result, status.complaint()),
    {
        if !status.store_exists {
            return Err(
                Error::says(
                    ErrorKind::InvalidState,
                    "The cursor's effective object store has been deleted",
                ),
            );
        }
        if self.source == ObjectStoreOrIndex::Index && !status.index_exists {
            return Err(
                Error::says(ErrorKind::InvalidState, "The cursor's source index has been deleted"),
            );
        }
        Ok(())
    }

    /// Refuses work on a cursor whose last iteration has not answered yet.
    pub fn check_got_value(&self) -> (result: Result<(), Error>)
        ensures
            result is Ok <==> self.got_value,
            !self.got_value ==> failed(
                result,
                says(ErrorKind::InvalidState, "The cursor is already iterating"@),
            ),
    {
        if !self.got_value {
            return Err(Error::says(ErrorKind::InvalidState, "The cursor is already iterating"));
        }
        Ok(())
    }

    /// Refuses a write through the cursor. The first refusal that applies is the one given: an
    /// inactive transaction, a read-only one, a deleted source, an outstanding iteration, a
    /// key-only cursor.
    pub fn check_writable(
        &self,
        transaction: &TransactionStatus,
        status: &SourceStatus,
    ) -> (result: Result<(), Error>)
        ensures
            match self@.write_refusal(*transaction, *status) {
                Some(refusal) => failed(result, refusal),
                None => result is Ok,
            },
    {
        match transaction.check_readwrite_transaction_active() {
            Err(error) => return Err(error),
            Ok(()) => {},
        }
        match self.check_source(status) {
            Err(error) => return Err(error),
            Ok(()) => {},
        }
        match self.check_got_value() {
            Err(error) => return Err(error),
            Ok(()) => {},
        }
        if self.key_only {
            return Err(
                Error::says(ErrorKind::InvalidState, "A key-only cursor has no value to write"),
            );
        }
        Ok(())
    }

    /// Starts another iteration: the request is reopened, and what it is to read is answered.
    pub fn run_iteration(
        &mut self,
        index_name: &String,
        key: Option<IndexedDBKeyType>,
        primary_key: Option<IndexedDBKeyType>,
        count: Option<u32>,
    ) -> (result: Result<Iteration, Error>)
        ensures
            starts(
                result,
                old(self)@,
                final(self)@,
                index_name@,
                option_key(key),
                option_key(primary_key),
                count,
            ),
    {
        self.got_value = false;
        match self.request {
            Some(request) => {
                let param = IterationParam { key, primary_key, count };
                let key_range = self.range.clone();
                let context = self.operation_context(index_name);
                Ok(Iteration { request, param, key_range, context })
            },
            None => Err(Error::says(ErrorKind::InvalidState, "The cursor has no request")),
        }
    }

    /// Moves the cursor `count` records on.
    pub fn advance(
        &mut self,
        transaction: &TransactionStatus,
        status: &SourceStatus,
        index_name: &String,
        count: u32,
    ) -> (result: Result<Iteration, Error>)
        ensures
            if count == 0 {
                failed(result, says(ErrorKind::Type, "count must not be zero"@)) && final(self)@
                    == old(self)@
            } else {
                match old(self)@.iteration_refusal(*transaction, *status) {
                    Some(refusal) => failed(result, refusal) && final(self)@ == old(self)@,
                    None => starts(
                        result,
                        old(self)@,
                        final(self)@,
                        index_name@,
                        None,
                        None,
                        Some(count),
                    ),
                }
            },
    {
        if count == 0 {
            return Err(Error::says(ErrorKind::Type, "count must not be zero"));
        }
        match self.check_iterable(transaction, status) {
            Err(error) => return Err(error),
            Ok(()) => {},
        }
        self.run_iteration(index_name, None, None, Some(count))
    }

    /// The checks that come before any argument of `continue` is converted.
    pub fn check_iterable(
        &self,
        transaction: &TransactionStatus,
        status: &SourceStatus,
    ) -> (result: Result<(), Error>)
        ensures
            match self@.iteration_refusal(*transaction, *status) {
                Some(refusal) => failed(result, refusal),
                None => result is Ok,
            },
    {
        match self.check_transaction_and_source(transaction, status) {
            Err(error) => return Err(error),
            Ok(()) => {},
        }
        self.check_got_value()
    }

    /// `continue`, once [`Self::check_iterable`] has passed and the key, if one was given, has
    /// been converted.
    pub fn continue_to(
        &mut self,
        index_name: &String,
        key: Option<IndexedDBKeyType>,
    ) -> (result: Result<Iteration, Error>)
        ensures
            if option_key(key) matches Some(k) && old(self)@.refuses_key(k) {
                failed(
                    result,
                    says(
                        ErrorKind::Data,
                        "continue() must move the cursor in its own direction"@,
                    ),
                ) && final(self)@ == old(self)@
            } else {
                starts(
                    result,
                    old(self)@,
                    final(self)@,
                    index_name@,
                    option_key(key),
                    None,
                    None,
                )
            },
    {
        match (&key, &self.position) {
            (Some(key), Some(position)) => {
                let moves_backwards = match self.direction {
                    IDBCursorDirection::Next | IDBCursorDirection::Nextunique => key.at_or_before(
                        position,
                    ),
                    IDBCursorDirection::Prev | IDBCursorDirection::Prevunique => position.at_or_before(
                        key,
                    ),
                };
                if moves_backwards {
                    return Err(
                        Error::says(
                            ErrorKind::Data,
                            "continue() must move the cursor in its own direction",
                        ),
                    );
                }
            },
            _ => {},
        }
        self.run_iteration(index_name, key, None, None)
    }

    /// The checks that come before any argument of `continuePrimaryKey` is converted.
    pub fn check_continue_primary_key(
        &self,
        transaction: &TransactionStatus,
        status: &SourceStatus,
    ) -> (result: Result<(), Error>)
        ensures
            match self@.primary_key_refusal(*transaction, *status) {
                Some(refusal) => failed(result, refusal),
                None => result is Ok,
            },
    {
        match self.check_transaction_and_source(transaction, status) {
            Err(error) => return Err(error),
            Ok(()) => {},
        }
        if self.source != ObjectStoreOrIndex::Index {
            return Err(
                Error::says(
                    ErrorKind::InvalidAccess,
                    "continuePrimaryKey() requires an index cursor",
                ),
            );
        }
        if self.direction != IDBCursorDirection::Next && self.direction
            != IDBCursorDirection::Prev {
            return Err(
                Error::says(
                    ErrorKind::InvalidAccess,
                    "continuePrimaryKey() requires direction next or prev",
                ),
            );
        }
        self.check_got_value()
    }

    /// `continuePrimaryKey`, once [`Self::check_continue_primary_key`] has passed and both keys
    /// have been converted.
    pub fn continue_primary_key(
        &mut self,
        index_name: &String,
        key: IndexedDBKeyType,
        primary_key: IndexedDBKeyType,
    ) -> (result: Result<Iteration, Error>)
        ensures
            if old(self)@.refuses_primary_key(key@, primary_key@) {
                failed(
                    result,
                    says(
                        ErrorKind::Data,
                        "continuePrimaryKey() must move the cursor in its own direction"@,
                    ),
                ) && final(self)@ == old(self)@
            } else {
                starts(
                    result,
                    old(self)@,
                    final(self)@,
                    index_name@,
                    Some(key@),
                    Some(primary_key@),
                    None,
                )
            },
    {
        if let Some(position) = &self.position {
            let refuses = match self.direction {
                IDBCursorDirection::Next => {
                    let behind = match &self.object_store_position {
                        Some(current) => key.same(position) && primary_key.at_or_before(current),
                        None => false,
                    };
                    behind || key.before(position)
                },
                IDBCursorDirection::Prev => {
                    let behind = match &self.object_store_position {
                        Some(current) => key.same(position) && current.at_or_before(&primary_key),
                        None => false,
                    };
                    behind || position.before(&key)
                },
                IDBCursorDirection::Nextunique | IDBCursorDirection::Prevunique => false,
            };
            if refuses {
                return Err(
                    Error::says(
                        ErrorKind::Data,
                        "continuePrimaryKey() must move the cursor in its own direction",
                    ),
                );
            }
        }
        self.run_iteration(index_name, Some(key), Some(primary_key), None)
    }

    /// The key that `update` writes the record under, or why it cannot write.
    pub fn update(
        &self,
        transaction: &TransactionStatus,
        status: &SourceStatus,
    ) -> (result: Result<IndexedDBKeyType, Error>)
        ensures
            match self@.write_refusal(*transaction, *status) {
                Some(refusal) => failed(result, refusal),
                None => match self@.effective_key() {
                    Some(key) => result matches Ok(found) && found@ == key,
                    None => failed(
                        result,
                        says(
                            ErrorKind::InvalidState,
                            "The cursor has no effective key to update"@,
                        ),
                    ),
                },
            },
    {
        match self.check_writable(transaction, status) {
            Err(error) => return Err(error),
            Ok(()) => {},
        }
        match self.effective_key() {
            Some(key) => Ok(key),
            None => Err(
                Error::says(ErrorKind::InvalidState, "The cursor has no effective key to update"),
            ),
        }
    }

    /// The range that `delete` removes, the one effective key, or why it cannot.
    pub fn delete(
        &self,
        transaction: &TransactionStatus,
        status: &SourceStatus,
    ) -> (result: Result<IndexedDBKeyRange, Error>)
        ensures
            match self@.write_refusal(*transaction, *status) {
                Some(refusal) => failed(result, refusal),
                None => match self@.effective_key() {
                    Some(key) => result matches Ok(range) && range@ == (RangeView {
                        lower: Some(key),
                        upper: Some(key),
                        lower_open: false,
                        upper_open: false,
                    }),
                    None => failed(
                        result,
                        says(
                            ErrorKind::InvalidState,
                            "The cursor has no effective key to delete"@,
                        ),
                    ),
                },
            },
    {
        match self.check_writable(transaction, status) {
            Err(error) => return Err(error),
            Ok(()) => {},
        }
        match self.effective_key() {
            Some(key) => Ok(IndexedDBKeyRange::only(key)),
            None => Err(
                Error::says(ErrorKind::InvalidState, "The cursor has no effective key to delete"),
            ),
        }
    }

    /// The `key` attribute.
    pub fn get_key(&self) -> (answer: KeyAnswer)
        ensures
            answers_key(answer, self.cached_key, self@.key),
    {
        match self.cached_key {
            Some(cached) => KeyAnswer::Cached(cached),
            None => KeyAnswer::Convert(copy_option_key(&self.key)),
        }
    }

    /// Keeps the value that `key` was converted to.
    pub fn keep_key(&mut self, value: u64)
        ensures
            final(self)@ == (CursorView { cached_key: Some(value), ..old(self)@ }),
    {
        self.cached_key = Some(value);
    }

    /// The `primaryKey` attribute.
    pub fn get_primary_key(&self) -> (answer: KeyAnswer)
        ensures
            answers_key(answer, self.cached_primary_key, self@.effective_key()),
    {
        match self.cached_primary_key {
            Some(cached) => KeyAnswer::Cached(cached),
            None => KeyAnswer::Convert(self.effective_key()),
        }
    }

    /// Keeps the value that the effective key was converted to.
    pub fn keep_primary_key(&mut self, value: u64)
        ensures
            final(self)@ == (CursorView { cached_primary_key: Some(value), ..old(self)@ }),
    {
        self.cached_primary_key = Some(value);
    }

    /// The `request` attribute.
    pub fn get_request(&self) -> (result: Result<u64, Error>)
        ensures
            match self.request {
                Some(request) => result == Ok::<u64, Error>(request),
                None => failed(
                    result,
                    says(ErrorKind::InvalidState, "The cursor has no request"@),
                ),
            },
    {
        match self.request {
            Some(request) => Ok(request),
            None => Err(Error::says(ErrorKind::InvalidState, "The cursor has no request")),
        }
    }
}

impl CursorView {
    /// Why the cursor cannot be iterated now, if it cannot.
    pub open spec fn iteration_refusal(
        self,
        transaction: TransactionStatus,
        status: SourceStatus,
    ) -> Option<ErrorView> {
        if !transaction.accepts_requests() {
            Some(plain(ErrorKind::TransactionInactive))
        } else if !status.intact(self.source) {
            Some(status.complaint())
        } else if !self.got_value {
            Some(says(ErrorKind::InvalidState, "The cursor is already iterating"@))
        } else {
            None
        }
    }

    /// Why `continuePrimaryKey` cannot run now, if it cannot.
    pub open spec fn primary_key_refusal(
        self,
        transaction: TransactionStatus,
        status: SourceStatus,
    ) -> Option<ErrorView> {
        if !transaction.accepts_requests() {
            Some(plain(ErrorKind::TransactionInactive))
        } else if !status.intact(self.source) {
            Some(status.complaint())
        } else if self.source != ObjectStoreOrIndex::Index {
            Some(
                says(
                    ErrorKind::InvalidAccess,
                    "continuePrimaryKey() requires an index cursor"@,
                ),
            )
        } else if self.direction != IDBCursorDirection::Next && self.direction
            != IDBCursorDirection::Prev {
            Some(
                says(
                    ErrorKind::InvalidAccess,
                    "continuePrimaryKey() requires direction next or prev"@,
                ),
            )
        } else if !self.got_value {
            Some(says(ErrorKind::InvalidState, "The cursor is already iterating"@))
        } else {
            None
        }
    }

    /// Why nothing can be written through the cursor now, if nothing can.
    pub open spec fn write_refusal(
        self,
        transaction: TransactionStatus,
        status: SourceStatus,
    ) -> Option<ErrorView> {
        if !transaction.accepts_requests() {
            Some(plain(ErrorKind::TransactionInactive))
        } else if transaction.mode == IDBTransactionMode::Readonly {
            Some(plain(ErrorKind::ReadOnly))
        } else if !status.intact(self.source) {
            Some(status.complaint())
        } else if !self.got_value {
            Some(says(ErrorKind::InvalidState, "The cursor is already iterating"@))
        } else if self.key_only {
            Some(says(ErrorKind::InvalidState, "A key-only cursor has no value to write"@))
        } else {
            None
        }
    }
}

/// A search ends at one record at most, and at none where it selects none.
pub proof fn search_is_deterministic(search: Search, records: Seq<RecordView>, i: int, j: int)
    requires
        search.finds(records, i),
    ensures
        search.finds(records, j) ==> i == j,
        !search.misses(records),
        0 <= i < records.len(),
{
    if search.direction == IDBCursorDirection::Prevunique {
        let t = choose|t: int| #[trigger]
            search.last(records, t) && first_of_key(records, records[t].key, i);
        if search.finds(records, j) {
            let u = choose|u: int| #[trigger]
                search.last(records, u) && first_of_key(records, records[u].key, j);
            assert(t == u);
        }
    }
}

/// The record that a search ends at lies in the cursor's range.
pub proof fn search_stays_in_range(search: Search, records: Seq<RecordView>, i: int)
    requires
        search.finds(records, i),
    ensures
        search.range.covers(records[i].key),
{
}

/// An iteration moves the cursor in its direction. The key never moves backwards; it moves on
/// strictly on an object store and for the unique directions, and on an index a record of the same
/// key is followed by one whose primary key lies further on.
pub proof fn search_moves_on(search: Search, records: Seq<RecordView>, i: int, position: Seq<u8>)
    requires
        search.finds(records, i),
        search.position == Some(position),
    ensures
        search.direction == IDBCursorDirection::Nextunique ==> key_lt(position, records[i].key),
        search.direction == IDBCursorDirection::Prevunique ==> key_lt(records[i].key, position),
        search.direction == IDBCursorDirection::Next ==> key_lt(position, records[i].key) || (
        search.source == ObjectStoreOrIndex::Index && records[i].key == position && (
        search.object_store_position matches Some(p) && key_lt(p, records[i].primary_key))),
        search.direction == IDBCursorDirection::Prev ==> key_lt(records[i].key, position) || (
        search.source == ObjectStoreOrIndex::Index && records[i].key == position && (
        search.object_store_position matches Some(p) && key_lt(records[i].primary_key, p))),
{
}

/// The records of an index, or of an object store, where a record's key is its primary key.
pub open spec fn records_of(source: ObjectStoreOrIndex, records: Seq<RecordView>) -> bool {
    in_record_order(records) && (source == ObjectStoreOrIndex::ObjectStore ==> forall|i: int|
        0 <= i < records.len() ==> (#[trigger] records[i]).key == records[i].primary_key)
}

/// `continue()` on a "next" cursor that stands on one record goes to the record that follows it:
/// none is skipped and none comes twice.
pub proof fn next_visits_the_following_record(search: Search, records: Seq<RecordView>, i: int)
    requires
        records_of(search.source, records),
        search.direction == IDBCursorDirection::Next,
        search.key is None,
        search.primary_key is None,
        0 <= i,
        i + 1 < records.len(),
        search.range.covers(records[i + 1].key),
    ensures
        search.at(records[i]).finds(records, i + 1),
{
    let from = search.at(records[i]);
    assert(record_lt(records[i], records[i + 1]));
    assert(from.selects(records[i + 1]));
    assert forall|j: int| 0 <= j < i + 1 implies !from.selects(#[trigger] records[j]) by {
        if j < i {
            assert(record_lt(records[j], records[i]));
        }
        order_excludes(records[j], records[i]);
    }
}

/// `continue()` on a "prev" cursor that stands on one record goes to the record before it.
pub proof fn prev_visits_the_preceding_record(search: Search, records: Seq<RecordView>, i: int)
    requires
        records_of(search.source, records),
        search.direction == IDBCursorDirection::Prev,
        search.key is None,
        search.primary_key is None,
        0 < i < records.len(),
        search.range.covers(records[i - 1].key),
    ensures
        search.at(records[i]).finds(records, i - 1),
{
    let from = search.at(records[i]);
    assert(record_lt(records[i - 1], records[i]));
    assert(from.selects(records[i - 1]));
    assert forall|j: int| i - 1 < j < records.len() implies !from.selects(#[trigger] records[j]) by {
        if i < j {
            assert(record_lt(records[i], records[j]));
        }
        order_excludes(records[i], records[j]);
    }
}

/// Where `a` does not come after `b`, `b` does not come before `a`.
pub(crate) proof fn order_excludes(a: RecordView, b: RecordView)
    requires
        a == b || record_lt(a, b),
    ensures
        !key_lt(b.key, a.key),
        a.key == b.key ==> !key_lt(b.primary_key, a.primary_key),
        key_lt(a.key, b.key) ==> a.key != b.key,
{
    key_lt_irreflexive(a.key);
    key_lt_irreflexive(a.primary_key);
    if key_lt(a.key, b.key) {
        key_lt_asymmetric(a.key, b.key);
    }
    if key_lt(a.primary_key, b.primary_key) {
        key_lt_asymmetric(a.primary_key, b.primary_key);
    }
}

/// A walk leads to one record at most, and a walk that leads somewhere has not run out.
pub proof fn walk_is_deterministic(
    search: Search,
    records: Seq<RecordView>,
    count: nat,
    i: int,
    j: int,
)
    requires
        search.walks(records, count, i),
    ensures
        search.walks(records, count, j) ==> i == j,
        !search.runs_out(records, count),
{
    let a = choose|path: Seq<int>| #[trigger]
        search.follows(records, path) && path.len() == count && count > 0 && path.last() == i;
    if search.walks(records, count, j) {
        let b = choose|path: Seq<int>| #[trigger]
            search.follows(records, path) && path.len() == count && count > 0 && path.last() == j;
        paths_agree(search, records, a, b, count as int);
    }
    if search.runs_out(records, count) {
        let b = choose|path: Seq<int>| #[trigger]
            search.follows(records, path) && path.len() < count && search.after(
                records,
                path,
                path.len() as int,
            ).misses(records);
        let n = b.len() as int;
        paths_agree(search, records, a, b, n);
        assert(search.after(records, a, n) == search.after(records, b, n));
        let found = a[n];
        assert(search.steps(records, a, n));
        search_is_deterministic(search.after(records, a, n), records, found, found);
    }
}

/// Two paths of one search have the same first `n` records.
proof fn paths_agree(
    search: Search,
    records: Seq<RecordView>,
    a: Seq<int>,
    b: Seq<int>,
    n: int,
)
    requires
        search.follows(records, a),
        search.follows(records, b),
        0 <= n <= a.len(),
        n <= b.len(),
    ensures
        forall|k: int| 0 <= k < n ==> a[k] == b[k],
    decreases n,
{
    if n > 0 {
        paths_agree(search, records, a, b, n - 1);
        assert(search.after(records, a, n - 1) == search.after(records, b, n - 1));
        assert(search.steps(records, a, n - 1) && search.steps(records, b, n - 1));
        let found_a = a[n - 1];
        let found_b = b[n - 1];
        search_is_deterministic(search.after(records, a, n - 1), records, found_a, found_b);
    }
}

/// `advance(m + n)` leads where `advance(m)` followed by `advance(n)` leads.
pub proof fn advance_composes(
    search: Search,
    records: Seq<RecordView>,
    m: nat,
    k: int,
    n: nat,
    i: int,
)
    requires
        search.walks(records, m, k),
        search.at(records[k]).walks(records, n, i),
    ensures
        search.walks(records, m + n, i),
{
    let first = choose|path: Seq<int>| #[trigger]
        search.follows(records, path) && path.len() == m && m > 0 && path.last() == k;
    let middle = search.at(records[k]);
    let second = choose|path: Seq<int>| #[trigger]
        middle.follows(records, path) && path.len() == n && n > 0 && path.last() == i;
    let whole = first + second;
    assert forall|j: int| 0 <= j < whole.len() implies #[trigger] search.steps(
        records,
        whole,
        j,
    ) by {
        if j < m {
            assert(search.steps(records, first, j));
            assert(search.after(records, whole, j) == search.after(records, first, j));
        } else {
            let r = j - m;
            assert(middle.steps(records, second, r));
            assert(search.after(records, whole, j) == middle.after(records, second, r));
        }
    }
    assert(search.follows(records, whole));
    assert(whole.last() == i);
}

} // verus!
