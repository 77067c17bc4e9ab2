//! Storing a record.

use vstd::prelude::*;
use vstd::string::*;

use crate::indexeddb::engine::command::{push_command, writes, Command, Write};
use crate::indexeddb::engine::model::{
    values_view, IndexModel, PutItemResult, Statement, StatementView, Value, ValueView,
};
use crate::indexeddb::engine::tables::IndexRow;
use crate::indexeddb::key::{copy_bytes, key_lt_irreflexive, order_of, IndexedDBKeyType, KeyOrder};
use crate::indexeddb::operation::KvsIndexUpdate;

verus! {

/// What a write asks the tables before it decides.
#[derive(Debug)]
pub enum Question {
    /// Does the store have an object under this key?
    Object { store_id: i32, key: Vec<u8> },
    /// Which index of the store has this name?
    Index { store_id: i32, name: String },
    /// Which object does the unique index hold this index key for?
    Holder { index_id: i32, value: Vec<u8> },
}

/// What a question is.
pub enum QuestionView {
    Object { store_id: int, key: Seq<u8> },
    Index { store_id: int, name: Seq<char> },
    Holder { index_id: int, value: Seq<u8> },
}

impl View for Question {
    type V = QuestionView;

    open spec fn view(&self) -> QuestionView {
        match self {
            Question::Object { store_id, key } => QuestionView::Object {
                store_id: *store_id as int,
                key: key@,
            },
            Question::Index { store_id, name } => QuestionView::Index {
                store_id: *store_id as int,
                name: name@,
            },
            Question::Holder { index_id, value } => QuestionView::Holder {
                index_id: *index_id as int,
                value: value@,
            },
        }
    }
}

impl QuestionView {
    /// The statement that asks the question.
    pub open spec fn statement(self) -> StatementView {
        match self {
            QuestionView::Object { store_id, key } => StatementView {
                sql: "SELECT * FROM object_data WHERE key = ? AND object_store_id = ?"@,
                values: seq![ValueView::Blob(key), ValueView::Integer(store_id)],
            },
            QuestionView::Index { store_id, name } => StatementView {
                sql: "SELECT * FROM object_store_index WHERE object_store_id = ? AND name = ?"@,
                values: seq![ValueView::Integer(store_id), ValueView::Text(name)],
            },
            QuestionView::Holder { index_id, value } => StatementView {
                sql: "SELECT object_data_key FROM unique_index_data WHERE index_id = ? AND value = ?"@,
                values: seq![ValueView::Integer(index_id), ValueView::Blob(value)],
            },
        }
    }
}

impl Question {
    /// The statement that asks the question.
    pub fn statement(&self) -> (statement: Statement)
        ensures
            statement@ == self@.statement(),
    {
        let statement = match self {
            Question::Object { store_id, key } => Statement {
                sql: "SELECT * FROM object_data WHERE key = ? AND object_store_id = ?".to_owned(),
                values: vec![Value::Blob(copy_bytes(key)), Value::Integer(*store_id as i64)],
            },
            Question::Index { store_id, name } => Statement {
                sql: "SELECT * FROM object_store_index WHERE object_store_id = ? AND name = ?".to_owned(),
                values: vec![Value::Integer(*store_id as i64), Value::Text(name.clone())],
            },
            Question::Holder { index_id, value } => Statement {
                sql: "SELECT object_data_key FROM unique_index_data WHERE index_id = ? AND value = ?".to_owned(),
                values: vec![Value::Integer(*index_id as i64), Value::Blob(copy_bytes(value))],
            },
        };
        assert(values_view(statement.values@) =~= self@.statement().values);
        statement
    }
}

/// The answer to a question.
#[derive(Debug)]
pub enum Answer {
    /// Whether the store has the object.
    Object(bool),
    /// The index, if the store has one of that name.
    Index(Option<IndexModel>),
    /// The primary key of the object that the index key is held for, if it is held.
    Holder(Option<Vec<u8>>),
}

/// What an index is to the records.
pub open spec fn row_of(index: Option<IndexModel>) -> Option<IndexRow> {
    match index {
        Some(index) => Some(IndexRow { id: index.id as int, unique: index.unique_index }),
        None => None,
    }
}

/// What a list of indexes is to the records.
pub open spec fn rows_of(indexes: Seq<Option<IndexModel>>) -> Seq<Option<IndexRow>> {
    indexes.map_values(|index: Option<IndexModel>| row_of(index))
}

/// The name of an index and the keys that a record has in it.
pub struct UpdateView {
    pub name: Seq<char>,
    pub keys: Seq<Seq<u8>>,
}

/// What each of the keys is.
pub open spec fn keys_view(keys: Seq<IndexedDBKeyType>) -> Seq<Seq<u8>> {
    keys.map_values(|key: IndexedDBKeyType| key@)
}

/// What an index update says.
pub open spec fn update_view(update: KvsIndexUpdate) -> UpdateView {
    UpdateView { name: update.index_name@, keys: keys_view(update.keys@) }
}

/// What the index updates say.
pub open spec fn updates_view(updates: Seq<KvsIndexUpdate>) -> Seq<UpdateView> {
    updates.map_values(|update: KvsIndexUpdate| update_view(update))
}

/// The index records that one index takes of an object: one for each key, none where the store
/// has no such index.
pub open spec fn record_writes(
    store_id: int,
    primary_key: Seq<u8>,
    keys: Seq<Seq<u8>>,
    row: Option<IndexRow>,
) -> Seq<Write> {
    match row {
        Some(row) => Seq::new(
            keys.len(),
            |i: int|
                Write::PutIndexRecord {
                    unique: row.unique,
                    index_id: row.id,
                    value: keys[i],
                    store_id,
                    primary_key,
                },
        ),
        None => seq![],
    }
}

/// The index records that all indexes take of an object.
pub open spec fn all_record_writes(
    store_id: int,
    primary_key: Seq<u8>,
    updates: Seq<UpdateView>,
    rows: Seq<Option<IndexRow>>,
) -> Seq<Write>
    decreases updates.len(),
{
    if updates.len() == 0 {
        seq![]
    } else {
        let n = updates.len() - 1;
        all_record_writes(store_id, primary_key, updates.drop_last(), rows) + record_writes(
            store_id,
            primary_key,
            updates[n].keys,
            rows[n],
        )
    }
}

/// Dropping every index record that points at the object, in both tables.
pub open spec fn drop_writes(store_id: int, primary_key: Seq<u8>) -> Seq<Write> {
    seq![
        Write::DropRecordsOfObject { unique: false, store_id, primary_key },
        Write::DropRecordsOfObject { unique: true, store_id, primary_key },
    ]
}

/// The index records of an object, replaced: the old ones dropped, the new ones written.
pub open spec fn replace_writes(
    store_id: int,
    primary_key: Seq<u8>,
    updates: Seq<UpdateView>,
    rows: Seq<Option<IndexRow>>,
) -> Seq<Write> {
    drop_writes(store_id, primary_key) + all_record_writes(store_id, primary_key, updates, rows)
}

/// Everything that storing a record writes.
pub open spec fn put_writes(
    store_id: int,
    key: Seq<u8>,
    value: Seq<u8>,
    exists_already: bool,
    updates: Seq<UpdateView>,
    rows: Seq<Option<IndexRow>>,
    generator: Option<i64>,
) -> Seq<Write> {
    let object = if exists_already {
        seq![Write::UpdateObject { store_id, key, data: value }]
    } else {
        seq![Write::InsertObject { store_id, key, data: value }]
    };
    let stored = object + replace_writes(store_id, key, updates, rows);
    match generator {
        Some(number) => stored.push(Write::SetGenerator { store_id, number: number as int }),
        None => stored,
    }
}

/// Drops every index record that points at any of the objects.
pub fn delete_index_records(store_id: i32, primary_keys: &Vec<Vec<u8>>) -> (commands: Vec<Command>)
    ensures
        writes(commands@) == drop_all_writes(store_id as int, primary_keys@),
{
    let mut commands: Vec<Command> = Vec::new();
    let mut i: usize = 0;
    assert(primary_keys@.take(0) =~= seq![]);
    assert(writes(commands@) =~= seq![]);
    while i < primary_keys.len()
        invariant
            i <= primary_keys.len(),
            writes(commands@) == drop_all_writes(store_id as int, primary_keys@.take(i as int)),
        decreases primary_keys.len() - i,
    {
        let ghost before = writes(commands@);
        push_command(
            &mut commands,
            Command::DropRecordsOfObject {
                unique: false,
                store_id,
                primary_key: copy_bytes(&primary_keys[i]),
            },
        );
        push_command(
            &mut commands,
            Command::DropRecordsOfObject {
                unique: true,
                store_id,
                primary_key: copy_bytes(&primary_keys[i]),
            },
        );
        assert(primary_keys@.take(i + 1).drop_last() =~= primary_keys@.take(i as int));
        assert(writes(commands@) =~= before + drop_writes(
            store_id as int,
            primary_keys[i as int]@,
        ));
        i += 1;
    }
    assert(primary_keys@.take(i as int) =~= primary_keys@);
    commands
}

/// Dropping every index record that points at any of the objects.
pub open spec fn drop_all_writes(store_id: int, primary_keys: Seq<Vec<u8>>) -> Seq<Write>
    decreases primary_keys.len(),
{
    if primary_keys.len() == 0 {
        seq![]
    } else {
        drop_all_writes(store_id, primary_keys.drop_last()) + drop_writes(
            store_id,
            primary_keys.last()@,
        )
    }
}

/// Replaces the index records that point at an object. `indexes` holds, for each update, the
/// index of that name.
pub fn replace_index_records(
    store_id: i32,
    primary_key: &Vec<u8>,
    updates: &Vec<KvsIndexUpdate>,
    indexes: &Vec<Option<IndexModel>>,
) -> (commands: Vec<Command>)
    requires
        indexes.len() == updates.len(),
    ensures
        writes(commands@) == replace_writes(
            store_id as int,
            primary_key@,
            updates_view(updates@),
            rows_of(indexes@),
        ),
{
    let mut commands: Vec<Command> = Vec::new();
    assert(writes(commands@) =~= seq![]);
    push_command(
        &mut commands,
        Command::DropRecordsOfObject {
            unique: false,
            store_id,
            primary_key: copy_bytes(primary_key),
        },
    );
    push_command(
        &mut commands,
        Command::DropRecordsOfObject {
            unique: true,
            store_id,
            primary_key: copy_bytes(primary_key),
        },
    );
    let ghost all = updates_view(updates@);
    let ghost rows = rows_of(indexes@);
    let ghost drops = drop_writes(store_id as int, primary_key@);
    assert(writes(commands@) =~= drops);
    assert(all.take(0) =~= seq![]);
    assert(drops + all_record_writes(store_id as int, primary_key@, all.take(0), rows) =~= drops);
    let mut u: usize = 0;
    while u < updates.len()
        invariant
            u <= updates.len() == indexes.len(),
            all == updates_view(updates@),
            rows == rows_of(indexes@),
            drops == drop_writes(store_id as int, primary_key@),
            writes(commands@) == drops + all_record_writes(
                store_id as int,
                primary_key@,
                all.take(u as int),
                rows,
            ),
        decreases updates.len() - u,
    {
        let ghost before = writes(commands@);
        let ghost keys = keys_view(updates[u as int].keys@);
        if let Some(index) = &indexes[u] {
            let ghost row = row_of(indexes[u as int]);
            let ghost records = record_writes(store_id as int, primary_key@, keys, row);
            let mut k: usize = 0;
            assert(before + records.take(0) =~= before);
            while k < updates[u].keys.len()
                invariant
                    k <= updates[u as int].keys.len(),
                    u < updates.len() == indexes.len(),
                    indexes[u as int] == Some(*index),
                    keys == keys_view(updates[u as int].keys@),
                    row == row_of(indexes[u as int]),
                    records == record_writes(store_id as int, primary_key@, keys, row),
                    writes(commands@) == before + records.take(k as int),
                decreases updates[u as int].keys.len() - k,
            {
                let key = &updates[u].keys[k];
                let ghost so_far = writes(commands@);
                push_command(
                    &mut commands,
                    Command::PutIndexRecord {
                        unique: index.unique_index,
                        index_id: index.id,
                        value: copy_bytes(&key.encoded),
                        store_id,
                        primary_key: copy_bytes(primary_key),
                    },
                );
                assert(keys[k as int] == key@);
                assert(records.take(k + 1) =~= records.take(k as int).push(records[k as int]));
                assert(writes(commands@) =~= before + records.take(k + 1));
                k += 1;
            }
            assert(records.take(k as int) =~= records);
        } else {
            assert(before + record_writes(store_id as int, primary_key@, keys, rows[u as int])
                =~= before);
        }
        assert(all.take(u + 1).drop_last() =~= all.take(u as int));
        assert(all.take(u + 1)[u as int] == update_view(updates[u as int]));
        assert(rows[u as int] == row_of(indexes[u as int]));
        assert(writes(commands@) =~= drops + all_record_writes(
            store_id as int,
            primary_key@,
            all.take(u + 1),
            rows,
        ));
        u += 1;
    }
    assert(all.take(u as int) =~= all);
    commands
}

/// A `put` under way: what was asked for, and what the tables have answered so far.
#[derive(Debug)]
pub struct PutItem {
    pub store_id: i32,
    pub key: Vec<u8>,
    pub value: Vec<u8>,
    pub should_overwrite: bool,
    pub generator: Option<i64>,
    pub updates: Vec<KvsIndexUpdate>,
    /// Whether the store has an object under the key, once that is known.
    pub exists: Option<bool>,
    /// The indexes of the first updates.
    pub indexes: Vec<Option<IndexModel>>,
    /// How many keys of the last of those updates are known to be free.
    pub checked: usize,
}

/// What a `put` does next.
#[derive(Debug)]
pub enum PutStep {
    /// Asks the tables.
    Ask(Question),
    /// Runs the commands in order, and answers with the result where all succeed.
    Finish { result: PutItemResult, commands: Vec<Command> },
}

impl PutItem {
    /// The answers fit what was asked for.
    pub open spec fn wf(self) -> bool {
        &&& self.indexes.len() <= self.updates.len()
        &&& self.indexes.len() > 0 ==> self.exists is Some && self.checked
            <= self.updates[self.indexes.len() - 1].keys.len()
    }

    /// What has to be asked next, if anything: whether the object exists; for a unique index
    /// whether each key is free; which index the next update is about.
    pub open spec fn question(self) -> Option<QuestionView> {
        let n = self.indexes.len() - 1;
        if self.exists is None {
            Some(QuestionView::Object { store_id: self.store_id as int, key: self.key@ })
        } else if n >= 0 && (self.indexes[n] matches Some(index) && index.unique_index)
            && self.checked < self.updates[n].keys.len() {
            Some(
                QuestionView::Holder {
                    index_id: self.indexes[n]->0.id as int,
                    value: self.updates[n].keys[self.checked as int]@,
                },
            )
        } else if self.indexes.len() < self.updates.len() {
            Some(
                QuestionView::Index {
                    store_id: self.store_id as int,
                    name: self.updates[self.indexes.len() as int].index_name@,
                },
            )
        } else {
            None
        }
    }

    /// The step is the one that the answers so far lead to: the next question, or the writes of
    /// the record. A record that exists is not overwritten unless that was asked for.
    pub open spec fn leads_to(self, step: PutStep) -> bool {
        match self.question() {
            Some(question) => step matches PutStep::Ask(asked) && asked@ == question,
            None => if self.exists == Some(true) && !self.should_overwrite {
                step matches PutStep::Finish { result, commands } && result is CannotOverwrite
                    && writes(commands@) == Seq::<Write>::empty()
            } else {
                step matches PutStep::Finish { result, commands } && (
                result matches PutItemResult::Key(key) && key@ == self.key@) && writes(commands@)
                    == put_writes(
                    self.store_id as int,
                    self.key@,
                    self.value@,
                    self.exists == Some(true),
                    updates_view(self.updates@),
                    rows_of(self.indexes@),
                    self.generator,
                )
            },
        }
    }

    /// The same request, with what the tables have answered.
    pub open spec fn same_request(self, other: PutItem) -> bool {
        &&& self.store_id == other.store_id
        &&& self.key == other.key
        &&& self.value == other.value
        &&& self.should_overwrite == other.should_overwrite
        &&& self.generator == other.generator
        &&& self.updates == other.updates
    }

    /// `after` has taken in the answer to this state's question.
    pub open spec fn learns(self, answer: Answer, after: PutItem) -> bool {
        &&& after.same_request(self)
        &&& match answer {
            Answer::Object(exists) => {
                &&& after.exists == Some(exists)
                &&& after.indexes == self.indexes
                &&& after.checked == self.checked
            },
            Answer::Index(index) => {
                &&& after.exists == self.exists
                &&& after.indexes@ == self.indexes@.push(index)
                &&& after.checked == 0
            },
            Answer::Holder(_) => {
                &&& after.exists == self.exists
                &&& after.indexes == self.indexes
                &&& after.checked == self.checked + 1
            },
        }
    }

    /// The answer is one to this state's question.
    pub open spec fn expects(self, answer: Answer) -> bool {
        match self.question() {
            Some(QuestionView::Object { .. }) => answer is Object,
            Some(QuestionView::Index { .. }) => answer is Index,
            Some(QuestionView::Holder { .. }) => answer is Holder,
            None => false,
        }
    }

    /// The answer says that a unique index holds a key of the record for another object.
    pub open spec fn collides(self, answer: Answer) -> bool {
        answer matches Answer::Holder(Some(held)) && held@ != self.key@
    }

    /// Starts a `put`.
    pub fn new(
        store_id: i32,
        key: Vec<u8>,
        value: Vec<u8>,
        should_overwrite: bool,
        key_generator_current_number: Option<i64>,
        index_updates: Vec<KvsIndexUpdate>,
    ) -> (put: Self)
        ensures
            put.wf(),
            put.store_id == store_id,
            put.key == key,
            put.value == value,
            put.should_overwrite == should_overwrite,
            put.generator == key_generator_current_number,
            put.updates == index_updates,
            put.exists is None,
            put.indexes@.len() == 0,
    {
        PutItem {
            store_id,
            key,
            value,
            should_overwrite,
            generator: key_generator_current_number,
            updates: index_updates,
            exists: None,
            indexes: Vec::new(),
            checked: 0,
        }
    }

    /// What the answers so far lead to.
    pub fn next(&self) -> (step: PutStep)
        requires
            self.wf(),
        ensures
            self.leads_to(step),
    {
        let exists = match self.exists {
            None => {
                return PutStep::Ask(
                    Question::Object { store_id: self.store_id, key: copy_bytes(&self.key) },
                );
            },
            Some(exists) => exists,
        };
        let resolved: usize = self.indexes.len();
        if resolved > 0 {
            let keys = &self.updates[resolved - 1].keys;
            match &self.indexes[resolved - 1] {
                Some(index) => if index.unique_index && self.checked < keys.len() {
                    return PutStep::Ask(
                        Question::Holder {
                            index_id: index.id,
                            value: copy_bytes(&keys[self.checked].encoded),
                        },
                    );
                },
                None => {},
            }
        }
        if resolved < self.updates.len() {
            return PutStep::Ask(
                Question::Index {
                    store_id: self.store_id,
                    name: self.updates[resolved].index_name.clone(),
                },
            );
        }
        let mut commands: Vec<Command> = Vec::new();
        assert(writes(commands@) =~= seq![]);
        if exists {
            if !self.should_overwrite {
                return PutStep::Finish { result: PutItemResult::CannotOverwrite, commands };
            }
            push_command(
                &mut commands,
                Command::UpdateObject {
                    store_id: self.store_id,
                    key: copy_bytes(&self.key),
                    data: copy_bytes(&self.value),
                },
            );
        } else {
            push_command(
                &mut commands,
                Command::InsertObject {
                    store_id: self.store_id,
                    key: copy_bytes(&self.key),
                    data: copy_bytes(&self.value),
                },
            );
        }
        let ghost object = writes(commands@);
        let mut records = replace_index_records(
            self.store_id,
            &self.key,
            &self.updates,
            &self.indexes,
        );
        let ghost replaced = writes(records@);
        let ghost stored = commands@;
        let ghost written = records@;
        commands.append(&mut records);
        assert(writes(commands@) =~= object + replaced);
        match self.generator {
            Some(number) => {
                push_command(
                    &mut commands,
                    Command::SetGenerator { store_id: self.store_id, number },
                );
            },
            None => {},
        }
        assert(writes(commands@) =~= put_writes(
            self.store_id as int,
            self.key@,
            self.value@,
            exists,
            updates_view(self.updates@),
            rows_of(self.indexes@),
            self.generator,
        ));
        let key = IndexedDBKeyType { encoded: copy_bytes(&self.key) };
        PutStep::Finish { result: PutItemResult::Key(key), commands }
    }

    /// Takes in an answer. A key that a unique index holds for another object ends the `put`
    /// before anything is written; any other answer leads on. An answer to something that was not
    /// asked is passed over.
    pub fn resume(&mut self, answer: Answer) -> (step: PutStep)
        requires
            old(self).wf(),
        ensures
            final(self).wf(),
            final(self).same_request(*old(self)),
            if !old(self).expects(answer) {
                *final(self) == *old(self) && old(self).leads_to(step)
            } else if old(self).collides(answer) {
                &&& *final(self) == *old(self)
                &&& step matches PutStep::Finish { result, commands } && writes(commands@)
                    == Seq::<Write>::empty() && (result matches PutItemResult::IndexConstraintViolated(
                    name,
                ) && name@ == old(self).updates[old(self).indexes.len() - 1].index_name@)
            } else {
                old(self).learns(answer, *final(self)) && final(self).leads_to(step)
            },
    {
        match self.next() {
            PutStep::Ask(question) => {
                match (question, answer) {
                    (Question::Object { .. }, Answer::Object(exists)) => {
                        self.exists = Some(exists);
                    },
                    (Question::Index { .. }, Answer::Index(index)) => {
                        self.indexes.push(index);
                        self.checked = 0;
                    },
                    (Question::Holder { .. }, Answer::Holder(holder)) => {
                        if let Some(held) = holder {
                            if !same_bytes(&held, &self.key) {
                                let commands: Vec<Command> = Vec::new();
                                assert(writes(commands@) =~= seq![]);
                                let last: usize = self.indexes.len() - 1;
                                return PutStep::Finish {
                                    result: PutItemResult::IndexConstraintViolated(
                                        self.updates[last].index_name.clone(),
                                    ),
                                    commands,
                                };
                            }
                        }
                        self.checked = self.checked + 1;
                    },
                    _ => {},
                }
            },
            PutStep::Finish { .. } => {},
        }
        self.next()
    }
}

/// Whether two byte strings are equal.
pub(crate) fn same_bytes(a: &Vec<u8>, b: &Vec<u8>) -> (same: bool)
    ensures
        same == (a@ == b@),
{
    let order = order_of(a, b);
    proof {
        key_lt_irreflexive(a@);
    }
    order == KeyOrder::Equal
}

} // verus!
