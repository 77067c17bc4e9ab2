//! Carrying a request out: which statements run in which order, and what the request is answered.

use vstd::prelude::*;

use crate::indexeddb::engine::backfill::{Backfill, BackfillStep};
use crate::indexeddb::engine::command::{writes, Command};
use crate::indexeddb::engine::dispatch::{
    decode_key, delete_item, first_primary_key, first_value, request_records, row_view, RecordKey,
    SourceRecord, Work,
};
use crate::indexeddb::engine::model::{
    is_corrupt_storage, request_error, BackendError, BackfillIndexResult, EngineError, IndexModel,
    PutItemResult, Statement, StoreModel,
};
use crate::indexeddb::engine::put::{
    drop_all_writes, Answer, PutItem, PutStep, Question, QuestionView,
};
use crate::indexeddb::engine::query::{
    self, built_select, count_clauses, get_clauses, index_count_statement, index_records_statement,
    range_deletion, records_clauses, BuiltQuery,
};
use crate::indexeddb::engine::stores::{
    self, clear_writes, delete_index_statements, delete_store_statements, statements_view, with_one,
    with_two,
};
use crate::indexeddb::engine::model::{StatementView, ValueView};
use crate::indexeddb::key::{option_key, IndexedDBKeyRange, IndexedDBKeyType, RangeView};
use crate::indexeddb::operation::KvsOperationTarget;
use crate::indexeddb::record::{records_view, IndexedDBRecord, RecordsShape};

verus! {

/// A read of records or of a number.
#[derive(Debug)]
pub enum ReadQuery {
    Built(BuiltQuery),
    Plain(Statement),
}

/// One row of `object_data`.
#[derive(Debug)]
pub struct ObjectRow {
    pub key: Vec<u8>,
    pub data: Vec<u8>,
    /// Whether the bytes of `key` stand for a key.
    pub key_decodes: bool,
}

/// What a job does next.
#[derive(Debug)]
pub enum JobStep {
    /// Asks the tables.
    Ask(Question),
    /// Reads records. With `RecordsShape::KeysOnly` no value column is selected.
    ReadRecords(ReadQuery, RecordsShape),
    /// Reads one row of `object_data`, if one comes.
    ReadObject(BuiltQuery),
    /// Reads one number.
    ReadNumber(ReadQuery),
    /// Reads whether a row comes.
    HasRow(Statement),
    /// Reads one flag.
    ReadFlag(Statement),
    /// Runs the commands in order.
    Run(Vec<Command>),
    /// Runs the deletion.
    Delete(BuiltQuery),
    /// Runs the statements in order; how many rows the last one met is handed back.
    Execute(Vec<Statement>),
    /// The request is answered.
    Reply(Reply),
}

/// What came of a step.
#[derive(Debug)]
pub enum JobEvent {
    Answered(Answer),
    Records(Vec<SourceRecord>),
    Object(Option<ObjectRow>),
    Number(i64),
    Flag(bool),
    Ran,
    Rows(usize),
    Failed(EngineError),
}

/// The answer to a request.
#[derive(Debug)]
pub enum Reply {
    Put(Result<PutItemResult, BackendError>),
    Value(Result<Option<Vec<u8>>, BackendError>),
    Key(Result<Option<IndexedDBKeyType>, BackendError>),
    Count(Result<u64, BackendError>),
    Records(Result<Vec<IndexedDBRecord>, BackendError>),
    Done(Result<(), BackendError>),
    Backfill(Result<BackfillIndexResult, BackendError>),
    /// A schema request hears of a failure only.
    Schema(Option<BackendError>),
    /// The request is refused as a whole.
    Refused(BackendError),
}

/// How the rows that a schema statement met decide.
#[derive(Clone, Copy, Debug, PartialEq, Eq, Structural)]
pub enum RowsRule {
    /// Any number will do.
    Any,
    /// There has to be one, and no more.
    ExactlyOne,
    /// There has to be one.
    AtLeastOne,
}

/// A request that is being carried out, by the step that it waits for.
#[derive(Debug)]
pub enum Job {
    Put(PutItem),
    PutWriting(PutItemResult),
    Backfill(Backfill),
    RemoveReading { store_id: i32, key_range: IndexedDBKeyRange },
    RemoveDropping { delete: BuiltQuery },
    RemoveDeleting,
    Clearing,
    ValueReading,
    ValueIndex { store_id: i32, key_range: IndexedDBKeyRange },
    ValueRecords,
    KeyReading,
    KeyIndex { store_id: i32, key_range: IndexedDBKeyRange },
    KeyRecords,
    Counting,
    CountIndex { store_id: i32, key_range: IndexedDBKeyRange },
    Iterating,
    IterateIndex {
        store_id: i32,
        key_range: IndexedDBKeyRange,
        count: Option<u32>,
        shape: RecordsShape,
    },
    CreateStore { store_name: String, key_path: Option<Vec<u8>>, auto_increment: bool },
    CreateIndex {
        store: StoreModel,
        index_name: String,
        key_path: Vec<u8>,
        unique: bool,
        multi_entry: bool,
    },
    DeleteIndex { store: StoreModel, index_name: String },
    Schema(RowsRule),
}

/// The step asks which index of the store has the name.
pub open spec fn asks_index(step: JobStep, store_id: i32, name: Seq<char>) -> bool {
    step matches JobStep::Ask(question) && question@ == (QuestionView::Index {
        store_id: store_id as int,
        name,
    })
}

/// The step reads the records of an index.
pub open spec fn reads_index(
    step: JobStep,
    index: IndexModel,
    store_id: i32,
    range: RangeView,
    count: Option<u32>,
    shape: RecordsShape,
) -> bool {
    step matches JobStep::ReadRecords(ReadQuery::Plain(statement), own) && own == shape
        && statement@ == index_records_statement(index, store_id as int, range, count, shape)
}

/// The step reads the records of a store.
pub open spec fn reads_store(
    step: JobStep,
    store_id: i32,
    range: RangeView,
    count: Option<u32>,
    shape: RecordsShape,
) -> bool {
    step matches JobStep::ReadRecords(ReadQuery::Built(query), own) && own == shape
        && query.parts() == built_select(records_clauses(store_id as int, range, count, shape))
}

/// The step reads one object of a store.
pub open spec fn reads_object(step: JobStep, store_id: i32, range: RangeView) -> bool {
    step matches JobStep::ReadObject(query) && query.parts() == built_select(
        get_clauses(store_id as int, range),
    )
}

/// The step runs the statements.
pub open spec fn executes(step: JobStep, statements: Seq<StatementView>) -> bool {
    step matches JobStep::Execute(run) && statements_view(run@) == statements
}

/// The state and step of a `put`.
pub open spec fn puts(put: PutItem, job: Option<Job>, step: JobStep) -> bool {
    match step {
        JobStep::Ask(question) => job == Some(Job::Put(put)) && put.leads_to(
            PutStep::Ask(question),
        ),
        JobStep::Run(commands) => job matches Some(Job::PutWriting(result)) && put.leads_to(
            PutStep::Finish { result, commands },
        ),
        _ => false,
    }
}

/// The state and step of a backfill.
pub open spec fn backfills(backfill: Backfill, job: Option<Job>, step: JobStep) -> bool {
    match step {
        JobStep::Ask(question) => job == Some(Job::Backfill(backfill)) && backfill.leads_to(
            BackfillStep::Ask(question),
        ),
        JobStep::Run(commands) => job == Some(Job::Backfill(backfill)) && commands@.len() == 1
            && backfill.leads_to(BackfillStep::Run(commands@[0])),
        JobStep::Reply(Reply::Backfill(Ok(result))) => job is None && backfill.leads_to(
            BackfillStep::Finish(result),
        ),
        _ => false,
    }
}

/// What a request starts with.
pub open spec fn starts(work: Work, job: Option<Job>, step: JobStep) -> bool {
    match work {
        Work::Put {
            store_id,
            key,
            value,
            should_overwrite,
            key_generator_current_number,
            index_updates,
        } => {
            &&& job matches Some(Job::Put(put)) && put.wf() && put.store_id == store_id && (
            key matches RecordKey::Given(given) && put.key@ == given@) && put.value == value
                && put.should_overwrite == should_overwrite && put.generator
                == key_generator_current_number && put.updates == index_updates && put.exists is None
                && put.leads_to(PutStep::Ask(step->Ask_0))
            &&& step is Ask
        },
        Work::RefusePut(answer) => job is None && step == JobStep::Reply(Reply::Put(answer)),
        Work::Backfill { store_id, index_name, entries } => {
            &&& job matches Some(Job::Backfill(backfill)) && backfill.wf() && backfill.store_id
                == store_id && backfill.index_name == index_name
                && crate::indexeddb::engine::backfill::pairs_view(backfill.pairs@)
                == crate::indexeddb::engine::backfill::all_pairs(entries@) && backfill.written == 0
            &&& asks_index(step, store_id, index_name@)
        },
        Work::Remove { store_id, key_range } => job == Some(
            Job::RemoveReading { store_id, key_range },
        ) && reads_store(step, store_id, key_range@, None, RecordsShape::KeysOnly),
        Work::Clear { store_id } => job == Some(Job::Clearing) && (step matches JobStep::Run(
            commands,
        ) && writes(commands@) == clear_writes(store_id as int)),
        Work::Get { store_id, target, key_range } => match target {
            KvsOperationTarget::ObjectStore => job == Some(Job::ValueReading) && reads_object(
                step,
                store_id,
                key_range@,
            ),
            KvsOperationTarget::Index { name } => job == Some(
                Job::ValueIndex { store_id, key_range },
            ) && asks_index(step, store_id, name@),
        },
        Work::GetKey { store_id, target, key_range } => match target {
            KvsOperationTarget::ObjectStore => job == Some(Job::KeyReading) && reads_object(
                step,
                store_id,
                key_range@,
            ),
            KvsOperationTarget::Index { name } => job == Some(
                Job::KeyIndex { store_id, key_range },
            ) && asks_index(step, store_id, name@),
        },
        Work::Count { store_id, target, key_range } => match target {
            KvsOperationTarget::ObjectStore => job == Some(Job::Counting) && (
            step matches JobStep::ReadNumber(ReadQuery::Built(query)) && query.parts()
                == built_select(count_clauses(store_id as int, key_range@))),
            KvsOperationTarget::Index { name } => job == Some(
                Job::CountIndex { store_id, key_range },
            ) && asks_index(step, store_id, name@),
        },
        Work::Iterate { store_id, target, key_range, count, shape } => match target {
            KvsOperationTarget::ObjectStore => job == Some(Job::Iterating) && reads_store(
                step,
                store_id,
                key_range@,
                count,
                shape,
            ),
            KvsOperationTarget::Index { name } => job == Some(
                Job::IterateIndex { store_id, key_range, count, shape },
            ) && asks_index(step, store_id, name@),
        },
        Work::CreateIndex { store, index_name, key_path, unique, multi_entry } => job == Some(
            Job::CreateIndex { store, index_name, key_path, unique, multi_entry },
        ) && (step matches JobStep::ReadFlag(statement) && statement@ == with_two(
            "SELECT EXISTS(SELECT * FROM object_store_index WHERE name = ? AND object_store_id = ?)"@,
            ValueView::Text(index_name@),
            ValueView::Integer(store.id as int),
        )),
        Work::DeleteIndex { store, index_name } => job == Some(
            Job::DeleteIndex { store, index_name },
        ) && asks_index(step, store.id, index_name@),
        Work::DeleteStore { store } => job == Some(Job::Schema(RowsRule::ExactlyOne)) && executes(
            step,
            delete_store_statements(store.id as int),
        ),
        Work::RenameStore { store, new_name } => job == Some(Job::Schema(RowsRule::AtLeastOne))
            && executes(
            step,
            seq![
                with_two(
                    "UPDATE object_store SET name = ? WHERE id = ?"@,
                    ValueView::Text(new_name@),
                    ValueView::Integer(store.id as int),
                ),
            ],
        ),
        Work::RenameIndex { store, index_name, new_name } => job == Some(
            Job::Schema(RowsRule::Any),
        ) && executes(
            step,
            seq![
                StatementView {
                    sql: "UPDATE object_store_index SET name = ? WHERE name = ? AND object_store_id = ?"@,
                    values: seq![
                        ValueView::Text(new_name@),
                        ValueView::Text(index_name@),
                        ValueView::Integer(store.id as int),
                    ],
                },
            ],
        ),
        Work::Refuse(error) => job is None && step == JobStep::Reply(Reply::Refused(error)),
    }
}

fn only(statement: Statement) -> (statements: Vec<Statement>)
    ensures
        statements_view(statements@) == seq![statement@],
{
    let statements: Vec<Statement> = vec![statement];
    assert(statements_view(statements@) =~= seq![statement@]);
    statements
}

/// Starts the creation of an object store.
pub fn start_create_store(
    store_name: String,
    key_path: Option<Vec<u8>>,
    auto_increment: bool,
) -> (result: (Job, JobStep))
    ensures
        result.0 == (Job::CreateStore { store_name, key_path, auto_increment }),
        result.1 matches JobStep::HasRow(statement) && statement@ == with_one(
            "SELECT * FROM object_store WHERE name = ?"@,
            ValueView::Text(store_name@),
        ),
{
    let statement = stores::object_store_by_name(&store_name);
    (Job::CreateStore { store_name, key_path, auto_increment }, JobStep::HasRow(statement))
}

fn ask_index(store_id: i32, name: String) -> (step: JobStep)
    ensures
        asks_index(step, store_id, name@),
{
    JobStep::Ask(Question::Index { store_id, name })
}

/// Starts carrying a request out. A record that its store's key generator names has to have its
/// key by now.
pub fn start(work: Work) -> (result: (Option<Job>, JobStep))
    requires
        work matches Work::Put { key, .. } ==> key is Given,
    ensures
        starts(work, result.0, result.1),
{
    match work {
        Work::Put {
            store_id,
            key,
            value,
            should_overwrite,
            key_generator_current_number,
            index_updates,
        } => {
            let key = match key {
                RecordKey::Given(key) => key.encoded,
                RecordKey::Generated(_) => Vec::new(),
            };
            let put = PutItem::new(
                store_id,
                key,
                value,
                should_overwrite,
                key_generator_current_number,
                index_updates,
            );
            match put.next() {
                PutStep::Ask(question) => (Some(Job::Put(put)), JobStep::Ask(question)),
                PutStep::Finish { result, commands } => (
                    Some(Job::PutWriting(result)),
                    JobStep::Run(commands),
                ),
            }
        },
        Work::RefusePut(answer) => (None, JobStep::Reply(Reply::Put(answer))),
        Work::Backfill { store_id, index_name, entries } => {
            let backfill = Backfill::new(store_id, index_name, &entries);
            match backfill.next() {
                BackfillStep::Ask(question) => (Some(Job::Backfill(backfill)), JobStep::Ask(question)),
                BackfillStep::Run(command) => (
                    Some(Job::Backfill(backfill)),
                    JobStep::Run(vec![command]),
                ),
                BackfillStep::Finish(result) => (None, JobStep::Reply(Reply::Backfill(Ok(result)))),
            }
        },
        Work::Remove { store_id, key_range } => {
            let query = query::object_store_records(
                store_id,
                &key_range,
                None,
                RecordsShape::KeysOnly,
            );
            (
                Some(Job::RemoveReading { store_id, key_range }),
                JobStep::ReadRecords(ReadQuery::Built(query), RecordsShape::KeysOnly),
            )
        },
        Work::Clear { store_id } => (Some(Job::Clearing), JobStep::Run(stores::clear(store_id))),
        Work::Get { store_id, target, key_range } => match target {
            KvsOperationTarget::ObjectStore => (
                Some(Job::ValueReading),
                JobStep::ReadObject(query::get(store_id, &key_range)),
            ),
            KvsOperationTarget::Index { name } => (
                Some(Job::ValueIndex { store_id, key_range }),
                ask_index(store_id, name),
            ),
        },
        Work::GetKey { store_id, target, key_range } => match target {
            KvsOperationTarget::ObjectStore => (
                Some(Job::KeyReading),
                JobStep::ReadObject(query::get(store_id, &key_range)),
            ),
            KvsOperationTarget::Index { name } => (
                Some(Job::KeyIndex { store_id, key_range }),
                ask_index(store_id, name),
            ),
        },
        Work::Count { store_id, target, key_range } => match target {
            KvsOperationTarget::ObjectStore => (
                Some(Job::Counting),
                JobStep::ReadNumber(ReadQuery::Built(query::count(store_id, &key_range))),
            ),
            KvsOperationTarget::Index { name } => (
                Some(Job::CountIndex { store_id, key_range }),
                ask_index(store_id, name),
            ),
        },
        Work::Iterate { store_id, target, key_range, count, shape } => match target {
            KvsOperationTarget::ObjectStore => (
                Some(Job::Iterating),
                JobStep::ReadRecords(
                    ReadQuery::Built(
                        query::object_store_records(store_id, &key_range, count, shape),
                    ),
                    shape,
                ),
            ),
            KvsOperationTarget::Index { name } => (
                Some(Job::IterateIndex { store_id, key_range, count, shape }),
                ask_index(store_id, name),
            ),
        },
        Work::CreateIndex { store, index_name, key_path, unique, multi_entry } => {
            let statement = stores::index_exists(store.id, &index_name);
            (
                Some(Job::CreateIndex { store, index_name, key_path, unique, multi_entry }),
                JobStep::ReadFlag(statement),
            )
        },
        Work::DeleteIndex { store, index_name } => {
            let step = ask_index(store.id, index_name.clone());
            (Some(Job::DeleteIndex { store, index_name }), step)
        },
        Work::DeleteStore { store } => (
            Some(Job::Schema(RowsRule::ExactlyOne)),
            JobStep::Execute(stores::delete_store(&store)),
        ),
        Work::RenameStore { store, new_name } => (
            Some(Job::Schema(RowsRule::AtLeastOne)),
            JobStep::Execute(only(stores::rename_store(&store, &new_name))),
        ),
        Work::RenameIndex { store, index_name, new_name } => (
            Some(Job::Schema(RowsRule::Any)),
            JobStep::Execute(only(stores::rename_index(&store, &index_name, &new_name))),
        ),
        Work::Refuse(error) => (None, JobStep::Reply(Reply::Refused(error))),
    }
}

impl Job {
    /// The event is one that the job waits for.
    pub open spec fn expects(self, event: JobEvent) -> bool {
        event is Failed || match self {
            Job::Put(put) => put.wf() && event is Answered,
            Job::Backfill(backfill) => backfill.wf() && (event is Answered || (event is Ran
                && backfill.awaits_write())),
            Job::PutWriting(_)
            | Job::RemoveDropping { .. }
            | Job::RemoveDeleting
            | Job::Clearing => event is Ran,
            Job::RemoveReading { .. }
            | Job::ValueRecords
            | Job::KeyRecords
            | Job::Iterating => event is Records,
            Job::ValueReading | Job::KeyReading => event is Object,
            Job::Counting => event matches JobEvent::Number(number) && number >= 0,
            Job::ValueIndex { .. }
            | Job::KeyIndex { .. }
            | Job::CountIndex { .. }
            | Job::IterateIndex { .. }
            | Job::DeleteIndex { .. } => event matches JobEvent::Answered(Answer::Index(_)),
            Job::CreateStore { .. } | Job::CreateIndex { .. } => event is Flag,
            Job::Schema(_) => event is Rows,
        }
    }
}

/// The error is a database error with this text.
pub open spec fn db_error(error: BackendError, text: Seq<char>) -> bool {
    error matches BackendError::DbErr(own) && own@ == text
}

/// The request is answered that it failed, with the description of the error.
pub open spec fn fails(job: Job, error: EngineError, step: JobStep) -> bool {
    match job {
        Job::Put(_) | Job::PutWriting(_) => step matches JobStep::Reply(Reply::Put(Err(reported)))
            && db_error(reported, error.text()),
        Job::Backfill(_) => step matches JobStep::Reply(Reply::Backfill(Err(reported))) && db_error(
            reported,
            error.text(),
        ),
        Job::RemoveReading { .. }
        | Job::RemoveDropping { .. }
        | Job::RemoveDeleting
        | Job::Clearing => step matches JobStep::Reply(Reply::Done(Err(reported))) && db_error(
            reported,
            error.text(),
        ),
        Job::ValueReading | Job::ValueIndex { .. } | Job::ValueRecords => {
            step matches JobStep::Reply(Reply::Value(Err(reported))) && db_error(
                reported,
                error.text(),
            )
        },
        Job::KeyReading | Job::KeyIndex { .. } | Job::KeyRecords => {
            step matches JobStep::Reply(Reply::Key(Err(reported))) && db_error(
                reported,
                error.text(),
            )
        },
        Job::Counting | Job::CountIndex { .. } => step matches JobStep::Reply(Reply::Count(
            Err(reported),
        )) && db_error(reported, error.text()),
        Job::Iterating | Job::IterateIndex { .. } => step matches JobStep::Reply(Reply::Records(
            Err(reported),
        )) && db_error(reported, error.text()),
        Job::CreateStore { .. }
        | Job::CreateIndex { .. }
        | Job::DeleteIndex { .. }
        | Job::Schema(_) => step matches JobStep::Reply(Reply::Schema(Some(reported))) && db_error(
            reported,
            error.text(),
        ),
    }
}

fn failed(job: &Job, error: EngineError) -> (step: JobStep)
    ensures
        fails(*job, error, step),
{
    let error = request_error(error);
    let reply = match job {
        Job::Put(_) | Job::PutWriting(_) => Reply::Put(Err(error)),
        Job::Backfill(_) => Reply::Backfill(Err(error)),
        Job::RemoveReading { .. }
        | Job::RemoveDropping { .. }
        | Job::RemoveDeleting
        | Job::Clearing => Reply::Done(Err(error)),
        Job::ValueReading | Job::ValueIndex { .. } | Job::ValueRecords => Reply::Value(Err(error)),
        Job::KeyReading | Job::KeyIndex { .. } | Job::KeyRecords => Reply::Key(Err(error)),
        Job::Counting | Job::CountIndex { .. } => Reply::Count(Err(error)),
        Job::Iterating | Job::IterateIndex { .. } => Reply::Records(Err(error)),
        Job::CreateStore { .. }
        | Job::CreateIndex { .. }
        | Job::DeleteIndex { .. }
        | Job::Schema(_) => Reply::Schema(Some(error)),
    };
    JobStep::Reply(reply)
}

/// The request is answered with a key.
pub open spec fn replies_key(step: JobStep, key: Option<Seq<u8>>) -> bool {
    step matches JobStep::Reply(Reply::Key(Ok(found))) && option_key(found)
        == key
}

/// The request is answered that a stored key cannot be read.
pub open spec fn fails_corrupt(job: Job, step: JobStep) -> bool {
    exists|error: EngineError| #[trigger]
        is_corrupt_storage(error, "key"@) && fails(job, error, step)
}

/// The keys of every row can be read.
pub open spec fn all_decode(rows: Seq<SourceRecord>) -> bool {
    forall|i: int| 0 <= i < rows.len() ==> (#[trigger] rows[i]).decodes()
}

/// The keys of the rows, in order.
pub open spec fn row_keys(rows: Seq<SourceRecord>) -> Seq<Vec<u8>> {
    rows.map_values(|row: SourceRecord| row.key)
}

/// What a job does after an event.
pub open spec fn resumes(job: Job, event: JobEvent, next: Option<Job>, step: JobStep) -> bool {
    match (job, event) {
        (_, JobEvent::Failed(error)) => next is None && fails(job, error, step),
        (Job::Put(put), JobEvent::Answered(answer)) => if !put.expects(answer) {
            puts(put, next, step)
        } else if put.collides(answer) {
            // A unique index holds a key for another object: nothing is written.
            &&& next matches Some(
                Job::PutWriting(PutItemResult::IndexConstraintViolated(name)),
            ) && name@ == put.updates[put.indexes.len() - 1].index_name@
            &&& step matches JobStep::Run(commands) && commands@.len() == 0
        } else {
            exists|after: PutItem|
                put.learns(answer, after) && after.wf() && #[trigger] puts(after, next, step)
        },
        (Job::PutWriting(result), _) => next is None && step == JobStep::Reply(
            Reply::Put(Ok(result)),
        ),
        (Job::Backfill(backfill), JobEvent::Answered(answer)) => if backfill.collides(answer) {
            next is None && step == JobStep::Reply(
                Reply::Backfill(Ok(BackfillIndexResult::UniqueConstraintViolated)),
            )
        } else {
            exists|after: Backfill|
                after.wf() && backfill.learns(answer, after) && #[trigger] backfills(
                    after,
                    next,
                    step,
                )
        },
        (Job::Backfill(backfill), _) => exists|after: Backfill|
            after.wf() && after.same_request(backfill) && after.index == backfill.index
                && after.written == backfill.written + 1 && !after.free && #[trigger] backfills(
                after,
                next,
                step,
            ),
        (Job::RemoveReading { store_id, key_range }, JobEvent::Records(rows)) => {
            &&& next matches Some(Job::RemoveDropping { delete }) && delete.parts()
                == range_deletion(store_id as int, key_range@)
            &&& step matches JobStep::Run(commands) && exists|keys: Seq<Vec<u8>>|
                keys == row_keys(rows@) && writes(commands@) == #[trigger] drop_all_writes(
                    store_id as int,
                    keys,
                )
        },
        (Job::RemoveDropping { delete }, _) => next == Some(Job::RemoveDeleting) && step
            == JobStep::Delete(delete),
        (Job::RemoveDeleting, _) => next is None && step == JobStep::Reply(Reply::Done(Ok(()))),
        (Job::Clearing, _) => next is None && step == JobStep::Reply(Reply::Done(Ok(()))),
        (Job::ValueReading, JobEvent::Object(row)) => next is None && step == JobStep::Reply(
            Reply::Value(
                Ok(
                    match row {
                        Some(row) => Some(row.data),
                        None => None,
                    },
                ),
            ),
        ),
        (
            Job::ValueIndex { store_id, key_range },
            JobEvent::Answered(Answer::Index(index)),
        ) => match index {
            Some(index) => next == Some(Job::ValueRecords) && reads_index(
                step,
                index,
                store_id,
                key_range@,
                Some(1),
                RecordsShape::WithValues,
            ),
            None => next is None && step == JobStep::Reply(Reply::Value(Ok(None))),
        },
        (Job::ValueRecords, JobEvent::Records(rows)) => next is None && step == JobStep::Reply(
            Reply::Value(
                Ok(
                    if rows@.len() == 0 {
                        None
                    } else {
                        Some(rows@[0].data)
                    },
                ),
            ),
        ),
        (Job::KeyReading, JobEvent::Object(row)) => next is None && match row {
            Some(row) => if row.key_decodes {
                replies_key(step, Some(row.key@))
            } else {
                fails_corrupt(job, step)
            },
            None => replies_key(step, None),
        },
        (
            Job::KeyIndex { store_id, key_range },
            JobEvent::Answered(Answer::Index(index)),
        ) => match index {
            Some(index) => next == Some(Job::KeyRecords) && reads_index(
                step,
                index,
                store_id,
                key_range@,
                Some(1),
                RecordsShape::KeysOnly,
            ),
            None => next is None && replies_key(step, None),
        },
        (Job::KeyRecords, JobEvent::Records(rows)) => next is None && if rows@.len() == 0 {
            replies_key(step, None)
        } else if rows@[0].primary_key_decodes {
            replies_key(step, Some(rows@[0].primary_key@))
        } else {
            fails_corrupt(job, step)
        },
        (Job::Counting, JobEvent::Number(number)) => next is None && step == JobStep::Reply(
            Reply::Count(Ok(number as u64)),
        ),
        (
            Job::CountIndex { store_id, key_range },
            JobEvent::Answered(Answer::Index(index)),
        ) => match index {
            Some(index) => next == Some(Job::Counting) && (step matches JobStep::ReadNumber(
                ReadQuery::Plain(statement),
            ) && statement@ == index_count_statement(index, store_id as int, key_range@)),
            None => next is None && step == JobStep::Reply(Reply::Count(Ok(0))),
        },
        (Job::Iterating, JobEvent::Records(rows)) => next is None && if all_decode(rows@) {
            step matches JobStep::Reply(Reply::Records(Ok(records))) && records_view(records@)
                == rows@.map_values(|row: SourceRecord| row_view(row))
        } else {
            fails_corrupt(job, step)
        },
        (
            Job::IterateIndex { store_id, key_range, count, shape },
            JobEvent::Answered(Answer::Index(index)),
        ) => match index {
            Some(index) => next == Some(Job::Iterating) && reads_index(
                step,
                index,
                store_id,
                key_range@,
                count,
                shape,
            ),
            None => next is None && (step matches JobStep::Reply(Reply::Records(Ok(records)))
                && records@.len() == 0),
        },
        (
            Job::CreateStore { store_name, key_path, auto_increment },
            JobEvent::Flag(found),
        ) => if found {
            next is None && step == JobStep::Reply(Reply::Schema(None))
        } else {
            next == Some(Job::Schema(RowsRule::Any)) && executes(
                step,
                seq![
                    StatementView {
                        sql: "INSERT INTO object_store (name, key_path, auto_increment) VALUES (?, ?, ?)"@,
                        values: seq![
                            ValueView::Text(store_name@),
                            stores::optional_blob(key_path),
                            ValueView::Integer(
                                if auto_increment {
                                    1
                                } else {
                                    0
                                },
                            ),
                        ],
                    },
                ],
            )
        },
        (
            Job::CreateIndex { store, index_name, key_path, unique, multi_entry },
            JobEvent::Flag(found),
        ) => if found {
            next is None && step == JobStep::Reply(Reply::Schema(None))
        } else {
            next == Some(Job::Schema(RowsRule::Any)) && executes(
                step,
                seq![
                    StatementView {
                        sql: "INSERT INTO object_store_index (object_store_id, name, key_path, unique_index, multi_entry_index)VALUES (?, ?, ?, ?, ?)"@,
                        values: seq![
                            ValueView::Integer(store.id as int),
                            ValueView::Text(index_name@),
                            ValueView::Blob(key_path@),
                            stores::flag(unique),
                            stores::flag(multi_entry),
                        ],
                    },
                ],
            )
        },
        (
            Job::DeleteIndex { store, index_name },
            JobEvent::Answered(Answer::Index(index)),
        ) => next == Some(Job::Schema(RowsRule::Any)) && executes(
            step,
            delete_index_statements(store.id as int, index_name@, index),
        ),
        (Job::Schema(rule), JobEvent::Rows(rows)) => {
            &&& next is None
            &&& match (rule, rows) {
                (RowsRule::ExactlyOne | RowsRule::AtLeastOne, 0usize) => fails(
                    job,
                    EngineError::QueryReturnedNoRows,
                    step,
                ),
                (RowsRule::ExactlyOne, _) => if rows > 1 {
                    fails(job, EngineError::QueryReturnedMoreThanOneRow, step)
                } else {
                    step == JobStep::Reply(Reply::Schema(None))
                },
                _ => step == JobStep::Reply(Reply::Schema(None)),
            }
        },
        _ => false,
    }
}

fn from_put(put: PutItem, step: PutStep) -> (result: (Option<Job>, JobStep))
    requires
        put.leads_to(step),
    ensures
        puts(put, result.0, result.1),
{
    match step {
        PutStep::Ask(question) => (Some(Job::Put(put)), JobStep::Ask(question)),
        PutStep::Finish { result, commands } => (
            Some(Job::PutWriting(result)),
            JobStep::Run(commands),
        ),
    }
}

fn from_backfill(backfill: Backfill, step: BackfillStep) -> (result: (Option<Job>, JobStep))
    requires
        backfill.leads_to(step),
    ensures
        backfills(backfill, result.0, result.1),
{
    match step {
        BackfillStep::Ask(question) => (Some(Job::Backfill(backfill)), JobStep::Ask(question)),
        BackfillStep::Run(command) => (
            Some(Job::Backfill(backfill)),
            JobStep::Run(vec![command]),
        ),
        BackfillStep::Finish(result) => (None, JobStep::Reply(Reply::Backfill(Ok(result)))),
    }
}

/// The keys of the rows.
fn keys_of(rows: Vec<SourceRecord>) -> (keys: Vec<Vec<u8>>)
    ensures
        keys@ == row_keys(rows@),
{
    let ghost all = row_keys(rows@);
    let mut keys: Vec<Vec<u8>> = Vec::new();
    assert(keys@ =~= all.take(0));
    for row in it: rows
        invariant
            it.seq() == rows@,
            all == row_keys(rows@),
            keys@ == all.take(it.index() as int),
    {
        keys.push(row.key);
        assert(keys@ =~= all.take(it.index() + 1));
    }
    assert(all.take(all.len() as int) =~= all);
    keys
}

fn reply_key(job: &Job, key: Result<Option<IndexedDBKeyType>, EngineError>) -> (step: JobStep)
    ensures
        match key {
            Ok(key) => replies_key(step, option_key(key)),
            Err(error) => fails(*job, error, step),
        },
{
    match key {
        Ok(key) => JobStep::Reply(Reply::Key(Ok(key))),
        Err(error) => failed(job, error),
    }
}

fn no_complaint() -> (step: JobStep)
    ensures
        step == JobStep::Reply(Reply::Schema(None)),
{
    JobStep::Reply(Reply::Schema(None))
}

/// Goes on with a job after an event.
pub fn resume(job: Job, event: JobEvent) -> (result: (Option<Job>, JobStep))
    requires
        job.expects(event),
    ensures
        resumes(job, event, result.0, result.1),
{
    let event = match event {
        JobEvent::Failed(error) => return (None, failed(&job, error)),
        event => event,
    };
    match (job, event) {
        (Job::Put(mut put), JobEvent::Answered(answer)) => {
            let ghost before = put;
            let ghost given = answer;
            let step = put.resume(answer);
            if let PutStep::Finish { result, commands } = step {
                if let PutItemResult::IndexConstraintViolated(name) = result {
                    assert(before.expects(given) && before.collides(given));
                    assert(writes(commands@).len() == commands@.len());
                    return (
                        Some(Job::PutWriting(PutItemResult::IndexConstraintViolated(name))),
                        JobStep::Run(commands),
                    );
                }
                return from_put(put, PutStep::Finish { result, commands });
            }
            from_put(put, step)
        },
        (Job::PutWriting(result), _) => (None, JobStep::Reply(Reply::Put(Ok(result)))),
        (Job::Backfill(mut backfill), JobEvent::Answered(answer)) => {
            let step = backfill.resume(answer);
            if let BackfillStep::Finish(result) = step {
                if result == BackfillIndexResult::UniqueConstraintViolated {
                    return (None, JobStep::Reply(Reply::Backfill(Ok(result))));
                }
            }
            from_backfill(backfill, step)
        },
        (Job::Backfill(mut backfill), _) => {
            let step = backfill.wrote();
            from_backfill(backfill, step)
        },
        (Job::RemoveReading { store_id, key_range }, JobEvent::Records(rows)) => {
            let keys = keys_of(rows);
            let removal = delete_item(store_id, &key_range, &keys);
            (
                Some(Job::RemoveDropping { delete: removal.delete }),
                JobStep::Run(removal.commands),
            )
        },
        (Job::RemoveDropping { delete }, _) => (Some(Job::RemoveDeleting), JobStep::Delete(delete)),
        (Job::RemoveDeleting, _) => (None, JobStep::Reply(Reply::Done(Ok(())))),
        (Job::Clearing, _) => (None, JobStep::Reply(Reply::Done(Ok(())))),
        (Job::ValueReading, JobEvent::Object(row)) => {
            let value = match row {
                Some(row) => Some(row.data),
                None => None,
            };
            (None, JobStep::Reply(Reply::Value(Ok(value))))
        },
        (Job::ValueIndex { store_id, key_range }, JobEvent::Answered(Answer::Index(index))) => {
            match index {
                Some(index) => (
                    Some(Job::ValueRecords),
                    JobStep::ReadRecords(
                        ReadQuery::Plain(
                            query::index_records(
                                &index,
                                store_id,
                                &key_range,
                                Some(1),
                                RecordsShape::WithValues,
                            ),
                        ),
                        RecordsShape::WithValues,
                    ),
                ),
                None => (None, JobStep::Reply(Reply::Value(Ok(None)))),
            }
        },
        (Job::ValueRecords, JobEvent::Records(rows)) => (
            None,
            JobStep::Reply(Reply::Value(Ok(first_value(rows)))),
        ),
        (Job::KeyReading, JobEvent::Object(row)) => {
            let key = match row {
                Some(row) => match decode_key(row.key, row.key_decodes) {
                    Ok(key) => Ok(Some(key)),
                    Err(error) => Err(error),
                },
                None => Ok(None),
            };
            (None, reply_key(&Job::KeyReading, key))
        },
        (Job::KeyIndex { store_id, key_range }, JobEvent::Answered(Answer::Index(index))) => {
            match index {
                Some(index) => (
                    Some(Job::KeyRecords),
                    JobStep::ReadRecords(
                        ReadQuery::Plain(
                            query::index_records(
                                &index,
                                store_id,
                                &key_range,
                                Some(1),
                                RecordsShape::KeysOnly,
                            ),
                        ),
                        RecordsShape::KeysOnly,
                    ),
                ),
                None => (None, JobStep::Reply(Reply::Key(Ok(None)))),
            }
        },
        (Job::KeyRecords, JobEvent::Records(rows)) => (
            None,
            reply_key(&Job::KeyRecords, first_primary_key(rows)),
        ),
        (Job::Counting, JobEvent::Number(number)) => (
            None,
            JobStep::Reply(Reply::Count(Ok(number as u64))),
        ),
        (Job::CountIndex { store_id, key_range }, JobEvent::Answered(Answer::Index(index))) => {
            match index {
                Some(index) => (
                    Some(Job::Counting),
                    JobStep::ReadNumber(
                        ReadQuery::Plain(query::index_count(&index, store_id, &key_range)),
                    ),
                ),
                None => (None, JobStep::Reply(Reply::Count(Ok(0)))),
            }
        },
        (Job::Iterating, JobEvent::Records(rows)) => match request_records(rows) {
            Ok(records) => (None, JobStep::Reply(Reply::Records(Ok(records)))),
            Err(error) => (None, failed(&Job::Iterating, error)),
        },
        (
            Job::IterateIndex { store_id, key_range, count, shape },
            JobEvent::Answered(Answer::Index(index)),
        ) => match index {
            Some(index) => (
                Some(Job::Iterating),
                JobStep::ReadRecords(
                    ReadQuery::Plain(
                        query::index_records(&index, store_id, &key_range, count, shape),
                    ),
                    shape,
                ),
            ),
            None => (None, JobStep::Reply(Reply::Records(Ok(Vec::new())))),
        },
        (Job::CreateStore { store_name, key_path, auto_increment }, JobEvent::Flag(found)) => {
            match stores::create_store(&store_name, key_path, auto_increment, found).1 {
                Some(statement) => (
                    Some(Job::Schema(RowsRule::Any)),
                    JobStep::Execute(only(statement)),
                ),
                None => (None, no_complaint()),
            }
        },
        (
            Job::CreateIndex { store, index_name, key_path, unique, multi_entry },
            JobEvent::Flag(found),
        ) => {
            match stores::create_index(
                &store,
                &index_name,
                key_path,
                unique,
                multi_entry,
                found,
            ).1 {
                Some(statement) => (
                    Some(Job::Schema(RowsRule::Any)),
                    JobStep::Execute(only(statement)),
                ),
                None => (None, no_complaint()),
            }
        },
        (Job::DeleteIndex { store, index_name }, JobEvent::Answered(Answer::Index(index))) => (
            Some(Job::Schema(RowsRule::Any)),
            JobStep::Execute(stores::delete_index(&store, &index_name, &index)),
        ),
        (Job::Schema(rule), JobEvent::Rows(rows)) => {
            let outcome = match rule {
                RowsRule::Any => Ok(()),
                RowsRule::ExactlyOne => stores::deleted_store(rows),
                RowsRule::AtLeastOne => stores::updated_row(rows),
            };
            match outcome {
                Ok(()) => (None, no_complaint()),
                Err(error) => (None, failed(&Job::Schema(rule), error)),
            }
        },
        _ => (None, no_complaint()),
    }
}

} // verus!
