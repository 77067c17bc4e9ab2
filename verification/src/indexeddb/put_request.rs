//! Storing a record from script: `put`, `add` and a cursor's `update`. Values are script's own, so
//! what is done with them is asked for step by step.

use vstd::prelude::*;

use crate::error::{failed, plain, Error, ErrorKind};
use crate::indexeddb::index_walk::IndexWalk;
use crate::indexeddb::key::IndexedDBKeyType;
use crate::indexeddb::key_path::{Extraction, KeyPath, KeyPathView};
use crate::indexeddb::object_store::{
    updates_all, IDBObjectStore, IndexOutcome, IndexSnapshot, PutKey,
};
use crate::indexeddb::operation::KvsIndexUpdate;
use crate::indexeddb::transaction::TransactionStatus;

verus! {

/// What is asked for next.
#[derive(Debug)]
pub enum PutStep {
    /// The key that script passed is converted.
    ConvertKey,
    /// The value is cloned.
    CloneValue,
    /// The key at this path of the clone is extracted. With `multi_entry` an array is taken element
    /// by element.
    Extract { key_path: KeyPath, multi_entry: bool },
    /// Whether a key could be put at this path of the clone.
    CheckInjection(String),
    /// The clone is turned into bytes.
    Serialize,
    /// Everything is known: the record is stored.
    Store(StoredRecord),
}

impl PutStep {
    /// Whether the transaction is active while the step is done. It is made inactive for the clone,
    /// so that what the clone runs of script can place no request, and active again afterwards,
    /// however the clone ended.
    pub fn leaves_active(&self) -> (active: bool)
        ensures
            active == !(self is CloneValue),
    {
        !matches!(self, PutStep::CloneValue)
    }
}

/// A record on its way to the engine. Without a key the engine names it.
#[derive(Debug)]
pub struct StoredRecord {
    pub key: Option<IndexedDBKeyType>,
    pub value: Vec<u8>,
    pub index_updates: Vec<KvsIndexUpdate>,
}

/// What came of a step.
#[derive(Debug)]
pub enum PutAnswer {
    Key(Result<IndexedDBKeyType, Error>),
    Cloned(Result<(), Error>),
    Extracted(Extraction),
    CanInject(Result<bool, Error>),
    /// The bytes, or none where the clone could not be encoded.
    Serialized(Result<Option<Vec<u8>>, Error>),
}

/// Where the record's key comes from.
#[derive(Debug)]
pub enum KeyOrigin {
    /// Script passed it, or passed none.
    Script(Option<IndexedDBKeyType>),
    /// The record is stored under it already.
    Stored(IndexedDBKeyType),
}

/// How far storing a record has come.
#[derive(Debug)]
pub enum PutRequest {
    ConvertingKey,
    Cloning(KeyOrigin),
    ExtractingKey(KeyOrigin),
    CheckingInjection,
    /// `generated` says that the engine generates the key, so that no index finds it in the value.
    Serializing { key: Option<IndexedDBKeyType>, generated: bool },
    Indexing { key: Option<IndexedDBKeyType>, value: Vec<u8>, walk: IndexWalk },
    Finished,
}

/// The key of the record, where the store has no key path.
pub open spec fn origin_key(origin: KeyOrigin) -> Option<IndexedDBKeyType> {
    match origin {
        KeyOrigin::Script(key) => key,
        KeyOrigin::Stored(key) => Some(key),
    }
}

/// The step asks for the key at the path of the clone.
pub open spec fn extracts(step: PutStep, path: KeyPathView, multi_entry: bool) -> bool {
    step matches PutStep::Extract { key_path, multi_entry: own } && key_path@ == path && own
        == multi_entry
}

/// What a step comes to: the next state and step, or the error that script gets.
pub type PutResult = Result<(PutRequest, PutStep), Error>;

/// The record goes on to be serialized.
pub open spec fn serializes(
    result: PutResult,
    key: Option<IndexedDBKeyType>,
    generated: bool,
) -> bool {
    result matches Ok((next, step)) && step is Serialize && next == (PutRequest::Serializing {
        key,
        generated,
    })
}

/// The walk over the indexes goes on, or the record is stored.
pub open spec fn walks_on(
    result: PutResult,
    store: IDBObjectStore,
    before: IndexWalk,
    key: Option<IndexedDBKeyType>,
    value: Vec<u8>,
) -> bool {
    &&& result matches Ok((next, step))
    &&& match next {
        PutRequest::Indexing { key: own_key, value: own_value, walk } => {
            &&& own_key == key
            &&& own_value == value
            &&& walk.wf(store.key_path)
            &&& walk.goes_on_from(&before)
            &&& step matches PutStep::Extract { key_path, multi_entry } && walk.awaits(
                store.key_path,
                key_path@,
                multi_entry,
            )
        },
        PutRequest::Finished => {
            &&& step matches PutStep::Store(record)
            &&& record.key == key
            &&& record.value == value
            &&& exists|walk: IndexWalk|
                {
                    &&& #[trigger] walk.wf(store.key_path)
                    &&& walk.goes_on_from(&before)
                    &&& walk.rest@.len() == 0
                    &&& updates_all(record.index_updates@, walk.findings@)
                }
        },
        _ => false,
    }
}

impl PutRequest {
    /// The answer is to the step that the state waits for.
    pub open spec fn expects(self, store: IDBObjectStore, answer: PutAnswer) -> bool {
        match self {
            PutRequest::ConvertingKey => answer is Key,
            PutRequest::Cloning(_) => answer is Cloned,
            PutRequest::ExtractingKey(_) => answer is Extracted && store.key_path is Some,
            PutRequest::CheckingInjection => answer is CanInject,
            PutRequest::Serializing { .. } => answer is Serialized,
            PutRequest::Indexing { key, value, walk } => answer is Extracted && walk.wf(
                store.key_path,
            ) && exists|path: KeyPathView, multi_entry: bool|
                walk.awaits(store.key_path, path, multi_entry),
            PutRequest::Finished => false,
        }
    }

    /// Begins `put` or `add`.
    pub fn begin(
        store: &IDBObjectStore,
        status: &TransactionStatus,
        store_exists: bool,
        key_given: bool,
    ) -> (result: PutResult)
        ensures
            match store.put_refusal(*status, store_exists, key_given) {
                Some(refusal) => failed(result, refusal),
                None => if key_given {
                    result == Ok::<_, Error>((PutRequest::ConvertingKey, PutStep::ConvertKey))
                } else {
                    result == Ok::<_, Error>(
                        (PutRequest::Cloning(KeyOrigin::Script(None)), PutStep::CloneValue),
                    )
                },
            },
    {
        match store.check_put(status, store_exists, key_given) {
            Err(error) => return Err(error),
            Ok(()) => {},
        }
        if key_given {
            Ok((PutRequest::ConvertingKey, PutStep::ConvertKey))
        } else {
            Ok((PutRequest::Cloning(KeyOrigin::Script(None)), PutStep::CloneValue))
        }
    }

    /// Begins the write of a cursor's `update`: the record keeps the key that it is stored under.
    pub fn begin_update(key: IndexedDBKeyType) -> (result: (PutRequest, PutStep))
        ensures
            result == (PutRequest::Cloning(KeyOrigin::Stored(key)), PutStep::CloneValue),
    {
        (PutRequest::Cloning(KeyOrigin::Stored(key)), PutStep::CloneValue)
    }

    /// What an answer leads to.
    pub open spec fn resumes(
        self,
        store: IDBObjectStore,
        answer: PutAnswer,
        result: PutResult,
    ) -> bool {
        match (self, answer) {
            (PutRequest::ConvertingKey, PutAnswer::Key(converted)) => match converted {
                Ok(key) => result == Ok::<_, Error>(
                    (PutRequest::Cloning(KeyOrigin::Script(Some(key))), PutStep::CloneValue),
                ),
                Err(error) => result == Err::<(PutRequest, PutStep), Error>(error),
            },
            (PutRequest::Cloning(origin), PutAnswer::Cloned(cloned)) => match cloned {
                Ok(()) => match store.key_path {
                    Some(path) => result matches Ok((next, step)) && next
                        == PutRequest::ExtractingKey(origin) && extracts(step, path@, false),
                    None => serializes(result, origin_key(origin), false),
                },
                Err(error) => result == Err::<(PutRequest, PutStep), Error>(error),
            },
            (
                PutRequest::ExtractingKey(KeyOrigin::Script(_)),
                PutAnswer::Extracted(extraction),
            ) => match extraction {
                Extraction::Key(key) | Extraction::ArrayKey { key, .. } => serializes(
                    result,
                    Some(key),
                    false,
                ),
                Extraction::Invalid => failed(result, plain(ErrorKind::Data)),
                Extraction::Threw => failed(result, plain(ErrorKind::JSFailed)),
                Extraction::Failure => match store.key_path {
                    Some(KeyPath::String(path)) if store.has_key_generator => {
                        result matches Ok((next, step)) && next is CheckingInjection && (
                        step matches PutStep::CheckInjection(own) && own@ == path@)
                    },
                    _ => failed(result, plain(ErrorKind::Data)),
                },
            },
            (
                PutRequest::ExtractingKey(KeyOrigin::Stored(stored)),
                PutAnswer::Extracted(extraction),
            ) => match extraction {
                Extraction::Key(key) | Extraction::ArrayKey { key, .. } => if key@ == stored@ {
                    serializes(result, Some(stored), false)
                } else {
                    failed(result, plain(ErrorKind::Data))
                },
                Extraction::Threw => failed(result, plain(ErrorKind::JSFailed)),
                _ => failed(result, plain(ErrorKind::Data)),
            },
            (PutRequest::CheckingInjection, PutAnswer::CanInject(can)) => match can {
                Ok(true) => serializes(result, None, true),
                Ok(false) => failed(result, plain(ErrorKind::Data)),
                Err(error) => result == Err::<(PutRequest, PutStep), Error>(error),
            },
            (PutRequest::Serializing { key, generated }, PutAnswer::Serialized(bytes)) => {
                match bytes {
                    Ok(Some(value)) => exists|walk: IndexWalk|
                        {
                            &&& #[trigger] walk.wf(store.key_path)
                            &&& store.shows_indexes(walk.all())
                            &&& walk.generated == generated
                            &&& walk.findings@.len() == 0
                            &&& walk.reach is None
                            &&& walks_on(result, store, walk, key, value)
                        },
                    Ok(None) => failed(result, plain(ErrorKind::InvalidState)),
                    Err(error) => result == Err::<(PutRequest, PutStep), Error>(error),
                }
            },
            (PutRequest::Indexing { key, value, walk }, PutAnswer::Extracted(extraction)) => {
                exists|after: IndexWalk| #[trigger]
                    after.takes(&walk, extraction) && walks_on(result, store, after, key, value)
            },
            _ => true,
        }
    }

    /// Goes on after a step.
    pub fn resume(self, store: &IDBObjectStore, answer: PutAnswer) -> (result: PutResult)
        requires
            store.wf(),
            self.expects(*store, answer),
        ensures
            self.resumes(*store, answer, result),
    {
        match (self, answer) {
            (PutRequest::ConvertingKey, PutAnswer::Key(converted)) => match converted {
                Ok(key) => Ok(
                    (PutRequest::Cloning(KeyOrigin::Script(Some(key))), PutStep::CloneValue),
                ),
                Err(error) => Err(error),
            },
            (PutRequest::Cloning(origin), PutAnswer::Cloned(cloned)) => match cloned {
                Ok(()) => match &store.key_path {
                    Some(path) => Ok(
                        (
                            PutRequest::ExtractingKey(origin),
                            PutStep::Extract { key_path: path.clone(), multi_entry: false },
                        ),
                    ),
                    None => {
                        let key = match origin {
                            KeyOrigin::Script(key) => key,
                            KeyOrigin::Stored(key) => Some(key),
                        };
                        Ok((PutRequest::Serializing { key, generated: false }, PutStep::Serialize))
                    },
                },
                Err(error) => Err(error),
            },
            (PutRequest::ExtractingKey(origin), PutAnswer::Extracted(extraction)) => match origin {
                KeyOrigin::Script(given) => match store.put_key(given, extraction) {
                    Ok(PutKey::Known(key)) => Ok(
                        (PutRequest::Serializing { key, generated: false }, PutStep::Serialize),
                    ),
                    Ok(PutKey::CheckInjection(path)) => Ok(
                        (PutRequest::CheckingInjection, PutStep::CheckInjection(path)),
                    ),
                    Err(error) => Err(error),
                },
                KeyOrigin::Stored(key) => match store.check_known_key(&extraction, &key) {
                    Ok(()) => Ok(
                        (
                            PutRequest::Serializing { key: Some(key), generated: false },
                            PutStep::Serialize,
                        ),
                    ),
                    Err(error) => Err(error),
                },
            },
            (PutRequest::CheckingInjection, PutAnswer::CanInject(can)) => match can {
                Ok(can) => match IDBObjectStore::check_injection(can) {
                    Ok(()) => Ok(
                        (
                            PutRequest::Serializing { key: None, generated: true },
                            PutStep::Serialize,
                        ),
                    ),
                    Err(error) => Err(error),
                },
                Err(error) => Err(error),
            },
            (PutRequest::Serializing { key, generated }, PutAnswer::Serialized(bytes)) => {
                match bytes {
                    Ok(Some(value)) => {
                        let walk = IndexWalk::new(store.index_snapshots(), generated);
                        assert(walk.wf(store.key_path));
                        walk_on(store, walk, key, value)
                    },
                    Ok(None) => Err(Error::plain(ErrorKind::InvalidState)),
                    Err(error) => Err(error),
                }
            },
            (PutRequest::Indexing { key, value, walk }, PutAnswer::Extracted(extraction)) => {
                let mut walk = walk;
                walk.take(store, extraction);
                walk_on(store, walk, key, value)
            },
            _ => Err(Error::plain(ErrorKind::InvalidState)),
        }
    }
}

/// Goes on with the walk over the indexes.
fn walk_on(
    store: &IDBObjectStore,
    walk: IndexWalk,
    key: Option<IndexedDBKeyType>,
    value: Vec<u8>,
) -> (result: PutResult)
    requires
        walk.wf(store.key_path),
    ensures
        walks_on(result, *store, walk, key, value),
{
    let mut walk = walk;
    match walk.next(store) {
        Some((key_path, multi_entry)) => Ok(
            (
                PutRequest::Indexing { key, value, walk },
                PutStep::Extract { key_path, multi_entry },
            ),
        ),
        None => {
            assert(walk.wf(store.key_path));
            let index_updates = walk.finish();
            Ok((PutRequest::Finished, PutStep::Store(StoredRecord { key, value, index_updates })))
        },
    }
}

/// The engine generates a key only for a store with a key generator, where script passed none and
/// the value has none at the store's key path.
pub proof fn keys_are_generated_only_where_there_is_none(
    request: PutRequest,
    store: IDBObjectStore,
    answer: PutAnswer,
    result: PutResult,
)
    requires
        request.expects(store, answer),
        request.resumes(store, answer, result),
        result matches Ok((next, _)) && next is CheckingInjection,
    ensures
        store.has_key_generator,
        store.key_path is Some,
        answer == PutAnswer::Extracted(Extraction::Failure),
{
}

/// A record is stored under the key that script gave or, in a store with a key path, under the one
/// that its value has there; a write through a cursor keeps the key that the record has. The engine
/// generates the key only once the value was found to have room for it.
pub proof fn records_are_stored_under_their_key(
    request: PutRequest,
    store: IDBObjectStore,
    answer: PutAnswer,
    result: PutResult,
    own: Option<IndexedDBKeyType>,
    generated: bool,
    step: PutStep,
)
    requires
        request.expects(store, answer),
        request.resumes(store, answer, result),
        result == Ok::<(PutRequest, PutStep), Error>(
            (PutRequest::Serializing { key: own, generated }, step),
        ),
    ensures
        step is Serialize,
        generated ==> own is None && request is CheckingInjection && answer
            == PutAnswer::CanInject(Ok(true)),
        !generated ==> match request {
            PutRequest::Cloning(KeyOrigin::Script(key)) => store.key_path is None && own == key,
            PutRequest::Cloning(KeyOrigin::Stored(key)) => store.key_path is None && own == Some(
                key,
            ),
            PutRequest::ExtractingKey(KeyOrigin::Script(_)) => match answer {
                PutAnswer::Extracted(Extraction::Key(key)) => own == Some(key),
                PutAnswer::Extracted(Extraction::ArrayKey { key, .. }) => own == Some(key),
                _ => false,
            },
            PutRequest::ExtractingKey(KeyOrigin::Stored(stored)) => own == Some(stored)
                && match answer {
                PutAnswer::Extracted(Extraction::Key(key)) => key@ == stored@,
                PutAnswer::Extracted(Extraction::ArrayKey { key, .. }) => key@ == stored@,
                _ => false,
            },
            _ => false,
        },
{
}

/// What is stored is what was serialized, under the key that it was serialized for, and on the way
/// there neither changes.
pub proof fn serialized_records_are_stored(
    request: PutRequest,
    store: IDBObjectStore,
    answer: PutAnswer,
    result: PutResult,
)
    requires
        request.expects(store, answer),
        request.resumes(store, answer, result),
    ensures
        match (request, answer, result) {
            (
                PutRequest::Serializing { key, .. },
                PutAnswer::Serialized(Ok(Some(value))),
                Ok((next, step)),
            ) => {
                &&& step matches PutStep::Store(record) ==> record.key == key && record.value
                    == value && next is Finished
                &&& next matches PutRequest::Indexing { key: kept, value: held, .. } ==> kept == key
                    && held == value && step is Extract
            },
            (PutRequest::Indexing { key, value, .. }, _, Ok((next, step))) => {
                &&& step matches PutStep::Store(record) ==> record.key == key && record.value
                    == value && next is Finished
                &&& next matches PutRequest::Indexing { key: kept, value: held, .. } ==> kept == key
                    && held == value && step is Extract
            },
            _ => true,
        },
        result matches Ok((_, step)) ==> (step is Store ==> request is Serializing
            || request is Indexing),
{
}

/// What fails outside ends the write with that error. A value that throws or has no valid key where
/// one is needed ends it too.
pub proof fn failed_steps_end_the_write(
    request: PutRequest,
    store: IDBObjectStore,
    answer: PutAnswer,
    result: PutResult,
    own: Error,
)
    requires
        request.expects(store, answer),
        request.resumes(store, answer, result),
    ensures
        answer == PutAnswer::Key(Err(own)) ==> result == Err::<(PutRequest, PutStep), Error>(own),
        answer == PutAnswer::Cloned(Err(own)) ==> result == Err::<(PutRequest, PutStep), Error>(
            own,
        ),
        answer == PutAnswer::CanInject(Err(own)) ==> result == Err::<(PutRequest, PutStep), Error>(
            own,
        ),
        answer == PutAnswer::Serialized(Err(own)) ==> result == Err::<(PutRequest, PutStep), Error>(
            own,
        ),
        answer == PutAnswer::CanInject(Ok(false)) ==> (result matches Err(error) && error@.kind
            == ErrorKind::Data),
        request is ExtractingKey && answer == PutAnswer::Extracted(Extraction::Threw) ==> (
        result matches Err(error) && error@.kind == ErrorKind::JSFailed),
        request is ExtractingKey && answer == PutAnswer::Extracted(Extraction::Invalid) ==> (
        result matches Err(error) && error@.kind == ErrorKind::Data),
        request is ExtractingKey && answer == PutAnswer::Extracted(Extraction::Failure)
            && !store.has_key_generator ==> (result matches Err(error) && error@.kind
            == ErrorKind::Data),
{
}

/// In a store with a key path the key is looked for there, as one key, before anything is stored.
pub proof fn keys_are_looked_for_at_the_path(
    origin: KeyOrigin,
    store: IDBObjectStore,
    result: PutResult,
)
    requires
        PutRequest::Cloning(origin).resumes(store, PutAnswer::Cloned(Ok(())), result),
        store.key_path is Some,
    ensures
        result matches Ok((next, PutStep::Extract { key_path, multi_entry })) && next
            == PutRequest::ExtractingKey(origin) && key_path@ == store.key_path->0@ && !multi_entry,
{
}

/// A record is stored only once every index of the store has been looked at, with the updates of all
/// of them.
pub proof fn stored_records_went_through_every_index(
    result: PutResult,
    store: IDBObjectStore,
    before: IndexWalk,
    key: Option<IndexedDBKeyType>,
    value: Vec<u8>,
    record: StoredRecord,
) -> (findings: Seq<(IndexSnapshot, IndexOutcome)>)
    requires
        walks_on(result, store, before, key, value),
        result matches Ok((_, PutStep::Store(own))) && own == record,
    ensures
        updates_all(record.index_updates@, findings),
        findings.len() == before.all().len(),
        forall|i: int|
            0 <= i < findings.len() ==> (#[trigger] findings[i]).0 == before.all()[findings.len() - 1
                - i],
{
    let walk = choose|walk: IndexWalk|
        {
            &&& #[trigger] walk.wf(store.key_path)
            &&& walk.goes_on_from(&before)
            &&& walk.rest@.len() == 0
            &&& updates_all(record.index_updates@, walk.findings@)
        };
    let findings = walk.findings@;
    let named = findings.map_values(|finding: (IndexSnapshot, IndexOutcome)| finding.0);
    assert(walk.all() =~= named.reverse());
    assert forall|i: int| 0 <= i < findings.len() implies (#[trigger] findings[i]).0
        == before.all()[findings.len() - 1 - i] by {
        assert(named[i] == findings[i].0);
        assert(named.reverse()[findings.len() - 1 - i] == named[i]);
    }
    findings
}

} // verus!
