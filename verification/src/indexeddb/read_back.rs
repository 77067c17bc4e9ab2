//! Reading a stored value back into one of script's. Where a key generator named the record, the
//! stored value does not hold the record's key, so the key is put back first.

use vstd::prelude::*;

use crate::error::Error;
use crate::indexeddb::cursor::IDBCursor;
use crate::indexeddb::get_all::GetAllKind;
use crate::indexeddb::key::{copy_option_key, option_key, IndexedDBKeyType};
use crate::indexeddb::key_path::Extraction;
use crate::indexeddb::object_store::{IDBObjectStore, Injection};
use crate::indexeddb::record::IndexedDBRecord;
use crate::indexeddb::request::{element_of, Conversion};

verus! {

/// What is asked for next.
#[derive(Debug)]
pub enum ReadBackStep {
    /// The bytes are read into a value.
    Read,
    /// The key at this path of the value is extracted.
    Extract(String),
    /// The key is put into the value at this path.
    Inject { key_path: String, key: IndexedDBKeyType },
    /// The value is what script gets. A pending exception is cleared where `clear_exception` says
    /// so.
    Ready { value: u64, clear_exception: bool },
}

/// What came of a step.
#[derive(Debug)]
pub enum ReadBackAnswer {
    /// The value, by the number of its handle.
    Read(Result<u64, Error>),
    Extracted(Extraction),
    /// Whether the value could take the key.
    Injected(Result<bool, Error>),
}

/// How far reading a value back has come.
#[derive(Debug)]
pub enum ReadBack {
    /// `record_key` is the record's key, where it is known.
    Reading { record_key: Option<IndexedDBKeyType> },
    Extracting { value: u64, key: IndexedDBKeyType },
    Injecting { value: u64 },
    Finished,
}

/// What a step comes to: the next state and step, or the error that the request fails with.
pub type ReadBackResult = Result<(ReadBack, ReadBackStep), Error>;

/// The value is what script gets.
pub open spec fn is_ready(result: ReadBackResult, value: u64, clear_exception: bool) -> bool {
    result == Ok::<_, Error>((ReadBack::Finished, ReadBackStep::Ready { value, clear_exception }))
}

/// The value of a record with this key is read first.
pub open spec fn begins_read(begun: Option<(ReadBack, ReadBackStep)>, key: Option<Seq<u8>>) -> bool {
    begun matches Some((ReadBack::Reading { record_key: own }, ReadBackStep::Read)) && option_key(own)
        == key
}

impl ReadBack {
    /// Begins to read the value of a record.
    pub fn begin(key: Option<IndexedDBKeyType>) -> (result: (ReadBack, ReadBackStep))
        ensures
            result == (ReadBack::Reading { record_key: key }, ReadBackStep::Read),
    {
        (ReadBack::Reading { record_key: key }, ReadBackStep::Read)
    }

    /// The answer is to the step that the state waits for.
    pub open spec fn expects(self, store: IDBObjectStore, answer: ReadBackAnswer) -> bool {
        match self {
            ReadBack::Reading { .. } => answer is Read,
            ReadBack::Extracting { .. } => answer is Extracted && store.string_key_path() is Some,
            ReadBack::Injecting { .. } => answer is Injected,
            ReadBack::Finished => false,
        }
    }

    /// What an answer leads to.
    pub open spec fn resumes(
        self,
        store: IDBObjectStore,
        answer: ReadBackAnswer,
        result: ReadBackResult,
    ) -> bool {
        match (self, answer) {
            (ReadBack::Reading { record_key }, ReadBackAnswer::Read(read)) => match read {
                // Only a store whose key path is one string can have left the key out.
                Ok(value) => match (record_key, store.string_key_path()) {
                    (Some(key), Some(path)) => {
                        &&& result matches Ok((next, step))
                        &&& next == ReadBack::Extracting { value, key }
                        &&& step matches ReadBackStep::Extract(own) && own@ == path
                    },
                    _ => is_ready(result, value, false),
                },
                Err(error) => result == Err::<(ReadBack, ReadBackStep), Error>(error),
            },
            (ReadBack::Extracting { value, key }, ReadBackAnswer::Extracted(extraction)) => {
                match extraction {
                    // The value holds no key: the record's own goes in.
                    Extraction::Failure => {
                        &&& result matches Ok((next, step))
                        &&& next == ReadBack::Injecting { value }
                        &&& step matches ReadBackStep::Inject { key_path, key: own }
                        &&& Some(key_path@) == store.string_key_path()
                        &&& own == key
                    },
                    Extraction::Threw => is_ready(result, value, true),
                    _ => is_ready(result, value, false),
                }
            },
            // A value that cannot take the key stays as it was stored.
            (ReadBack::Injecting { value }, ReadBackAnswer::Injected(injected)) => match injected {
                Ok(_) => is_ready(result, value, false),
                Err(error) => result == Err::<(ReadBack, ReadBackStep), Error>(error),
            },
            _ => true,
        }
    }

    /// Goes on after a step.
    pub fn resume(self, store: &IDBObjectStore, answer: ReadBackAnswer) -> (result: ReadBackResult)
        requires
            self.expects(*store, answer),
        ensures
            self.resumes(*store, answer, result),
    {
        match (self, answer) {
            (ReadBack::Reading { record_key }, ReadBackAnswer::Read(read)) => {
                let value: u64 = match read {
                    Ok(value) => value,
                    Err(error) => return Err(error),
                };
                match (record_key, store.record_key_path()) {
                    (Some(key), Some(path)) => Ok(
                        (ReadBack::Extracting { value, key }, ReadBackStep::Extract(path)),
                    ),
                    _ => Ok(
                        (
                            ReadBack::Finished,
                            ReadBackStep::Ready { value, clear_exception: false },
                        ),
                    ),
                }
            },
            (ReadBack::Extracting { value, key }, ReadBackAnswer::Extracted(extraction)) => {
                match (store.inject_record_key_if_absent(&extraction), store.record_key_path()) {
                    (Injection::Inject, Some(key_path)) => Ok(
                        (ReadBack::Injecting { value }, ReadBackStep::Inject { key_path, key }),
                    ),
                    (injection, _) => Ok(
                        (
                            ReadBack::Finished,
                            ReadBackStep::Ready {
                                value,
                                clear_exception: injection == Injection::KeepAndClear,
                            },
                        ),
                    ),
                }
            },
            (ReadBack::Injecting { value }, ReadBackAnswer::Injected(injected)) => match injected {
                Ok(_) => Ok(
                    (ReadBack::Finished, ReadBackStep::Ready { value, clear_exception: false }),
                ),
                Err(error) => Err(error),
            },
            (state, _) => Ok((state, ReadBackStep::Read)),
        }
    }
}

/// The value that a conversion holds is read, with the key of its record; nothing is where it holds
/// no value.
pub open spec fn is_read_of(
    conversion: Conversion,
    begun: Option<(ReadBack, ReadBackStep)>,
) -> bool {
    match conversion {
        Conversion::Value { key, .. } => begins_read(begun, option_key(key)),
        Conversion::Record(record) => begins_read(begun, Some(record.primary_key@)),
        _ => begun is None,
    }
}

/// Begins to read the value that a conversion holds, if it holds one. The key of the record goes
/// with it.
pub fn read_of(conversion: &Conversion) -> (begun: Option<(ReadBack, ReadBackStep)>)
    ensures
        is_read_of(*conversion, begun),
{
    match conversion {
        Conversion::Value { key, .. } => Some(ReadBack::begin(copy_option_key(key))),
        Conversion::Record(record) => Some(ReadBack::begin(Some(record.primary_key.clone()))),
        _ => None,
    }
}

/// How the value of the record that a cursor has moved onto is made: not at all for a cursor that
/// has keys only.
pub fn cursor_value(cursor: &IDBCursor, record: IndexedDBRecord) -> (conversion: Option<Conversion>)
    ensures
        conversion == if cursor.key_only {
            None
        } else {
            Some(element_of(GetAllKind::Values, record))
        },
{
    if cursor.key_only {
        None
    } else {
        Some(GetAllKind::Values.element(record))
    }
}

/// Every value of a record that script gets from a cursor or from `getAll` is read with the
/// record's own key, which is put back where the value lacks it.
pub proof fn records_are_read_with_their_keys(
    kind: GetAllKind,
    record: IndexedDBRecord,
    begun: Option<(ReadBack, ReadBackStep)>,
)
    requires
        is_read_of(element_of(kind, record), begun),
    ensures
        kind == GetAllKind::PrimaryKeys <==> begun is None,
        begun matches Some((ReadBack::Reading { record_key }, _)) ==> option_key(record_key) == Some(
            record.primary_key@,
        ),
{
}

/// Of a store whose key path is one string, a value that holds nothing at that path gets the
/// record's key there before script sees it, and no other value is changed.
pub proof fn absent_keys_are_put_back(
    store: IDBObjectStore,
    key: IndexedDBKeyType,
    value: u64,
    extraction: Extraction,
    first: ReadBackResult,
    second: ReadBackResult,
)
    requires
        store.string_key_path() is Some,
        (ReadBack::Reading { record_key: Some(key) }).resumes(store, ReadBackAnswer::Read(Ok(value)), first),
        first matches Ok((next, _)) && next.resumes(
            store,
            ReadBackAnswer::Extracted(extraction),
            second,
        ),
    ensures
        first matches Ok((_, ReadBackStep::Extract(path))) && Some(path@)
            == store.string_key_path(),
        extraction is Failure <==> (second matches Ok((_, ReadBackStep::Inject { .. }))),
        second matches Ok((_, ReadBackStep::Inject { key_path, key: own })) ==> own == key && Some(
            key_path@,
        ) == store.string_key_path(),
        !(extraction is Failure) ==> (second matches Ok((_, ReadBackStep::Ready { value: own, .. }))
            && own == value),
{
}

/// Script gets the value that was read, whatever became of its key: one that has a key, that throws
/// or that cannot take its key stays as it was stored, and only an exception that the search for the
/// key left is cleared.
pub proof fn values_are_those_that_were_read(
    read_back: ReadBack,
    store: IDBObjectStore,
    answer: ReadBackAnswer,
    result: ReadBackResult,
    ready: u64,
    cleared: bool,
)
    requires
        read_back.expects(store, answer),
        read_back.resumes(store, answer, result),
        result == Ok::<(ReadBack, ReadBackStep), Error>(
            (ReadBack::Finished, ReadBackStep::Ready { value: ready, clear_exception: cleared }),
        ),
    ensures
        match read_back {
            ReadBack::Reading { .. } => answer == ReadBackAnswer::Read(Ok(ready)),
            ReadBack::Extracting { value, .. } => value == ready,
            ReadBack::Injecting { value } => value == ready,
            ReadBack::Finished => false,
        },
        cleared <==> read_back is Extracting && answer == ReadBackAnswer::Extracted(
            Extraction::Threw,
        ),
{
}

/// A value that cannot be read, or whose key cannot be put back for an error, fails with that error;
/// nothing else does.
pub proof fn values_fail_only_where_reading_does(
    read_back: ReadBack,
    store: IDBObjectStore,
    answer: ReadBackAnswer,
    result: ReadBackResult,
)
    requires
        read_back.expects(store, answer),
        read_back.resumes(store, answer, result),
    ensures
        match answer {
            ReadBackAnswer::Read(Err(error)) => result == Err::<(ReadBack, ReadBackStep), Error>(
                error,
            ),
            ReadBackAnswer::Injected(Err(error)) => result == Err::<
                (ReadBack, ReadBackStep),
                Error,
            >(error),
            _ => result is Ok,
        },
{
}

} // verus!
