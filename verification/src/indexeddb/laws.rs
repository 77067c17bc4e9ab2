//! What holds of requests, stores and indexes as script sees them.

use vstd::prelude::*;

use crate::error::{plain, Error, ErrorKind, ErrorView};
use crate::indexeddb::cursor::{IDBCursor, IDBCursorDirection, ObjectStoreOrIndex};
use crate::indexeddb::delivery::{
    before_error_event, begins as request_begins, converts, plain_outcome, ConversionOutcome,
    DeliveryNext, DeliveryStage, DeliveryStep, FailureContext,
};
use crate::indexeddb::engine::backfill::IndexBackfillEntry;
use crate::indexeddb::engine::dispatch::{AsyncOperation, IndexedDBTxnMode};
use crate::indexeddb::engine::model::BackendError;
use crate::indexeddb::engine::placement::{awaits_sequence, completed, is_filled, is_sequence_of};
use crate::indexeddb::engine::put::keys_view;
use crate::indexeddb::get_all::{limit_of, GetAllRequest};
use crate::indexeddb::index::{
    opens, places_on_index, projection, read_all, reads_first, request_refusal, IDBIndex,
};
use crate::indexeddb::index_walk::{outcome_fits, IndexWalk};
use crate::indexeddb::key::{
    key_lt, key_lt_asymmetric, key_lt_irreflexive, key_lt_transitive, key_order, key_order_total,
    IndexedDBKeyRange, IndexedDBKeyType, KeyOrder, RangeView,
};
use crate::indexeddb::key_path::{Extraction, KeyPath, KeyPathView};
use crate::indexeddb::object_store::{
    all_read, fills, first_unread, is_about, leaves_out, listed, missing, read_refusal,
    schema_refusal, shows_index, stands_for, surviving, updates_all, updates_index, with_rebuilt,
    write_refusal, IDBObjectStore, IndexMetadata, IndexOutcome, IndexSnapshot, SchemaMessage,
};
use crate::indexeddb::operation::{
    KvsIndexUpdate, KvsOperationContext, KvsOperationTarget, RecordKeyPlacement,
};
use crate::indexeddb::record::RecordsShape;
use crate::indexeddb::request::{
    actions_view, after_error, after_success, asked_key, calls_for, places, unique_index_message,
    ActionView, Conversion, IDBRequest, IDBRequestReadyState, IdbResult, JsAnswer, OutboundHold,
    PlacedRequest, RecordsParam, RequestEnvironment, RequestSource, RequestUse,
};
use crate::indexeddb::store_requests::{fills_index, places_on_store, IndexFill};
use crate::indexeddb::transaction::{IDBTransactionMode, TransactionStatus};
use crate::names::Named;
use crate::text::texts;

verus! {

/// The outcome gives the record a place in the index.
pub open spec fn takes_part(outcome: IndexOutcome) -> bool {
    match outcome {
        IndexOutcome::WholeKey => true,
        IndexOutcome::InSequence(_) => true,
        IndexOutcome::Dropped => false,
        IndexOutcome::Extracted(Extraction::Key(_)) => true,
        IndexOutcome::Extracted(Extraction::ArrayKey { .. }) => true,
        IndexOutcome::Extracted(_) => false,
    }
}

/// The update is that of the index for the record: under the index's name, with the key that was
/// extracted, or each element of an array for an index that takes them one by one, or the place of
/// the key that is still to be generated.
pub open spec fn is_update_for(
    update: KvsIndexUpdate,
    snapshot: IndexSnapshot,
    outcome: IndexOutcome,
) -> bool {
    &&& update.index_name@ == snapshot.index_name@
    &&& match outcome {
        IndexOutcome::WholeKey => update.keys@.len() == 0 && update.record_key_placement == Some(
            RecordKeyPlacement::WholeKey,
        ),
        IndexOutcome::InSequence(parts) => update.keys@.len() == 0 && update.record_key_placement
            == Some(RecordKeyPlacement::InSequence(parts)),
        IndexOutcome::Dropped => false,
        IndexOutcome::Extracted(extraction) => update.record_key_placement is None
            && match extraction {
            Extraction::Key(key) => update.keys@.len() == 1 && update.keys@[0] == key,
            Extraction::ArrayKey { key, elements } => if snapshot.multi_entry {
                update.keys@ == elements@
            } else {
                update.keys@.len() == 1 && update.keys@[0] == key
            },
            _ => false,
        },
    }
}

/// The findings that give the record a place, in order.
pub open spec fn taking_part(findings: Seq<(IndexSnapshot, IndexOutcome)>) -> Seq<
    (IndexSnapshot, IndexOutcome),
> {
    findings.filter(|finding: (IndexSnapshot, IndexOutcome)| takes_part(finding.1))
}

/// A record has one update for each index that it has a place in, in the order of the indexes, each
/// with what was found of that index; the other indexes have none.
pub proof fn updates_are_those_found(
    updates: Seq<KvsIndexUpdate>,
    findings: Seq<(IndexSnapshot, IndexOutcome)>,
)
    requires
        updates_all(updates, findings),
    ensures
        updates.len() == taking_part(findings).len(),
        forall|u: int|
            0 <= u < updates.len() ==> is_update_for(
                #[trigger] updates[u],
                taking_part(findings)[u].0,
                taking_part(findings)[u].1,
            ),
    decreases findings.len(),
{
    reveal(Seq::filter);
    if findings.len() > 0 {
        let fewer = findings.drop_last();
        let (snapshot, outcome) = findings.last();
        if leaves_out(snapshot, outcome) {
            assert(!takes_part(outcome));
            updates_are_those_found(updates, fewer);
        } else {
            assert(takes_part(outcome));
            updates_are_those_found(updates.drop_last(), fewer);
            let n = updates.len() - 1;
            assert(taking_part(findings) == taking_part(fewer).push((snapshot, outcome)));
            assert forall|u: int| 0 <= u < updates.len() implies is_update_for(
                #[trigger] updates[u],
                taking_part(findings)[u].0,
                taking_part(findings)[u].1,
            ) by {
                if u < n {
                    assert(updates.drop_last()[u] == updates[u]);
                } else {
                    assert(updates_index(updates.last(), snapshot, outcome));
                }
            }
        }
    }
}

/// An index that is filled from stored records gets from each of them what it would have got had it
/// been there when the record was stored.
pub proof fn filling_matches_storing(
    entries: Seq<IndexBackfillEntry>,
    key: IndexedDBKeyType,
    extraction: Extraction,
    snapshot: IndexSnapshot,
)
    requires
        fills(entries, seq![(key, extraction)], snapshot.multi_entry),
    ensures
        entries.len() == if takes_part(IndexOutcome::Extracted(extraction)) {
            1int
        } else {
            0
        },
        entries.len() == 1 ==> entries[0].primary_key == key && forall|update: KvsIndexUpdate|
            #[trigger] is_update_for(update, snapshot, IndexOutcome::Extracted(extraction))
                ==> update.keys@ =~= entries[0].keys@,
{
    let findings = seq![(key, extraction)];
    reveal_with_fuel(fills, 2);
    assert(findings.drop_last() =~= seq![]);
    if entries.len() > 0 {
        assert(entries.last() == entries[entries.len() - 1]);
        assert(entries.drop_last().len() == entries.len() - 1);
    }
}

/// One index waits for the record's own key exactly where the engine generates that key and the
/// index's key path is the store's, or has it among its components.
pub proof fn indexes_wait_for_keys_that_they_name(
    store_path: Option<KeyPath>,
    generated: bool,
    snapshot: IndexSnapshot,
    outcome: IndexOutcome,
)
    requires
        outcome_fits(store_path, generated, snapshot, outcome),
    ensures
        outcome is WholeKey <==> generated && (store_path matches Some(KeyPath::String(own))
            && snapshot.key_path matches KeyPath::String(path) && path@ == own@),
        outcome is InSequence ==> generated && (store_path matches Some(KeyPath::String(own))
            && snapshot.key_path matches KeyPath::StringSequence(parts) && exists|i: int|
            0 <= i < parts@.len() && (#[trigger] parts@[i])@ == own@),
        !generated ==> outcome is Extracted,
        outcome matches IndexOutcome::InSequence(found) ==> (
        snapshot.key_path matches KeyPath::StringSequence(parts) && found@.len() == parts@.len()
            && forall|i: int|
            0 <= i < parts@.len() ==> ((#[trigger] found@[i]) is None <==> parts@[i]@
                == store_path->0->String_0@)),
{
    if let IndexOutcome::InSequence(found) = outcome {
        if let KeyPath::StringSequence(parts) = snapshot.key_path {
            let open_places = Seq::new(found@.len(), |i: int| found@[i] is None);
            let names = texts(parts@);
            let own = store_path->0->String_0@;
            let expected = Seq::new(names.len(), |i: int| names[i] == own);
            assert(open_places == expected);
            assert(open_places.len() == expected.len());
            assert forall|i: int| 0 <= i < parts@.len() implies ((#[trigger] found@[i]) is None
                <==> parts@[i]@ == own) by {
                assert(open_places[i] == expected[i]);
                assert(names[i] == parts@[i]@);
            }
        }
    }
}

/// A store is read exactly where it exists and its transaction takes requests; it is written where,
/// besides, the transaction may write; and it is changed in an upgrade only. What is not so is
/// refused, a store that is gone before all else.
pub proof fn stores_are_used_only_where_they_may(
    store: IDBObjectStore,
    status: TransactionStatus,
    store_exists: bool,
    key_given: bool,
)
    ensures
        read_refusal(status, store_exists) is None <==> store_exists && status.active
            && status.usable,
        write_refusal(status, store_exists) is None <==> read_refusal(status, store_exists) is None
            && status.mode != IDBTransactionMode::Readonly,
        schema_refusal(status, store_exists) is None <==> read_refusal(status, store_exists) is None
            && status.mode == IDBTransactionMode::Versionchange,
        store.put_refusal(status, store_exists, key_given) is None <==> {
            &&& write_refusal(status, store_exists) is None
            &&& store.key_path is Some ==> !key_given
            &&& store.key_path is None && !store.has_key_generator ==> key_given
        },
        !store_exists ==> read_refusal(status, store_exists) == Some(
            plain(ErrorKind::InvalidState),
        ) && write_refusal(status, store_exists) == Some(plain(ErrorKind::InvalidState)),
        store_exists && !(status.active && status.usable) ==> read_refusal(status, store_exists)
            == Some(plain(ErrorKind::TransactionInactive)) && write_refusal(status, store_exists)
            == Some(plain(ErrorKind::TransactionInactive)),
        store_exists && status.active && status.usable && status.mode
            == IDBTransactionMode::Readonly ==> write_refusal(status, store_exists) == Some(
            plain(ErrorKind::ReadOnly),
        ),
        write_refusal(status, store_exists) is None ==> (store.put_refusal(
            status,
            store_exists,
            key_given,
        ) matches Some(refusal) ==> refusal == plain(ErrorKind::Data)),
{
}

/// An index is used exactly where it and its store exist and its transaction takes requests.
pub proof fn indexes_are_used_only_where_they_may(
    environment: RequestEnvironment,
    has_index: bool,
    store_exists: bool,
)
    ensures
        request_refusal(environment, has_index, store_exists) is None <==> has_index && store_exists
            && environment.status.active && environment.status.usable,
        !(has_index && store_exists) ==> (request_refusal(
            environment,
            has_index,
            store_exists,
        ) matches Some(refusal) && refusal.kind == ErrorKind::InvalidState),
{
}

/// An index that outlives an aborted upgrade is found under the name that it had when the upgrade
/// began, through the handle that it always had.
pub proof fn surviving_indexes_have_their_first_name(
    entries: Seq<Named<usize>>,
    handles: Seq<IDBIndex>,
    name: Seq<char>,
)
    requires
        surviving(entries, handles).contains_key(name),
    ensures
        ({
            let handle = surviving(entries, handles)[name];
            &&& !handles[handle as int].newly_created_during_transaction
            &&& name == match handles[handle as int].rollback_name {
                Some(first) => first@,
                None => handles[handle as int].name@,
            }
            &&& exists|i: int| 0 <= i < entries.len() && (#[trigger] entries[i]).value == handle
        }),
    decreases entries.len(),
{
    if entries.len() > 0 {
        let fewer = entries.drop_last();
        let n = entries.len() - 1;
        let handle = entries[n].value;
        if handles[handle as int].newly_created_during_transaction
            || handles[handle as int].restored().name@ != name {
            surviving_indexes_have_their_first_name(fewer, handles, name);
            let own = surviving(entries, handles)[name];
            let i = choose|i: int| 0 <= i < fewer.len() && (#[trigger] fewer[i]).value == own;
            assert(entries[i].value == own);
        } else {
            assert(entries[n].value == handle);
        }
    }
}

/// After its event a request's transaction is inactive, is aborted only after that, with an
/// `AbortError` where a listener threw and with the request's own error otherwise, and hears of the
/// request once.
pub proof fn events_end_in_order(
    active: bool,
    threw: bool,
    not_prevented: bool,
    error: ErrorView,
    request_id: u64,
    i: int,
)
    ensures
        ({
            let good = after_success(active, threw, request_id);
            let bad = after_error(active, threw, not_prevented, error, request_id);
            &&& active ==> good[0] == ActionView::SetInactive && bad[0] == ActionView::SetInactive
            &&& 0 <= i < good.len() ==> (good[i] matches ActionView::Abort(own) ==> i == 1 && active
                && threw && own == plain(ErrorKind::Abort))
            &&& 0 <= i < bad.len() ==> (bad[i] matches ActionView::Abort(own) ==> i == 1 && active
                && own == if threw {
                plain(ErrorKind::Abort)
            } else {
                error
            })
            &&& 0 <= i < good.len() ==> (good[i] == ActionView::SendRequestHandled(request_id)
                <==> i == good.len() - 3)
            &&& 0 <= i < bad.len() ==> (bad[i] == ActionView::SendRequestHandled(request_id) <==> i
                == bad.len() - 3)
            &&& good.last() == ActionView::MaybeCommit
            &&& bad.last() == ActionView::MaybeCommit
            &&& !active ==> good.len() == 4 && bad.len() == 4
        }),
{
}

/// A request that is placed is numbered and listed behind those placed before it, carries the number
/// and the mode of its own transaction, and goes to the database and the store that it was placed on;
/// one that is refused leaves no trace.
pub proof fn placed_requests_are_their_transactions(
    result: Result<PlacedRequest, Error>,
    before: RequestEnvironment,
    after: RequestEnvironment,
    source: Option<RequestSource>,
    context: KvsOperationContext,
    operation: AsyncOperation,
    request: Option<u64>,
    records_param: Option<RecordsParam>,
    hold: OutboundHold,
)
    requires
        before.next_request_id < u64::MAX,
        places(
            result,
            before,
            after,
            source,
            context,
            operation,
            request,
            records_param,
            hold,
        ),
    ensures
        result is Ok <==> before.status.active && before.status.usable,
        result is Err ==> after == before,
        result matches Ok(placed) ==> {
            &&& placed.message.request_id == before.next_request_id
            &&& after.next_request_id > placed.message.request_id
            &&& placed.message.serial_number == before.serial_number
            &&& placed.message.origin@ == before.origin@
            &&& placed.message.db_name@ == before.db_name@
            &&& placed.message.store_name@ == before.store_name@
            &&& placed.message.operation == operation
            &&& placed.message.context == context
            &&& (placed.message.mode == IndexedDBTxnMode::Readonly <==> before.status.mode
                == IDBTransactionMode::Readonly)
            &&& (placed.message.mode == IndexedDBTxnMode::Readwrite <==> before.status.mode
                == IDBTransactionMode::Readwrite)
            &&& after.requests@.len() == before.requests@.len() + 1
            &&& after.requests@.drop_last() == before.requests@
            &&& after.status == before.status
            &&& after.transaction == before.transaction
            &&& after.serial_number == before.serial_number
            &&& after.store == before.store
            &&& after.store_name@ == before.store_name@
            &&& after.db_name@ == before.db_name@
            &&& after.origin@ == before.origin@
            &&& after.requests@.last() == placed.request
            &&& request matches Some(own) ==> placed.request == RequestUse::Reuse(own)
                && placed.created is None
            &&& request is None ==> (placed.created matches Some(created) && created.transaction
                == Some(before.transaction) && created.ready_state == IDBRequestReadyState::Pending
                && created.error is None && created.result == JsAnswer::Undefined
                && created.source == match source {
                Some(source) => Some(source),
                None => Some(RequestSource::ObjectStore(before.store)),
            })
        },
{
    if let Ok(placed) = result {
        assert(before.requests@.push(placed.request).drop_last() =~= before.requests@);
    }
}

/// A range holds what lies between: it covers every key between two that it covers, none below its
/// lower bound and none above its upper bound, a bound itself exactly where that bound is closed
/// and the other bound allows it.
pub proof fn ranges_hold_what_lies_between(
    range: RangeView,
    low: Seq<u8>,
    key: Seq<u8>,
    high: Seq<u8>,
)
    ensures
        range.covers(low) && range.covers(high) && key_lt(low, key) && key_lt(key, high)
            ==> range.covers(key),
        range.lower matches Some(lower) ==> (key_lt(key, lower) ==> !range.covers(key)),
        range.upper matches Some(upper) ==> (key_lt(upper, key) ==> !range.covers(key)),
        range.lower matches Some(lower) ==> (range.lower_open ==> !range.covers(lower)),
        range.upper matches Some(upper) ==> (range.upper_open ==> !range.covers(upper)),
        range.lower matches Some(lower) ==> (range.upper is None && !range.lower_open
            ==> range.covers(lower)),
        range.upper matches Some(upper) ==> (range.lower is None && !range.upper_open
            ==> range.covers(upper)),
        range.lower is None && range.upper is None ==> range.covers(key),
        range.lower matches Some(lower) ==> (range.upper matches Some(upper) ==> (key_lt(lower, key)
            && key_lt(key, upper) ==> range.covers(key))),
{
    if range.covers(low) && range.covers(high) && key_lt(low, key) && key_lt(key, high) {
        if let Some(lower) = range.lower {
            if key_lt(lower, low) {
                key_lt_transitive(lower, low, key);
            }
        }
        if let Some(upper) = range.upper {
            if key_lt(high, upper) {
                key_lt_transitive(key, high, upper);
            }
        }
    }
    if let Some(lower) = range.lower {
        key_lt_irreflexive(lower);
        if key_lt(key, lower) {
            key_lt_asymmetric(key, lower);
        }
    }
    if let Some(upper) = range.upper {
        key_lt_irreflexive(upper);
        if key_lt(upper, key) {
            key_lt_asymmetric(upper, key);
        }
    }
}

/// Keys stand byte by byte: of two that agree up to a place, the one with the lesser byte there comes
/// first, and one that another begins with comes before it.
pub proof fn keys_stand_byte_by_byte(head: Seq<u8>, a: u8, b: u8, rest: Seq<u8>, more: Seq<u8>)
    ensures
        a < b ==> key_lt(head + seq![a] + rest, head + seq![b] + more),
        key_lt(head, head + seq![a] + rest),
    decreases head.len(),
{
    let x = head + seq![a] + rest;
    let y = head + seq![b] + more;
    if head.len() == 0 {
        assert(x[0] == a && y[0] == b);
    } else {
        let tail = head.drop_first();
        keys_stand_byte_by_byte(tail, a, b, rest, more);
        assert(x.drop_first() =~= tail + seq![a] + rest);
        assert(y.drop_first() =~= tail + seq![b] + more);
        assert(x[0] == head[0] && y[0] == head[0]);
    }
}

/// An answer of the engine becomes the request's result: a count is that number, an answer without
/// data is undefined, what holds keys or values becomes the value that is made of them, and an error
/// is the request's; so is a value that could not be made.
pub proof fn answers_become_results(
    answer: Result<IdbResult, BackendError>,
    record_key: Option<IndexedDBKeyType>,
    source: Option<RequestSource>,
    conversion: Conversion,
    made: Result<u64, Error>,
)
    requires
        calls_for(answer, None, record_key, source, conversion),
    ensures
        ({
            let outcome = plain_outcome(conversion, made);
            match answer {
                Err(_) => outcome matches ConversionOutcome::Failed(error) && error@.kind
                    == ErrorKind::Data,
                Ok(IdbResult::Error(own)) => outcome == ConversionOutcome::Failed(own),
                Ok(IdbResult::Empty) => outcome == ConversionOutcome::Converted(
                    JsAnswer::Undefined,
                ),
                Ok(IdbResult::Count(count)) => outcome == ConversionOutcome::Converted(
                    JsAnswer::Number(count),
                ),
                Ok(IdbResult::Records(_)) => outcome matches ConversionOutcome::Failed(error)
                    && error@.kind == ErrorKind::InvalidState,
                Ok(_) => match made {
                    Ok(value) => outcome == ConversionOutcome::Converted(JsAnswer::Value(value)),
                    Err(error) => outcome == ConversionOutcome::Failed(error),
                },
            }
        }),
{
}

/// What is converted is what the engine answered: its key, its keys, its value or values, and the
/// value with the key that the request asked for.
pub proof fn conversions_are_of_the_answer(
    data: IdbResult,
    records_param: Option<RecordsParam>,
    record_key: Option<IndexedDBKeyType>,
    source: Option<RequestSource>,
    conversion: Conversion,
)
    requires
        calls_for(Ok(data), records_param, record_key, source, conversion),
    ensures
        conversion matches Conversion::Key(key) ==> data == IdbResult::Key(key),
        conversion matches Conversion::Keys(keys) ==> data == IdbResult::Keys(keys),
        conversion matches Conversion::Value { value, key } ==> data == IdbResult::Value(value)
            && key == record_key,
        conversion matches Conversion::Values(values) ==> data == IdbResult::Values(values),
        data is Records && records_param is Some ==> match records_param->0 {
            RecordsParam::Cursor { cursor, param } => conversion matches Conversion::Cursor {
                cursor: own,
                param: own_param,
                records,
            } && own == cursor && own_param == param && data == IdbResult::Records(records),
            RecordsParam::GetAll { kind, .. } => conversion matches Conversion::GetAll {
                kind: own,
                ..
            } && own == kind,
            RecordsParam::IndexBackfill { index_name, key_path, multi_entry, .. } => match source {
                Some(RequestSource::ObjectStore(store)) => conversion
                    matches Conversion::Backfill {
                    store: own_store,
                    index_name: own_name,
                    key_path: own_path,
                    multi_entry: own_multi,
                    records,
                    ..
                } && own_store == store && own_name == index_name && own_path == key_path
                    && own_multi == multi_entry && data == IdbResult::Records(records),
                _ => conversion is AbandonBackfill,
            },
        },
{
}

/// A `getAll` limits its answer where the count is not zero, and asks the engine for the records
/// that it answers from: the whole range, without the values only where nobody is shown them.
pub proof fn get_alls_ask_for_what_they_show(request: GetAllRequest, count: Option<u32>)
    ensures
        limit_of(count) is Some <==> (count matches Some(count) && count > 0),
        limit_of(count) is Some ==> limit_of(count) == count,
        read_all(request) matches AsyncOperation::Iterate { key_range, count: read, shape }
            && key_range == request.key_range && read == request.count && (shape
            == RecordsShape::KeysOnly <==> !(request.kind is Values || request.kind is Records)),
        projection(request) matches RecordsParam::GetAll { kind, direction, count: shown } && kind
            == request.kind && direction == request.direction && shown == request.answer_count,
{
}

/// A cursor is opened onto its first record: the engine is asked for the whole range, with values,
/// and nothing is passed over.
pub proof fn cursors_open_onto_the_first_record(
    read: AsyncOperation,
    param: RecordsParam,
    cursor: u64,
    range: IndexedDBKeyRange,
)
    requires
        reads_first(read, param, cursor, range),
    ensures
        read matches AsyncOperation::Iterate { key_range, count, shape } && key_range == range
            && count is None && shape == RecordsShape::WithValues,
        param matches RecordsParam::Cursor { cursor: own, param } && own == cursor
            && param.key is None && param.primary_key is None && param.count is None,
{
}

/// A request that is placed on an index is about that index, comes from its handle, and changes no
/// index; one that is placed on a store is about the store.
pub proof fn requests_go_to_their_source(
    result: Result<PlacedRequest, Error>,
    before: RequestEnvironment,
    after: RequestEnvironment,
    handle: u64,
    name: Seq<char>,
    operation: AsyncOperation,
    records_param: Option<RecordsParam>,
)
    ensures
        places_on_index(result, before, after, handle, name, operation, records_param) ==> (
        result matches Ok(placed) ==> {
            &&& placed.message.context.target matches KvsOperationTarget::Index { name: own }
                && own@ == name
            &&& placed.message.context.index_updates@.len() == 0
            &&& placed.message.operation == operation
            &&& placed.records_param == records_param
            &&& placed.request == RequestUse::Create(RequestSource::Index(handle))
            &&& placed.record_key is None
            &&& placed.hold == OutboundHold::Respect
        }),
        places_on_store(result, before, after, operation, records_param) ==> (
        result matches Ok(placed) ==> {
            &&& placed.message.context.target is ObjectStore
            &&& placed.message.context.index_updates@.len() == 0
            &&& placed.message.operation == operation
            &&& placed.records_param == records_param
            &&& placed.request == RequestUse::Create(RequestSource::ObjectStore(before.store))
            &&& placed.hold == OutboundHold::Respect
        }),
{
}

/// A new index is filled from every record of its store, with the values, by a read that nothing
/// holds back; what is placed after it waits.
pub proof fn indexes_are_filled_from_every_record(
    result: Result<IndexFill, Error>,
    before: RequestEnvironment,
    after: RequestEnvironment,
    store_name: Seq<char>,
    index: IDBIndex,
    key: Seq<u8>,
)
    requires
        fills_index(result, before, after, store_name, index),
    ensures
        result is Ok <==> before.status.active && before.status.usable,
        after.store_name == before.store_name,
        result matches Ok(fill) ==> {
            &&& fill.action@ == ActionView::HoldOutboundAfterBackfill
            &&& fill.read.hold == OutboundHold::Bypass
            &&& fill.read.message.store_name@ == store_name
            &&& fill.read.message.context.target is ObjectStore
            &&& fill.read.request == RequestUse::Create(RequestSource::ObjectStore(before.store))
            &&& fill.read.message.operation matches AsyncOperation::Iterate {
                key_range,
                count,
                shape,
            } && key_range@.covers(key) && count is None && shape == RecordsShape::WithValues
            &&& fill.read.records_param matches Some(
                RecordsParam::IndexBackfill { index_name, key_path, multi_entry, store_name: own },
            ) && index_name@ == index.name@ && key_path@ == index.key_path@ && multi_entry
                == index.multi_entry && own@ == store_name
        },
{
}

/// Of records whose values cannot be read back it is the first that an index is not filled for:
/// there is one such record, and every record before it was read.
pub proof fn the_first_unread_record_counts(
    findings: Seq<(IndexedDBKeyType, Result<Extraction, Error>)>,
    i: int,
    error: Error,
    j: int,
    other: Error,
)
    requires
        first_unread(findings, i, error),
    ensures
        first_unread(findings, j, other) ==> i == j && error == other,
        findings[i].1 is Err,
        0 <= j < findings.len() && findings[j].1 is Err ==> i <= j,
{
}

/// Where every value was read back, an index is filled from what each of them came to.
pub proof fn filling_uses_what_was_read(
    findings: Seq<(IndexedDBKeyType, Result<Extraction, Error>)>,
    i: int,
)
    requires
        0 <= i < findings.len(),
        findings[i].1 is Ok,
    ensures
        all_read(findings).len() == findings.len(),
        all_read(findings)[i].0 == findings[i].0,
        Ok::<Extraction, Error>(all_read(findings)[i].1) == findings[i].1,
{
}

/// Two unique indexes refuse a key in different words: each names itself.
pub proof fn refusals_name_their_index(name: Seq<char>, other: Seq<char>)
    ensures
        unique_index_message(name) == unique_index_message(other) ==> name == other,
        exists|at: int|
            0 <= at <= unique_index_message(name).len() - name.len() && #[trigger]
                unique_index_message(name).subrange(at, at + name.len()) == name,
{
    let front: int = "Unique index \""@.len() as int;
    let one = unique_index_message(name);
    let two = unique_index_message(other);
    assert(one.subrange(front, front + name.len()) =~= name);
    if one == two {
        assert(one.len() == two.len());
        assert(two.subrange(front, front + other.len()) =~= other);
    }
}

/// A handle that stands for an index tells of it what the index was made with, and belongs to no
/// upgrade.
pub proof fn handles_tell_of_their_index(handle: IDBIndex, index: IndexMetadata)
    requires
        stands_for(handle, index),
    ensures
        handle.name@ == index.name@,
        handle.key_path@ == index.key_path@,
        handle.unique == index.unique,
        handle.multi_entry == index.multi_entry,
        !handle.newly_created_during_transaction,
        handle.restored().name@ == index.name@,
{
}

/// A change of a store and a request that is placed on it go to the same database in the name of
/// the same transaction.
pub proof fn changes_go_where_requests_go(
    message: SchemaMessage,
    store: IDBObjectStore,
    environment: RequestEnvironment,
    after: RequestEnvironment,
    placed: PlacedRequest,
    operation: AsyncOperation,
    records_param: Option<RecordsParam>,
)
    requires
        is_about(message, store, environment),
        places_on_store(Ok(placed), environment, after, operation, records_param),
        environment.db_name@ == store.db_name@,
        environment.store_name@ == store.name@,
    ensures
        message.origin@ == placed.message.origin@,
        message.database_name@ == placed.message.db_name@,
        message.store_name@ == placed.message.store_name@,
        message.transaction_serial_number == placed.message.serial_number,
{
}

/// A key that is generated goes where an index waits for it: it stands in the array at every place
/// that was left open, and what was found stays at every other.
pub proof fn generated_keys_fill_the_open_places(
    update: KvsIndexUpdate,
    key: Seq<u8>,
    sequence: Option<Vec<IndexedDBKeyType>>,
    p: int,
)
    requires
        is_sequence_of(update, key, sequence),
    ensures
        sequence is Some <==> (update.record_key_placement matches Some(
            RecordKeyPlacement::InSequence(_),
        )),
        sequence matches Some(keys) ==> (update.record_key_placement matches Some(
            RecordKeyPlacement::InSequence(parts),
        ) && keys@.len() == parts@.len() && (0 <= p < parts@.len() ==> keys@[p]@
            == match parts@[p] {
            Some(own) => own@,
            None => key,
        })),
{
    if let Some(keys) = sequence {
        if let Some(RecordKeyPlacement::InSequence(parts)) = update.record_key_placement {
            assert(keys_view(keys@).len() == completed(parts@, key).len());
            if 0 <= p < parts@.len() {
                assert(keys_view(keys@)[p] == completed(parts@, key)[p]);
            }
        }
    }
}

/// Once the key is known no index waits for it: each update keeps its index, and has the array that
/// was made for it, the key itself, or the keys that it always had.
pub proof fn filled_updates_wait_no_more(
    before: KvsIndexUpdate,
    after: KvsIndexUpdate,
    key: Seq<u8>,
    array: Option<IndexedDBKeyType>,
)
    requires
        is_filled(before, after, key, array),
        awaits_sequence(before) ==> array is Some,
    ensures
        after.index_name@ == before.index_name@,
        after.record_key_placement is None,
        match before.record_key_placement {
            None => keys_view(after.keys@) == keys_view(before.keys@),
            Some(RecordKeyPlacement::WholeKey) => after.keys@.len() == 1 && after.keys@[0]@ == key,
            Some(RecordKeyPlacement::InSequence(_)) => after.keys@.len() == 1 && array is Some
                && after.keys@[0]@ == array->0@,
        },
{
    assert(keys_view(after.keys@).len() == after.keys@.len());
    if after.keys@.len() > 0 {
        assert(keys_view(after.keys@)[0] == after.keys@[0]@);
    }
}

/// The actions include this one.
pub open spec fn takes_action(step: DeliveryStep, action: ActionView) -> bool {
    actions_view(step.actions@).contains(action)
}

/// The delivery of an answer ends in one event: of success, with the answer as the result, or of an
/// error, which bubbles and can be cancelled. Either way the transaction is active when the event
/// fires; it is aborted first where it was committing and the request failed, and only there.
pub proof fn deliveries_fire_one_event(
    stage: DeliveryStage,
    outcome: ConversionOutcome,
    before: IDBRequest,
    after: IDBRequest,
    context: FailureContext,
    next: DeliveryStage,
    step: DeliveryStep,
    aborted: ErrorView,
)
    requires
        converts(stage, outcome, before, after, context, next, step),
    ensures
        step.next matches DeliveryNext::Fire(event) && (event.is_error <==> outcome is Failed) && (
        event.bubbles <==> event.is_error) && (event.cancelable <==> event.is_error),
        actions_view(step.actions@).last() == ActionView::Activate,
        takes_action(step, ActionView::Abort(aborted)) <==> context.committing && (
        outcome matches ConversionOutcome::Failed(error) && error@ == aborted),
        takes_action(step, ActionView::ResumeAfterBackfill) <==> stage is Backfilling
            && outcome is Converted,
        takes_action(step, ActionView::DiscardHeldOutbound) <==> stage is Backfilling
            && outcome is Failed,
        outcome matches ConversionOutcome::Converted(answer) ==> after.result == if stage
            is Backfilling {
            JsAnswer::Undefined
        } else {
            answer
        } && next is Succeeding,
        outcome matches ConversionOutcome::Failed(error) ==> after.result == JsAnswer::Undefined
            && next == DeliveryStage::Failing(error) && (context.created ==> after.error == Some(
            error,
        )) && (!context.created ==> after.error == before.error),
        after.source == before.source,
        after.transaction == before.transaction,
        after.ready_state == before.ready_state,
{
    let actions = actions_view(step.actions@);
    if let ConversionOutcome::Failed(error) = outcome {
        let tail = before_error_event(error@, context);
        if stage is Backfilling {
            assert(actions[0] == ActionView::DiscardHeldOutbound);
            if context.committing {
                assert(actions[1] == ActionView::Abort(error@));
            }
        } else if context.committing {
            assert(actions[0] == ActionView::Abort(error@));
        }
    } else if stage is Backfilling {
        assert(actions[0] == ActionView::ResumeAfterBackfill);
    }
}

/// A request that fails at once fires its error event as any other does, and one whose answer is
/// still to be converted fires nothing yet.
pub proof fn failed_requests_fire_at_once(
    conversion: Conversion,
    before: IDBRequest,
    after: IDBRequest,
    context: FailureContext,
    stage: DeliveryStage,
    step: DeliveryStep,
    aborted: ErrorView,
)
    requires
        request_begins(conversion, before, after, context, stage, step),
    ensures
        conversion is Fail || conversion is AbandonBackfill ==> {
            &&& step.next matches DeliveryNext::Fire(event) && event.is_error && event.bubbles
                && event.cancelable
            &&& actions_view(step.actions@).last() == ActionView::Activate
            &&& after.result == JsAnswer::Undefined
            &&& takes_action(step, ActionView::Abort(aborted)) ==> context.committing
        },
        conversion matches Conversion::Fail(error) ==> stage == DeliveryStage::Failing(error) && (
        context.created ==> after.error == Some(error)) && (context.committing ==> takes_action(
            step,
            ActionView::Abort(error@),
        )),
        !(conversion is Fail || conversion is AbandonBackfill) ==> step.next
            == DeliveryNext::Convert(conversion) && after.result == before.result && after.error
            == before.error,
        takes_action(step, ActionView::DiscardHeldOutbound) <==> conversion is AbandonBackfill,
{
    let actions = actions_view(step.actions@);
    if let Conversion::Fail(error) = conversion {
        if context.committing {
            assert(actions[0] == ActionView::Abort(error@));
        }
    }
    if conversion is AbandonBackfill {
        assert(actions[1] == ActionView::DiscardHeldOutbound);
    }
}

/// An index that has to be rebuilt is one that the store had, under a name that no handle stands
/// for; each name is rebuilt once, and no index that has to be is left out.
pub proof fn missing_indexes_are_those_without_handle(
    kept: Map<Seq<char>, usize>,
    indexes: Seq<IndexMetadata>,
    name: Seq<char>,
)
    ensures
        listed(missing(kept, indexes), name) <==> listed(indexes, name) && !kept.contains_key(name),
        forall|i: int, j: int|
            0 <= i < j < missing(kept, indexes).len() ==> (#[trigger] missing(
                kept,
                indexes,
            )[i]).name@ != (#[trigger] missing(kept, indexes)[j]).name@,
    decreases indexes.len(),
{
    if indexes.len() > 0 {
        let fewer = indexes.drop_last();
        let last = indexes[indexes.len() - 1];
        let before = missing(kept, fewer);
        let after = missing(kept, indexes);
        missing_indexes_are_those_without_handle(kept, fewer, name);
        missing_indexes_are_those_without_handle(kept, fewer, last.name@);
        if listed(indexes, name) {
            let i = choose|i: int| 0 <= i < indexes.len() && (#[trigger] indexes[i]).name@ == name;
            if i < fewer.len() {
                assert(fewer[i].name@ == name);
            }
        }
        if listed(fewer, name) {
            let i = choose|i: int| 0 <= i < fewer.len() && (#[trigger] fewer[i]).name@ == name;
            assert(indexes[i].name@ == name);
        }
        if !(kept.contains_key(last.name@) || listed(before, last.name@)) {
            assert(after == before.push(last));
            assert(after[before.len() as int] == last);
            if listed(before, name) {
                let i = choose|i: int| 0 <= i < before.len() && (#[trigger] before[i]).name@ == name;
                assert(after[i].name@ == name);
            }
            if listed(after, name) {
                let i = choose|i: int| 0 <= i < after.len() && (#[trigger] after[i]).name@ == name;
                if i < before.len() {
                    assert(before[i].name@ == name);
                }
            }
            assert forall|i: int, j: int| 0 <= i < j < after.len() implies (
            #[trigger] after[i]).name@ != (#[trigger] after[j]).name@ by {
                assert(after[i] == before[i]);
                if j < before.len() {
                    assert(after[j] == before[j]);
                }
            }
        }
        assert(indexes[indexes.len() - 1].name@ == last.name@);
    }
}

/// After an aborted upgrade every rebuilt index has a handle of its own, numbered on from those that
/// there are, and every index that was kept has the handle that it had.
pub proof fn rebuilt_indexes_get_new_handles(
    kept: Map<Seq<char>, usize>,
    base: int,
    rebuilt: Seq<IndexMetadata>,
    r: int,
    name: Seq<char>,
)
    requires
        0 <= base,
        base + rebuilt.len() <= usize::MAX,
        forall|i: int, j: int|
            0 <= i < j < rebuilt.len() ==> (#[trigger] rebuilt[i]).name@ != (
            #[trigger] rebuilt[j]).name@,
    ensures
        0 <= r < rebuilt.len() ==> with_rebuilt(kept, base, rebuilt).contains_key(rebuilt[r].name@)
            && with_rebuilt(kept, base, rebuilt)[rebuilt[r].name@] == base + r,
        !listed(rebuilt, name) ==> (with_rebuilt(kept, base, rebuilt).contains_key(name)
            <==> kept.contains_key(name)),
        !listed(rebuilt, name) && kept.contains_key(name) ==> with_rebuilt(kept, base, rebuilt)[name]
            == kept[name],
    decreases rebuilt.len(),
{
    if rebuilt.len() > 0 {
        let fewer = rebuilt.drop_last();
        let n = rebuilt.len() - 1;
        assert forall|i: int, j: int| 0 <= i < j < fewer.len() implies (#[trigger] fewer[i]).name@
            != (#[trigger] fewer[j]).name@ by {
            assert(fewer[i] == rebuilt[i]);
            assert(fewer[j] == rebuilt[j]);
        }
        rebuilt_indexes_get_new_handles(kept, base, fewer, r, name);
        if 0 <= r < n {
            assert(rebuilt[r].name@ != rebuilt[n].name@);
        }
        if listed(fewer, name) {
            let i = choose|i: int| 0 <= i < fewer.len() && (#[trigger] fewer[i]).name@ == name;
            assert(rebuilt[i].name@ == name);
        }
        if !listed(rebuilt, name) {
            assert(rebuilt[n].name@ != name);
        }
    }
}

/// What a record is looked up in is a snapshot of the index as it is.
pub proof fn snapshots_tell_of_their_index(
    snapshot: IndexSnapshot,
    index: IDBIndex,
    store: IDBObjectStore,
)
    requires
        shows_index(snapshot, index),
    ensures
        snapshot.index_name@ == index.name@,
        snapshot.key_path@ == index.key_path@,
        snapshot.multi_entry == index.multi_entry,
        store.string_key_path() is Some <==> (store.key_path matches Some(KeyPath::String(_))),
        store.string_key_path() matches Some(path) ==> store.key_path->0->String_0@ == path,
{
}

/// Of each index whose key does not hold the record's own, the key is looked for at its own path, and
/// element by element exactly where the index takes them so.
pub proof fn keys_of_indexes_are_looked_for_at_their_path(
    walk: IndexWalk,
    store_path: Option<KeyPath>,
    path: KeyPathView,
    multi_entry: bool,
)
    requires
        walk.awaits(store_path, path, multi_entry),
    ensures
        walk.rest@.len() > 0,
        walk.reach is None ==> path == walk.rest@.last().key_path@ && multi_entry
            == walk.rest@.last().multi_entry,
        walk.reach matches Some(reach) ==> !multi_entry && reach.extracted@.len()
            < reach.components@.len() && path == KeyPathView::String(
            reach.components@[reach.extracted@.len() as int]@,
        ),
{
}

/// A walk that goes on without an extraction keeps what it had found, and finds of other indexes only
/// that they wait for the record's own key.
pub proof fn walks_keep_what_they_found(walk: IndexWalk, before: IndexWalk, i: int)
    requires
        walk.goes_on_from(&before),
    ensures
        walk.generated == before.generated,
        0 <= i < before.findings@.len() ==> walk.findings@.len() > i && walk.findings@[i]
            == before.findings@[i],
        before.findings@.len() <= i < walk.findings@.len() ==> (walk.findings@[i].1 is WholeKey
            || walk.findings@[i].1 is InSequence),
        before.findings@.len() < i < walk.findings@.len() ==> (
        walk.findings@[i].1 matches IndexOutcome::InSequence(parts) ==> forall|p: int|
            0 <= p < parts@.len() ==> (#[trigger] parts@[p]) is None),
{
    if 0 <= i < before.findings@.len() {
        assert(walk.findings@.take(before.findings@.len() as int)[i] == walk.findings@[i]);
    }
}

/// Records are looked up in every index of the store, each as it is.
pub proof fn every_index_is_looked_up(
    store: IDBObjectStore,
    snapshots: Seq<IndexSnapshot>,
    i: int,
)
    requires
        store.shows_indexes(snapshots),
        0 <= i < store.index_set.entries@.len(),
    ensures
        i < snapshots.len(),
        snapshots[i].index_name@ == store.handles@[store.index_set.entries@[i].value as int].name@,
        snapshots[i].multi_entry
            == store.handles@[store.index_set.entries@[i].value as int].multi_entry,
{
    assert(shows_index(
        snapshots[i],
        store.handles@[store.index_set.entries@[i].value as int],
    ));
}

/// A `get` that can only answer with the record of one key knows that key; no other request does.
pub proof fn keys_are_known_where_one_was_asked_for(
    context: KvsOperationContext,
    operation: AsyncOperation,
    key: Seq<u8>,
)
    requires
        asked_key(context, operation) == Some(key),
    ensures
        context.target is ObjectStore,
        operation matches AsyncOperation::GetItem { key_range } && key_range@.covers(key) && forall|
            other: Seq<u8>,
        | #[trigger]
            key_range@.covers(other) ==> other == key,
{
    if let AsyncOperation::GetItem { key_range } = operation {
        key_lt_irreflexive(key);
        assert forall|other: Seq<u8>| #[trigger] key_range@.covers(other) implies other == key by {
            if key_lt(key, other) {
                key_lt_asymmetric(key, other);
            }
        }
    }
}

/// A cursor that is opened stands nowhere yet and holds nothing, and goes through the range in the
/// direction that it was opened for.
pub proof fn opened_cursors_stand_nowhere(
    cursor: IDBCursor,
    source: ObjectStoreOrIndex,
    range: IndexedDBKeyRange,
    direction: IDBCursorDirection,
    key_only: bool,
    request: Option<u64>,
)
    requires
        opens(cursor, source, range, direction, key_only, request),
    ensures
        cursor@.position is None,
        cursor@.object_store_position is None,
        cursor@.key is None,
        cursor@.effective_key() is None,
        cursor@.value is None,
        cursor@.cached_key is None,
        cursor@.cached_primary_key is None,
        !cursor@.got_value,
        cursor@.range == range@,
        cursor@.direction == direction,
        cursor@.source == source,
        cursor@.key_only == key_only,
        cursor@.request == request,
{
}

/// Comparing keys tells the lesser from the greater, and the same answer comes of comparing them the
/// other way round.
pub proof fn comparing_keys_follows_their_order(a: Seq<u8>, b: Seq<u8>)
    ensures
        key_order(a, b) == KeyOrder::Less <==> key_lt(a, b),
        key_order(a, b) == KeyOrder::Equal <==> a == b,
        key_order(a, b) == KeyOrder::Greater <==> key_lt(b, a),
        key_order(a, b) == KeyOrder::Less <==> key_order(b, a) == KeyOrder::Greater,
{
    key_lt_irreflexive(a);
    key_order_total(a, b);
    if key_lt(a, b) {
        key_lt_asymmetric(a, b);
    }
    if key_lt(b, a) {
        key_lt_asymmetric(b, a);
    }
}

/// What is extracted for an index is noted of the index that it was extracted for, behind what was
/// found before; a component that is no key drops that index.
pub proof fn extractions_go_to_their_index(
    walk: IndexWalk,
    before: IndexWalk,
    extraction: Extraction,
)
    requires
        walk.takes(&before, extraction),
        before.rest@.len() > 0,
    ensures
        walk.generated == before.generated,
        before.reach is None ==> walk.findings@.len() == before.findings@.len() + 1
            && walk.findings@.last().0 == before.rest@[before.rest@.len() - 1]
            && walk.findings@.last().1 == IndexOutcome::Extracted(extraction),
        before.reach is Some && (extraction is Key || extraction is ArrayKey) ==> walk.findings@
            == before.findings@ && walk.reach is Some && walk.reach->0.extracted@.len()
            == before.reach->0.extracted@.len() + 1 && walk.reach->0.extracted@.last() is Some,
        before.reach is Some && !(extraction is Key || extraction is ArrayKey)
            ==> walk.findings@.len() == before.findings@.len() + 1 && walk.findings@.last().0
            == before.rest@[before.rest@.len() - 1] && walk.findings@.last().1 is Dropped,
        forall|i: int|
            0 <= i < before.findings@.len() ==> #[trigger] walk.findings@[i] == before.findings@[i],
{
}

/// The records whose extraction gives them a place in an index, in order.
pub open spec fn placed_records(findings: Seq<(IndexedDBKeyType, Extraction)>) -> Seq<
    (IndexedDBKeyType, Extraction),
> {
    findings.filter(
        |finding: (IndexedDBKeyType, Extraction)| takes_part(IndexOutcome::Extracted(finding.1)),
    )
}

/// An index is filled with one entry for each record that has a place in it, in the order of the
/// records, each under the record's own key; the other records have none.
pub proof fn fillings_are_those_found(
    entries: Seq<IndexBackfillEntry>,
    findings: Seq<(IndexedDBKeyType, Extraction)>,
    multi_entry: bool,
)
    requires
        fills(entries, findings, multi_entry),
    ensures
        entries.len() == placed_records(findings).len(),
        forall|e: int|
            0 <= e < entries.len() ==> {
                let (key, extraction) = placed_records(findings)[e];
                &&& (#[trigger] entries[e]).primary_key == key
                &&& match extraction {
                    Extraction::Key(own) => entries[e].keys@ == seq![own],
                    Extraction::ArrayKey { key: own, elements } => entries[e].keys@
                        == if multi_entry {
                        elements@
                    } else {
                        seq![own]
                    },
                    _ => false,
                }
            },
    decreases findings.len(),
{
    reveal(Seq::filter);
    if findings.len() > 0 {
        let fewer = findings.drop_last();
        let last = findings.last();
        if takes_part(IndexOutcome::Extracted(last.1)) {
            fillings_are_those_found(entries.drop_last(), fewer, multi_entry);
            let n = entries.len() - 1;
            assert(placed_records(findings) == placed_records(fewer).push(last));
            assert forall|e: int| 0 <= e < entries.len() implies {
                let (key, extraction) = placed_records(findings)[e];
                &&& (#[trigger] entries[e]).primary_key == key
                &&& match extraction {
                    Extraction::Key(own) => entries[e].keys@ == seq![own],
                    Extraction::ArrayKey { key: own, elements } => entries[e].keys@
                        == if multi_entry {
                        elements@
                    } else {
                        seq![own]
                    },
                    _ => false,
                }
            } by {
                if e < n {
                    assert(entries.drop_last()[e] == entries[e]);
                } else {
                    assert(entries[e] == entries.last());
                }
            }
        } else {
            fillings_are_those_found(entries, fewer, multi_entry);
        }
    }
}

} // verus!
