//! Copying the session storage of one webview to another.

use vstd::prelude::*;
use vstd::string::*;

use crate::text::texts;
use crate::text_map::{item_at, TextItem};
use crate::webstorage::engine::{
    lists, EngineCall, WebStorageEngine, WebStorageEngineFactory, WebStorageType,
};
use crate::webstorage::entry::{total_bytes, OriginEntry};
use crate::webstorage::manager::{sound_entries, WebStorageManager, QUOTA_SIZE_LIMIT};
use crate::webstorage::slots::{
    by_slot, distinct, replaced as replaced_slot, slot_at, value_at as value_at_slot,
    without_webview, Slot, Slots,
};

verus! {

/// An origin for which an engine failed, and how.
#[derive(Debug)]
pub struct EngineFailure {
    pub origin: String,
    pub error: String,
}

/// An engine failed for the origin.
pub open spec fn has_failed(failures: Seq<EngineFailure>, origin: Seq<char>) -> bool {
    exists|i: int| 0 <= i < failures.len() && (#[trigger] failures[i]).origin@ == origin
}

/// Failures stay listed.
pub(crate) proof fn failures_grow(failures: Seq<EngineFailure>, failure: EngineFailure)
    ensures
        has_failed(failures.push(failure), failure.origin@),
        forall|origin: Seq<char>|
            has_failed(failures, origin) ==> #[trigger] has_failed(failures.push(failure), origin),
{
    let after = failures.push(failure);
    assert(after[failures.len() as int].origin@ == failure.origin@);
    assert forall|origin: Seq<char>| has_failed(failures, origin) implies #[trigger] has_failed(
        after,
        origin,
    ) by {
        let i = choose|i: int| 0 <= i < failures.len() && (#[trigger] failures[i]).origin@ == origin;
        assert(after[i].origin@ == origin);
    }
}

/// An engine failed for the origin with the error.
pub open spec fn failed_with(
    failures: Seq<EngineFailure>,
    origin: Seq<char>,
    error: Seq<char>,
) -> bool {
    exists|i: int|
        0 <= i < failures.len() && (#[trigger] failures[i]).origin@ == origin && failures[i].error@
            == error
}

/// An error that was listed stays listed.
pub(crate) proof fn errors_grow(failures: Seq<EngineFailure>, failure: EngineFailure)
    ensures
        failed_with(failures.push(failure), failure.origin@, failure.error@),
        forall|origin: Seq<char>, error: Seq<char>|
            failed_with(failures, origin, error) ==> #[trigger] failed_with(
                failures.push(failure),
                origin,
                error,
            ),
{
    let after = failures.push(failure);
    assert(after[failures.len() as int] == failure);
    assert forall|origin: Seq<char>, error: Seq<char>|
        failed_with(failures, origin, error) implies #[trigger] failed_with(
        after,
        origin,
        error,
    ) by {
        let i = choose|i: int|
            0 <= i < failures.len() && (#[trigger] failures[i]).origin@ == origin
                && failures[i].error@ == error;
        assert(after[i] == failures[i]);
    }
}

/// The engine was cleared.
pub open spec fn was_cleared<E: WebStorageEngine>(engine: E) -> bool {
    exists|after: E| #[trigger] engine.may_end(EngineCall::Clear, None, after)
}

/// Clearing the engine failed with the error.
pub open spec fn clearing_fails<E: WebStorageEngine>(engine: E, error: Seq<char>) -> bool {
    exists|after: E| #[trigger] engine.may_end(EngineCall::Clear, Some(error), after)
}

/// The engine was cleared, or that failed, which is listed.
pub open spec fn cleared_or_listed<E: WebStorageEngine>(
    engine: E,
    failures: Seq<EngineFailure>,
    origin: Seq<char>,
) -> bool {
    ||| was_cleared(engine)
    ||| exists|error: Seq<char>| #[trigger]
        failed_with(failures, origin, error) && clearing_fails(engine, error)
}

/// The origins for which a copy of session storage failed.
#[derive(Debug)]
pub struct CloneFailures {
    /// What the destination had could not be cleared.
    pub clearing: Vec<EngineFailure>,
    /// What the source has could not be read.
    pub reading: Vec<EngineFailure>,
    /// What was read could not be written to the destination.
    pub copying: Vec<EngineFailure>,
}

impl CloneFailures {
    /// Nothing failed.
    pub fn is_empty(&self) -> (empty: bool)
        ensures
            empty == (self.clearing@.len() == 0 && self.reading@.len() == 0 && self.copying@.len()
                == 0),
    {
        self.clearing.len() == 0 && self.reading.len() == 0 && self.copying.len() == 0
    }
}

/// The webview has the data of some origin.
pub open spec fn has_session<V>(slots: Map<(u64, Seq<char>), V>, webview: u64) -> bool {
    exists|origin: Seq<char>| #[trigger] slots.contains_key((webview, origin))
}

/// No webview but `webview` has other slots than before.
pub open spec fn others_unchanged<V>(
    before: Map<(u64, Seq<char>), V>,
    after: Map<(u64, Seq<char>), V>,
    webview: u64,
) -> bool {
    without_webview(after, webview) == without_webview(before, webview)
}

/// `dest` has the items of `src`, origin by origin, and nothing else.
pub open spec fn copied_session(
    before: Map<(u64, Seq<char>), OriginEntry>,
    after: Map<(u64, Seq<char>), OriginEntry>,
    src: u64,
    dest: u64,
) -> bool {
    forall|origin: Seq<char>|
        {
            &&& #[trigger] after.contains_key((dest, origin)) <==> before.contains_key(
                (src, origin),
            )
            &&& before.contains_key((src, origin)) ==> after[(dest, origin)].items() == before[(
                src,
                origin,
            )].items() && after[(dest, origin)]@ == before[(src, origin)]@
        }
}

/// One of the first `n` slots has the key.
pub open spec fn among<V>(entries: Seq<Slot<V>>, key: (u64, Seq<char>), n: int) -> bool {
    exists|k: int| k < n && slot_at(entries, key, k)
}

/// With one more slot, its key is among them, and no other key is new.
proof fn one_more<V>(entries: Seq<Slot<V>>, n: int)
    requires
        0 <= n < entries.len(),
    ensures
        among(entries, entries[n].key(), n + 1),
        forall|key: (u64, Seq<char>)|
            key != entries[n].key() ==> (#[trigger] among(entries, key, n + 1) <==> among(
                entries,
                key,
                n,
            )),
{
    assert(slot_at(entries, entries[n].key(), n));
    assert forall|key: (u64, Seq<char>)| key != entries[n].key() implies (#[trigger] among(
        entries,
        key,
        n + 1,
    ) <==> among(entries, key, n)) by {
        if among(entries, key, n + 1) {
            let k = choose|k: int| k < n + 1 && slot_at(entries, key, k);
            assert(k < n && slot_at(entries, key, k));
        }
        if among(entries, key, n) {
            let k = choose|k: int| k < n && slot_at(entries, key, k);
            assert(k < n + 1 && slot_at(entries, key, k));
        }
    }
}

/// A slot's key is not among the slots before it.
proof fn not_before<V>(entries: Seq<Slot<V>>, n: int)
    requires
        distinct(entries),
        0 <= n < entries.len(),
    ensures
        !among(entries, entries[n].key(), n),
{
    if among(entries, entries[n].key(), n) {
        let k = choose|k: int| k < n && slot_at(entries, entries[n].key(), k);
        assert(entries[k].key() != entries[n].key());
    }
}

/// All slots are among them.
proof fn all_among<V>(entries: Seq<Slot<V>>)
    ensures
        forall|key: (u64, Seq<char>)| #[trigger]
            among(entries, key, entries.len() as int) <==> by_slot(entries).contains_key(key),
{
    assert forall|key: (u64, Seq<char>)| #[trigger] among(
        entries,
        key,
        entries.len() as int,
    ) <==> by_slot(entries).contains_key(key) by {
        if by_slot(entries).contains_key(key) {
            let k = choose|k: int| slot_at(entries, key, k);
            assert(k < entries.len() && slot_at(entries, key, k));
        }
    }
}

/// Gives `dest` copies of what `src` has in memory, in place of what it had. Nothing changes where
/// `src` has nothing.
pub fn copy_session(data: &mut Slots<OriginEntry>, src: u64, dest: u64)
    requires
        old(data).wf(),
        sound_entries(old(data)@),
    ensures
        final(data).wf(),
        sound_entries(final(data)@),
        others_unchanged(old(data)@, final(data)@, dest),
        has_session(old(data)@, src) ==> copied_session(old(data)@, final(data)@, src, dest),
        !has_session(old(data)@, src) ==> *final(data) == *old(data),
{
    let ghost before = data@;
    let ghost entries = data.entries@;
    let mut copies: Slots<OriginEntry> = Slots::new();
    let mut i: usize = 0;
    while i < data.entries.len()
        invariant
            *data == *old(data),
            entries == data.entries@,
            before == data@,
            data.wf(),
            sound_entries(before),
            i <= data.entries.len(),
            copies.wf(),
            forall|j: int|
                0 <= j < copies.entries@.len() ==> (#[trigger] copies.entries@[j]).webview == dest,
            forall|origin: Seq<char>| #[trigger]
                copies@.contains_key((dest, origin)) <==> among(entries, (src, origin), i as int),
            forall|origin: Seq<char>| #[trigger]
                copies@.contains_key((dest, origin)) ==> before.contains_key((src, origin))
                    && copies@[(dest, origin)].wf() && copies@[(dest, origin)].items() == before[(
                    src,
                    origin,
                )].items() && copies@[(dest, origin)]@ == before[(src, origin)]@,
        decreases data.entries.len() - i,
    {
        if data.entries[i].webview == src {
            let slot = &data.entries[i];
            let ghost origin = slot.origin@;
            proof {
                value_at_slot(entries, i as int);
                one_more(entries, i as int);
                not_before(entries, i as int);
            }
            copies.add_slot(dest, slot.origin.clone(), slot.value.copy());
        } else {
            proof {
                one_more(entries, i as int);
            }
        }
        i += 1;
    }
    proof {
        all_among(entries);
    }
    if copies.entries.len() == 0 {
        proof {
            if has_session(before, src) {
                let origin = choose|origin: Seq<char>| #[trigger]
                    before.contains_key((src, origin));
                assert(copies@.contains_key((dest, origin)));
                let k = choose|k: int| slot_at(copies.entries@, (dest, origin), k);
            }
        }
        return ;
    }
    proof {
        let first = copies.entries@[0];
        value_at_slot(copies.entries@, 0);
        assert(copies@.contains_key((dest, first.origin@)));
        assert(before.contains_key((src, first.origin@)));
    }
    data.take_webview(dest);
    let ghost all = copies@;
    let ghost source = copies.entries@;
    for copy in it: copies.entries
        invariant
            it.seq() == source,
            all == by_slot(source),
            data.wf(),
            without_webview(data@, dest) == without_webview(before, dest),
            forall|j: int|
                0 <= j < source.len() ==> (#[trigger] source[j]).webview == dest,
            distinct(source),
            forall|origin: Seq<char>| #[trigger]
                data@.contains_key((dest, origin)) <==> among(source, (dest, origin), it.index()),
            forall|origin: Seq<char>| #[trigger]
                data@.contains_key((dest, origin)) ==> all.contains_key((dest, origin))
                    && data@[(dest, origin)] == all[(dest, origin)],
    {
        let ghost held = data@;
        let ghost i = it.index();
        let ghost origin = copy.origin@;
        proof {
            assert(copy == source[i]);
            value_at_slot(source, i);
            one_more(source, i);
            not_before(source, i);
        }
        data.add_slot(dest, copy.origin, copy.value);
        assert(without_webview(data@, dest) =~= without_webview(held, dest));
    }
    proof {
        all_among(source);
        assert forall|key: (u64, Seq<char>)| #[trigger] data@.contains_key(key) implies data@[key].wf()
            && total_bytes(data@[key].items())
            <= QUOTA_SIZE_LIMIT by {
            if key.0 != dest {
                assert(without_webview(data@, dest).contains_key(key));
                assert(without_webview(data@, dest)[key] == data@[key]);
                assert(before.contains_key(key));
            } else {
                assert(key == (dest, key.1));
                assert(before.contains_key((src, key.1)));
            }
        }
    }
}

/// The items are those of `contents`, each at least once.
pub open spec fn snapshot_is(items: Seq<TextItem>, contents: Map<Seq<char>, Seq<char>>) -> bool {
    &&& forall|i: int|
        0 <= i < items.len() ==> contents.get((#[trigger] items[i]).key@) == Some(items[i].value@)
    &&& forall|key: Seq<char>| #[trigger]
        contents.contains_key(key) ==> exists|i: int| item_at(items, key, i)
}

/// What an engine that was empty holds once the items are set in order.
pub open spec fn filled(items: Seq<TextItem>) -> Map<Seq<char>, Seq<char>>
    decreases items.len(),
{
    if items.len() == 0 {
        Map::empty()
    } else {
        filled(items.drop_last()).insert(items.last().key@, items.last().value@)
    }
}

/// Setting part of the contents gives that part.
proof fn filled_part(items: Seq<TextItem>, contents: Map<Seq<char>, Seq<char>>)
    requires
        forall|i: int|
            0 <= i < items.len() ==> contents.get((#[trigger] items[i]).key@) == Some(
                items[i].value@,
            ),
    ensures
        forall|key: Seq<char>| #[trigger]
            filled(items).contains_key(key) <==> exists|i: int| item_at(items, key, i),
        forall|key: Seq<char>| #[trigger]
            filled(items).contains_key(key) ==> contents.contains_key(key) && filled(items)[key]
                == contents[key],
    decreases items.len(),
{
    if items.len() > 0 {
        let part = items.drop_last();
        filled_part(part, contents);
        assert(contents.get(items[items.len() - 1].key@) == Some(items.last().value@));
        assert forall|key: Seq<char>| #[trigger] filled(items).contains_key(key) <==> exists|
            i: int,
        | item_at(items, key, i) by {
            if filled(items).contains_key(key) {
                if key == items.last().key@ {
                    assert(item_at(items, key, items.len() - 1));
                } else {
                    assert(filled(part).contains_key(key));
                    let i = choose|i: int| item_at(part, key, i);
                    assert(item_at(items, key, i));
                }
            }
            if exists|i: int| item_at(items, key, i) {
                let i = choose|i: int| item_at(items, key, i);
                if i < items.len() - 1 {
                    assert(item_at(part, key, i));
                    assert(filled(part).contains_key(key));
                }
            }
        }
        assert forall|key: Seq<char>| #[trigger] filled(items).contains_key(
            key,
        ) implies contents.contains_key(key) && filled(items)[key] == contents[key] by {
            if key != items.last().key@ {
                assert(filled(part).contains_key(key));
            }
        }
    }
}

/// Setting a snapshot gives what it is a snapshot of.
pub proof fn snapshot_restores(items: Seq<TextItem>, contents: Map<Seq<char>, Seq<char>>)
    requires
        snapshot_is(items, contents),
    ensures
        filled(items) == contents,
{
    filled_part(items, contents);
    assert forall|key: Seq<char>| #[trigger] contents.contains_key(key) <==> filled(
        items,
    ).contains_key(key) by {
        if contents.contains_key(key) {
            let i = choose|i: int| item_at(items, key, i);
            assert(item_at(items, key, i));
        }
    }
    assert(filled(items) =~= contents);
}

/// Reading all items of an engine fails with the error: listing the keys failed, or reading the
/// value of one of them.
pub open spec fn reading_fails<E: WebStorageEngine>(engine: E, error: Seq<char>) -> bool {
    ||| engine.may_end(EngineCall::Keys, Some(error), engine)
    ||| exists|key: Seq<char>|
        engine.contents().contains_key(key) && #[trigger] engine.may_end(
            EngineCall::Get(key),
            Some(error),
            engine,
        )
}

/// All items of an engine, or `None` where a key that it lists has no value. It fails only where
/// the engine does, with the engine's error.
pub fn read_snapshot<E: WebStorageEngine>(engine: &E) -> (result: Result<
    Option<Vec<TextItem>>,
    String,
>)
    ensures
        result matches Ok(snapshot) ==> (snapshot matches Some(items) && snapshot_is(
            items@,
            engine.contents(),
        )),
        result matches Err(error) ==> reading_fails(*engine, error@),
{
    let keys = match engine.keys() {
        Ok(keys) => keys,
        Err(error) => return Err(error),
    };
    let ghost listed = texts(keys@);
    let ghost all = keys@;
    let mut items: Vec<TextItem> = Vec::new();
    for key in it: keys
        invariant
            it.seq() == all,
            listed == texts(all),
            lists(listed, engine.contents()),
            items@.len() == it.index(),
            forall|i: int|
                0 <= i < items@.len() ==> (#[trigger] items@[i]).key@ == listed[i]
                    && engine.contents().get(items@[i].key@) == Some(items@[i].value@),
    {
        proof {
            assert(listed[it.index()] == key@);
            assert(listed.contains(key@));
        }
        match engine.get(key.as_str()) {
            Ok(Some(value)) => {
                items.push(TextItem { key, value });
            },
            Ok(None) => {
                return Ok(None);
            },
            Err(error) => {
                assert(engine.may_end(EngineCall::Get(key@), Some(error@), *engine));
                return Err(error);
            },
        }
    }
    proof {
        assert forall|key: Seq<char>| #[trigger] engine.contents().contains_key(
            key,
        ) implies exists|i: int| item_at(items@, key, i) by {
            assert(listed.contains(key));
            let i = choose|i: int| 0 <= i < listed.len() && listed[i] == key;
            assert(items@[i].key@ == listed[i]);
            assert(item_at(items@, key, i));
        }
    }
    Ok(Some(items))
}

/// Making the items of a snapshot those of an engine fails with the error: clearing the engine
/// failed, or setting one of the items, once those before it were set. The engine is as that left
/// it.
pub open spec fn restoring_fails<E: WebStorageEngine>(
    before: E,
    items: Seq<TextItem>,
    error: Seq<char>,
    after: E,
) -> bool {
    ||| before.may_end(EngineCall::Clear, Some(error), after)
    ||| exists|at: E, i: int| #[trigger] fails_at(at, items, i, error, after)
}

/// The engine holds the items before `i`, and setting item `i` fails with the error.
pub open spec fn fails_at<E: WebStorageEngine>(
    engine: E,
    items: Seq<TextItem>,
    i: int,
    error: Seq<char>,
    after: E,
) -> bool {
    &&& 0 <= i < items.len()
    &&& engine.contents() == filled(items.take(i))
    &&& engine.may_end(EngineCall::Put(items[i].key@, items[i].value@), Some(error), after)
}

/// Makes the items of a snapshot the items of an engine. It fails only where the engine does, with
/// the engine's error.
pub fn restore_snapshot<E: WebStorageEngine>(engine: &mut E, items: &Vec<TextItem>) -> (result:
    Result<(), String>)
    ensures
        result is Ok ==> final(engine).contents() == filled(items@),
        result matches Err(error) ==> restoring_fails(
            *old(engine),
            items@,
            error@,
            *final(engine),
        ),
{
    match engine.clear() {
        Ok(_) => {},
        Err(error) => return Err(error),
    }
    let mut i: usize = 0;
    assert(items@.take(0) =~= Seq::<TextItem>::empty());
    while i < items.len()
        invariant
            i <= items.len(),
            engine.contents() == filled(items@.take(i as int)),
        decreases items.len() - i,
    {
        proof {
            assert(items@.take(i + 1).drop_last() =~= items@.take(i as int));
        }
        let ghost at = *engine;
        match engine.set(items[i].key.as_str(), items[i].value.as_str()) {
            Ok(_) => {},
            Err(error) => {
                assert(fails_at(at, items@, i as int, error@, *engine));
                return Err(error);
            },
        }
        i += 1;
    }
    assert(items@.take(i as int) =~= items@);
    Ok(())
}

/// The items of an origin, read for a copy.
#[derive(Debug)]
pub struct Snapshot {
    pub origin: String,
    pub items: Vec<TextItem>,
}

/// The snapshot is listed.
pub open spec fn is_read(snapshots: Seq<Snapshot>, origin: Seq<char>, n: int) -> bool {
    exists|i: int| 0 <= i < n && (#[trigger] snapshots[i]).origin@ == origin
}

/// One snapshot more lists its origin, and no other that was not listed.
proof fn read_grows(snapshots: Seq<Snapshot>, snapshot: Snapshot)
    ensures
        ({
            let after = snapshots.push(snapshot);
            &&& is_read(after, snapshot.origin@, after.len() as int)
            &&& forall|origin: Seq<char>|
                is_read(snapshots, origin, snapshots.len() as int) ==> #[trigger] is_read(
                    after,
                    origin,
                    after.len() as int,
                )
        }),
{
    let after = snapshots.push(snapshot);
    assert(after[snapshots.len() as int].origin@ == snapshot.origin@);
    assert forall|origin: Seq<char>|
        is_read(snapshots, origin, snapshots.len() as int) implies #[trigger] is_read(
        after,
        origin,
        after.len() as int,
    ) by {
        let i = choose|i: int|
            0 <= i < snapshots.len() && (#[trigger] snapshots[i]).origin@ == origin;
        assert(after[i].origin@ == origin);
    }
}

/// Reads the items of every origin of `src`, and answers where that failed.
fn read_snapshots<E: WebStorageEngine>(environments: &Slots<E>, src: u64) -> (read: (
    Vec<Snapshot>,
    Vec<EngineFailure>,
))
    requires
        environments.wf(),
    ensures
        forall|a: int, b: int|
            0 <= a < b < read.0@.len() ==> (#[trigger] read.0@[a]).origin@ != (
            #[trigger] read.0@[b]).origin@,
        forall|a: int|
            0 <= a < read.0@.len() ==> environments@.contains_key(
                (src, (#[trigger] read.0@[a]).origin@),
            ) && snapshot_is(
                read.0@[a].items@,
                environments@[(src, read.0@[a].origin@)].contents(),
            ),
        forall|origin: Seq<char>| #[trigger]
            environments@.contains_key((src, origin)) ==> has_failed(read.1@, origin) || is_read(
                read.0@,
                origin,
                read.0@.len() as int,
            ),
        unreadable(environments@, src, read.1@),
{
    let ghost entries = environments.entries@;
    let mut snapshots: Vec<Snapshot> = Vec::new();
    let mut failures: Vec<EngineFailure> = Vec::new();
    let mut i: usize = 0;
    while i < environments.entries.len()
        invariant
            environments.wf(),
            entries == environments.entries@,
            i <= environments.entries.len(),
            forall|a: int, b: int|
                0 <= a < b < snapshots@.len() ==> (#[trigger] snapshots@[a]).origin@ != (
                #[trigger] snapshots@[b]).origin@,
            forall|a: int|
                0 <= a < snapshots@.len() ==> environments@.contains_key(
                    (src, (#[trigger] snapshots@[a]).origin@),
                ) && snapshot_is(
                    snapshots@[a].items@,
                    environments@[(src, snapshots@[a].origin@)].contents(),
                ) && among(entries, (src, snapshots@[a].origin@), i as int),
            forall|origin: Seq<char>| #[trigger]
                among(entries, (src, origin), i as int) ==> has_failed(failures@, origin)
                    || is_read(snapshots@, origin, snapshots@.len() as int),
            unreadable(environments@, src, failures@),
        decreases environments.entries.len() - i,
    {
        let ghost read = snapshots@;
        proof {
            one_more(entries, i as int);
            not_before(entries, i as int);
            value_at_slot(entries, i as int);
        }
        if environments.entries[i].webview == src {
            let slot = &environments.entries[i];
            match read_snapshot(&slot.value) {
                Ok(Some(items)) => {
                    let snapshot = Snapshot { origin: slot.origin.clone(), items };
                    proof {
                        read_grows(read, snapshot);
                    }
                    snapshots.push(snapshot);
                },
                Ok(None) => {
                    assert(false);
                    failures.push(
                        EngineFailure {
                            origin: slot.origin.clone(),
                            error: "Session Web Storage key disappeared during clone".to_owned(),
                        },
                    );
                },
                Err(error) => {
                    let failure = EngineFailure { origin: slot.origin.clone(), error };
                    proof {
                        failures_grow(failures@, failure);
                    }
                    failures.push(failure);
                },
            }
        }
        i += 1;
    }
    proof {
        all_among(entries);
        assert forall|origin: Seq<char>| #[trigger] environments@.contains_key(
            (src, origin),
        ) implies has_failed(failures@, origin) || is_read(
            snapshots@,
            origin,
            snapshots@.len() as int,
        ) by {
            assert(among(entries, (src, origin), entries.len() as int));
        }
    }
    (snapshots, failures)
}

/// Each failure is that of reading an engine of `src`.
pub open spec fn unreadable<E: WebStorageEngine>(
    engines: Map<(u64, Seq<char>), E>,
    src: u64,
    failures: Seq<EngineFailure>,
) -> bool {
    forall|i: int|
        0 <= i < failures.len() ==> engines.contains_key(
            (src, (#[trigger] failures[i]).origin@),
        ) && reading_fails(engines[(src, failures[i].origin@)], failures[i].error@)
}

/// Every engine that `dest` had was cleared, or that failed; each failure is of that kind.
pub open spec fn emptied<E: WebStorageEngine>(
    before: Map<(u64, Seq<char>), E>,
    dest: u64,
    failures: Seq<EngineFailure>,
) -> bool {
    &&& forall|origin: Seq<char>| #[trigger]
        before.contains_key((dest, origin)) ==> cleared_or_listed(
            before[(dest, origin)],
            failures,
            origin,
        )
    &&& forall|i: int|
        0 <= i < failures.len() ==> before.contains_key((dest, (#[trigger] failures[i]).origin@))
            && clearing_fails(before[(dest, failures[i].origin@)], failures[i].error@)
}

/// The failure is that of clearing one of the engines.
spec fn is_failed_clearing<E: WebStorageEngine>(slots: Seq<Slot<E>>, failure: EngineFailure) -> bool {
    exists|j: int|
        0 <= j < slots.len() && (#[trigger] slots[j]).origin@ == failure.origin@ && clearing_fails(
            slots[j].value,
            failure.error@,
        )
}

/// Clears the engines, and answers where that failed.
fn clear_engines<E: WebStorageEngine>(slots: Vec<Slot<E>>) -> (failures: Vec<EngineFailure>)
    requires
        distinct(slots@),
    ensures
        forall|j: int|
            0 <= j < slots@.len() ==> cleared_or_listed(
                (#[trigger] slots@[j]).value,
                failures@,
                slots@[j].origin@,
            ),
        forall|i: int|
            0 <= i < failures@.len() ==> is_failed_clearing(slots@, #[trigger] failures@[i]),
{
    let ghost all = slots@;
    let mut failures: Vec<EngineFailure> = Vec::new();
    for slot in it: slots
        invariant
            it.seq() == all,
            forall|j: int|
                0 <= j < it.index() ==> cleared_or_listed(
                    (#[trigger] all[j]).value,
                    failures@,
                    all[j].origin@,
                ),
            forall|i: int|
                0 <= i < failures@.len() ==> is_failed_clearing(all, #[trigger] failures@[i]),
    {
        let ghost n = it.index();
        let ghost listed = failures@;
        let ghost engine_before = slot.value;
        assert(slot == all[n]);
        let mut engine = slot.value;
        match engine.clear() {
            Ok(_) => {
                assert(engine_before.may_end(EngineCall::Clear, None, engine));
            },
            Err(error) => {
                assert(engine_before.may_end(EngineCall::Clear, Some(error@), engine));
                let failure = EngineFailure { origin: slot.origin, error };
                failures.push(failure);
                proof {
                    errors_grow(listed, failure);
                    assert(clearing_fails(engine_before, error@));
                    assert forall|j: int| 0 <= j < n implies cleared_or_listed(
                        (#[trigger] all[j]).value,
                        failures@,
                        all[j].origin@,
                    ) by {
                        assert(cleared_or_listed(all[j].value, listed, all[j].origin@));
                        if !was_cleared(all[j].value) {
                            let e = choose|e: Seq<char>| #[trigger]
                                failed_with(listed, all[j].origin@, e) && clearing_fails(
                                    all[j].value,
                                    e,
                                );
                            assert(failed_with(failures@, all[j].origin@, e));
                        }
                    }
                    assert forall|i: int| 0 <= i < failures@.len() implies is_failed_clearing(
                        all,
                        #[trigger] failures@[i],
                    ) by {
                        if i < listed.len() {
                            assert(failures@[i] == listed[i]);
                        } else {
                            assert(all[n].origin@ == failures@[i].origin@);
                        }
                    }
                }
            },
        }
    }
    failures
}

impl<E: WebStorageEngine, F: WebStorageEngineFactory<E>> WebStorageManager<E, F> {
    /// Writing the items of `src` to the engine of `dest` failed with the error: there is no engine
    /// and none could be opened, or the one that was opened failed, and is as that left it.
    pub open spec fn copying_fails(
        &self,
        before: &Self,
        src: u64,
        dest: u64,
        origin: Seq<char>,
        error: String,
    ) -> bool {
        let engines = before.session_environments@;
        &&& engines.contains_key((src, origin))
        &&& {
            ||| before.opens(WebStorageType::Session, dest, origin, Err(error))
            ||| exists|engine: E, items: Seq<TextItem>|
                {
                    &&& before.opens(WebStorageType::Session, dest, origin, Ok(engine))
                    &&& #[trigger] snapshot_is(items, engines[(src, origin)].contents())
                    &&& self.session_environments@.contains_key((dest, origin))
                    &&& #[trigger] restoring_fails(
                        engine,
                        items,
                        error@,
                        self.session_environments@[(dest, origin)],
                    )
                }
        }
    }

    /// The engine of `dest` holds what that of `src` holds.
    pub open spec fn is_copied(&self, before: &Self, src: u64, dest: u64, origin: Seq<char>) -> bool {
        &&& self.session_environments@.contains_key((dest, origin))
        &&& self.session_environments@[(dest, origin)].contents()
            == before.session_environments@[(src, origin)].contents()
    }

    /// `dest` has an engine only for origins of `src`, opened for it, and each of these engines
    /// holds what the one of `src` holds, unless reading that one or writing this one failed. A
    /// webview that is copied to itself has none left.
    pub open spec fn copied_engines(
        &self,
        before: &Self,
        src: u64,
        dest: u64,
        failures: CloneFailures,
    ) -> bool {
        let engines = before.session_environments@;
        &&& forall|origin: Seq<char>| #[trigger]
            self.session_environments@.contains_key((dest, origin)) ==> src != dest
                && engines.contains_key((src, origin)) && before.opened_for_session(dest, origin)
        &&& forall|origin: Seq<char>|
            src != dest && #[trigger] engines.contains_key((src, origin)) ==> self.is_copied(
                before,
                src,
                dest,
                origin,
            ) || has_failed(failures.reading@, origin) || has_failed(failures.copying@, origin)
        &&& unreadable(engines, src, failures.reading@)
        &&& forall|i: int|
            0 <= i < failures.copying@.len() ==> self.copying_fails(
                before,
                src,
                dest,
                (#[trigger] failures.copying@[i]).origin@,
                failures.copying@[i].error,
            )
    }

    /// The webview `dest` has the session storage of `src`, but where an engine failed.
    pub open spec fn session_cloned(
        &self,
        before: &Self,
        src: u64,
        dest: u64,
        failures: CloneFailures,
    ) -> bool {
        &&& self.session_storage_origins == before.session_storage_origins
        &&& self.local_storage_origins == before.local_storage_origins
        &&& self.environments == before.environments
        &&& self.has_config_dir == before.has_config_dir
        &&& self.engine_factory == before.engine_factory
        &&& self.use_engine_for_session == before.use_engine_for_session
        &&& if before.use_engine_for_session {
            &&& self.session_data == before.session_data
            &&& others_unchanged(before.session_environments@, self.session_environments@, dest)
            &&& emptied(before.session_environments@, dest, failures.clearing@)
            &&& self.copied_engines(before, src, dest, failures)
        } else {
            &&& failures.clearing@.len() == 0
            &&& failures.reading@.len() == 0
            &&& failures.copying@.len() == 0
            &&& self.session_environments == before.session_environments
            &&& others_unchanged(before.session_data@, self.session_data@, dest)
            &&& if has_session(before.session_data@, src) {
                copied_session(before.session_data@, self.session_data@, src, dest)
            } else {
                self.session_data == before.session_data
            }
        }
    }

    /// Clears the engines of a webview and takes them away.
    fn empty_session(&mut self, webview: u64) -> (failures: Vec<EngineFailure>)
        requires
            old(self).wf(),
        ensures
            final(self).wf(),
            final(self).same_but_session_environments(&*old(self)),
            final(self).session_environments@ == without_webview(
                old(self).session_environments@,
                webview,
            ),
            emptied(old(self).session_environments@, webview, failures@),
    {
        let ghost before = self.session_environments@;
        let taken = self.session_environments.take_webview(webview);
        let ghost all = taken@;
        let failures = clear_engines(taken);
        proof {
            assert forall|origin: Seq<char>| #[trigger]
                before.contains_key((webview, origin)) implies cleared_or_listed(
                before[(webview, origin)],
                failures@,
                origin,
            ) by {
                assert(by_slot(all).contains_key((webview, origin)));
                let j = choose|j: int| slot_at(all, (webview, origin), j);
                assert(slot_at(all, (webview, origin), j));
                value_at_slot(all, j);
                assert(by_slot(all)[(webview, origin)] == before[(webview, origin)]);
            }
            assert forall|i: int| 0 <= i < failures@.len() implies before.contains_key(
                (webview, (#[trigger] failures@[i]).origin@),
            ) && clearing_fails(before[(webview, failures@[i].origin@)], failures@[i].error@) by {
                assert(is_failed_clearing(all, failures@[i]));
                let j = choose|j: int|
                    0 <= j < all.len() && (#[trigger] all[j]).origin@ == failures@[i].origin@
                        && clearing_fails(all[j].value, failures@[i].error@);
                value_at_slot(all, j);
                assert(by_slot(all).contains_key(all[j].key()));
                assert(all[j].key() == (webview, all[j].origin@));
            }
        }
        failures
    }

    /// Gives the webview `dest` the session storage of `src`, and answers where engines failed.
    pub fn clone(&mut self, src: u64, dest: u64) -> (failures: CloneFailures)
        requires
            old(self).wf(),
        ensures
            final(self).wf(),
            final(self).session_cloned(&*old(self), src, dest, failures),
    {
        if !self.use_engine_for_session {
            copy_session(&mut self.session_data, src, dest);
            return CloneFailures {
                clearing: Vec::new(),
                reading: Vec::new(),
                copying: Vec::new(),
            };
        }
        let ghost before = self.session_environments@;
        let clearing = self.empty_session(dest);
        let (snapshots, reading) = read_snapshots(&self.session_environments, src);
        let mut copying: Vec<EngineFailure> = Vec::new();
        let ghost kept = self.session_environments@;
        let ghost all = snapshots@;
        assert(without_webview(kept, dest) =~= without_webview(before, dest));
        for snapshot in it: snapshots
            invariant
                it.seq() == all,
                self.wf(),
                self.same_but_session_environments(&*old(self)),
                before == old(self).session_environments@,
                kept == without_webview(before, dest),
                without_webview(self.session_environments@, dest) == without_webview(before, dest),
                forall|a: int, b: int|
                    0 <= a < b < all.len() ==> (#[trigger] all[a]).origin@ != (
                    #[trigger] all[b]).origin@,
                forall|a: int|
                    0 <= a < all.len() ==> kept.contains_key((src, (#[trigger] all[a]).origin@))
                        && snapshot_is(all[a].items@, kept[(src, all[a].origin@)].contents()),
                forall|origin: Seq<char>| #[trigger]
                    self.session_environments@.contains_key((dest, origin)) ==> is_read(
                        all,
                        origin,
                        it.index(),
                    ) && old(self).opened_for_session(dest, origin),
                forall|a: int|
                    0 <= a < it.index() ==> self.is_copied(
                        &*old(self),
                        src,
                        dest,
                        (#[trigger] all[a]).origin@,
                    ) || has_failed(copying@, all[a].origin@),
                forall|i: int|
                    0 <= i < copying@.len() ==> self.copying_fails(
                        &*old(self),
                        src,
                        dest,
                        (#[trigger] copying@[i]).origin@,
                        copying@[i].error,
                    ) && is_read(all, copying@[i].origin@, it.index()),
        {
            let ghost held = *self;
            let ghost listed = copying@;
            let ghost n = it.index();
            let ghost origin = snapshot.origin@;
            let ghost mut opened_engine: Option<E> = None;
            proof {
                assert(snapshot == all[n]);
                assert(kept.contains_key((src, origin)));
                snapshot_restores(snapshot.items@, kept[(src, origin)].contents());
                if is_read(all, origin, n) {
                    let a = choose|a: int| 0 <= a < n && (#[trigger] all[a]).origin@ == origin;
                    assert(all[a].origin@ != all[n].origin@);
                }
            }
            let result = match self.session_environment(dest, &snapshot.origin) {
                Ok(i) => {
                    let ghost entries = self.session_environments.entries@;
                    proof {
                        opened_engine = Some(entries[i as int].value);
                        assert(old(self).opens(
                            WebStorageType::Session,
                            dest,
                            origin,
                            Ok(entries[i as int].value),
                        ));
                    }
                    let result = restore_snapshot(
                        &mut self.session_environments.entries[i].value,
                        &snapshot.items,
                    );
                    proof {
                        replaced_slot(entries, i as int, self.session_environments.entries@);
                    }
                    result
                },
                Err(error) => Err(error),
            };
            proof {
                let now = self.session_environments@;
                let past = held.session_environments@;
                assert(now.remove((dest, origin)) =~= past.remove((dest, origin)));
                assert forall|key: (u64, Seq<char>)| key != (dest, origin) implies (
                now.contains_key(key) <==> #[trigger] past.contains_key(key)) && (past.contains_key(
                    key,
                ) ==> now[key] == past[key]) by {
                    assert(now.remove((dest, origin)).contains_key(key) <==> past.remove(
                        (dest, origin),
                    ).contains_key(key));
                    if past.contains_key(key) {
                        assert(now.remove((dest, origin))[key] == past.remove((dest, origin))[key]);
                    }
                }
                assert(without_webview(now, dest) =~= without_webview(past, dest));
            }
            match result {
                Ok(()) => {},
                Err(error) => {
                    let failure = EngineFailure { origin: snapshot.origin, error };
                    proof {
                        failures_grow(copying@, failure);
                        if opened_engine is Some {
                            assert(restoring_fails(
                                opened_engine->0,
                                snapshot.items@,
                                error@,
                                self.session_environments@[(dest, origin)],
                            ));
                        }
                        assert(self.copying_fails(old(self), src, dest, origin, error));
                    }
                    copying.push(failure);
                },
            }
            proof {
                assert forall|i: int| 0 <= i < copying@.len() implies self.copying_fails(
                    old(self),
                    src,
                    dest,
                    (#[trigger] copying@[i]).origin@,
                    copying@[i].error,
                ) && is_read(all, copying@[i].origin@, n + 1) by {
                    if i < listed.len() {
                        assert(copying@[i] == listed[i]);
                        let o = listed[i].origin@;
                        assert(is_read(all, o, n));
                        let a = choose|a: int| 0 <= a < n && (#[trigger] all[a]).origin@ == o;
                        assert(all[a].origin@ != all[n].origin@);
                        still_fails(old(self), &held, self, src, dest, o, listed[i].error);
                    } else {
                        assert(all[n].origin@ == copying@[i].origin@);
                    }
                }
            }
        }
        let failures = CloneFailures { clearing, reading, copying };
        proof {
            assert forall|origin: Seq<char>| #[trigger]
                self.session_environments@.contains_key((dest, origin)) implies src != dest
                && before.contains_key((src, origin)) by {
                let a = choose|a: int| 0 <= a < all.len() && (#[trigger] all[a]).origin@ == origin;
                assert(kept.contains_key((src, all[a].origin@)));
            }
            assert forall|origin: Seq<char>|
                src != dest && #[trigger] before.contains_key((src, origin)) implies self.is_copied(
                old(self),
                src,
                dest,
                origin,
            ) || has_failed(failures.reading@, origin) || has_failed(failures.copying@, origin) by {
                assert(kept.contains_key((src, origin)));
                if is_read(all, origin, all.len() as int) {
                    let a = choose|a: int|
                        0 <= a < all.len() && (#[trigger] all[a]).origin@ == origin;
                    assert(self.is_copied(old(self), src, dest, all[a].origin@) || has_failed(
                        copying@,
                        all[a].origin@,
                    ));
                }
            }
            assert forall|i: int| 0 <= i < failures.reading@.len() implies before.contains_key(
                (src, (#[trigger] failures.reading@[i]).origin@),
            ) && reading_fails(
                before[(src, failures.reading@[i].origin@)],
                failures.reading@[i].error@,
            ) by {
                assert(kept.contains_key((src, reading@[i].origin@)));
            }
        }
        failures
    }
}

/// A failed copy stays one while other origins are copied.
proof fn still_fails<E: WebStorageEngine, F: WebStorageEngineFactory<E>>(
    before: &WebStorageManager<E, F>,
    held: &WebStorageManager<E, F>,
    now: &WebStorageManager<E, F>,
    src: u64,
    dest: u64,
    origin: Seq<char>,
    error: String,
)
    requires
        held.copying_fails(before, src, dest, origin, error),
        held.session_environments@.contains_key((dest, origin))
            ==> now.session_environments@.contains_key((dest, origin))
            && now.session_environments@[(dest, origin)] == held.session_environments@[(
            dest,
            origin,
        )],
    ensures
        now.copying_fails(before, src, dest, origin, error),
{
    if !before.opens(WebStorageType::Session, dest, origin, Err(error)) {
        let engines = before.session_environments@;
        let (engine, items) = choose|engine: E, items: Seq<TextItem>|
            {
                &&& before.opens(WebStorageType::Session, dest, origin, Ok(engine))
                &&& #[trigger] snapshot_is(items, engines[(src, origin)].contents())
                &&& held.session_environments@.contains_key((dest, origin))
                &&& #[trigger] restoring_fails(
                    engine,
                    items,
                    error@,
                    held.session_environments@[(dest, origin)],
                )
            };
        assert(restoring_fails(
            engine,
            items,
            error@,
            now.session_environments@[(dest, origin)],
        ));
    }
}

} // verus!
