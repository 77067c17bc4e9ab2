//! Object stores, as script sees them.

use vstd::prelude::*;

use crate::error::{failed, option_text, plain, says, Error, ErrorKind, ErrorView};
use crate::indexeddb::engine::backfill::IndexBackfillEntry;
use crate::indexeddb::index::IDBIndex;
use crate::indexeddb::key::IndexedDBKeyType;
use crate::indexeddb::key_path::{Extraction, KeyPath};
use crate::indexeddb::operation::{KvsIndexUpdate, RecordKeyPlacement};
use crate::indexeddb::request::RequestEnvironment;
use crate::indexeddb::transaction::{IDBTransactionMode, TransactionStatus};
use crate::names::{named_at, value_at, Named, Names};

verus! {

/// What an upgrade that aborts puts back of an index.
#[derive(Debug)]
pub struct IndexMetadata {
    pub name: String,
    pub key_path: KeyPath,
    pub unique: bool,
    pub multi_entry: bool,
}

/// What an upgrade that aborts puts back of an object store.
#[derive(Debug)]
pub struct IDBObjectStoreRollbackState {
    pub newly_created_during_transaction: bool,
    /// The name that the store had when the upgrade began, once it has been renamed.
    pub rollback_name: Option<String>,
    pub rollback_indexes: Vec<IndexMetadata>,
}

/// The options that a store is created with.
#[derive(Debug)]
pub struct IDBObjectStoreParameters {
    pub key_path: Option<KeyPath>,
    pub auto_increment: bool,
}

/// An object store handle. Its index handles are numbered, and the index set says which of them is
/// the index of a name.
#[derive(Debug)]
pub struct IDBObjectStore {
    pub name: String,
    pub key_path: Option<KeyPath>,
    pub handles: Vec<IDBIndex>,
    pub index_set: Names<usize>,
    pub abort_state: Option<IDBObjectStoreRollbackState>,
    pub has_key_generator: bool,
    /// The value handed out for the key path, which never changes.
    pub cached_key_path: Option<u64>,
    pub db_name: String,
}

impl IDBObjectStore {
    /// The index set names handles that exist.
    pub open spec fn wf(&self) -> bool {
        &&& self.index_set.wf()
        &&& forall|i: int|
            0 <= i < self.index_set.entries@.len() ==> (
            #[trigger] self.index_set.entries@[i]).value < self.handles.len()
    }

    /// A new object store handle.
    pub fn new_inherited(
        db_name: String,
        name: String,
        options: Option<IDBObjectStoreParameters>,
        newly_created_during_transaction: bool,
        rollback_indexes: Vec<IndexMetadata>,
    ) -> (store: IDBObjectStore)
        ensures
            store.wf(),
            store.name == name,
            store.db_name == db_name,
            store.key_path == match options {
                Some(options) => options.key_path,
                None => None,
            },
            store.has_key_generator == (options matches Some(options) && options.auto_increment),
            store.index_set@ == Map::<Seq<char>, usize>::empty(),
            store.handles@.len() == 0,
            store.cached_key_path is None,
            store.abort_state == Some(
                IDBObjectStoreRollbackState {
                    newly_created_during_transaction,
                    rollback_name: None,
                    rollback_indexes,
                },
            ),
    {
        let (key_path, has_key_generator) = match options {
            Some(options) => (options.key_path, options.auto_increment),
            None => (None, false),
        };
        IDBObjectStore {
            name,
            key_path,
            handles: Vec::new(),
            index_set: Names::new(),
            abort_state: Some(
                IDBObjectStoreRollbackState {
                    newly_created_during_transaction,
                    rollback_name: None,
                    rollback_indexes,
                },
            ),
            has_key_generator,
            cached_key_path: None,
            db_name,
        }
    }

    /// The store's name.
    pub fn get_name(&self) -> (name: String)
        ensures
            name@ == self.name@,
    {
        self.name.clone()
    }

    /// Whether the store has an index of this name.
    pub fn has_index(&self, name: &String) -> (has: bool)
        requires
            self.wf(),
        ensures
            has == self.index_set@.contains_key(name@),
    {
        self.index_set.contains(name)
    }

    /// Takes every index out of the index set.
    pub fn clear_index_set(&mut self)
        ensures
            final(self).index_set@ == Map::<Seq<char>, usize>::empty(),
            final(self).wf(),
            final(self).handles == old(self).handles,
            final(self).unchanged_but_indexes(*old(self)),
    {
        self.index_set.clear();
    }

    /// Adds an index to the index set, and answers the number of its handle.
    pub fn add_index(
        &mut self,
        name: String,
        multi_entry: bool,
        unique: bool,
        key_path: KeyPath,
        newly_created_during_transaction: bool,
    ) -> (handle: usize)
        requires
            old(self).wf(),
        ensures
            final(self).wf(),
            handle == old(self).handles.len(),
            final(self).handles@ == old(self).handles@.push(
                IDBIndex {
                    name,
                    multi_entry,
                    unique,
                    key_path,
                    newly_created_during_transaction,
                    rollback_name: None,
                    cached_key_path: None,
                },
            ),
            final(self).index_set@ == old(self).index_set@.insert(name@, handle),
            final(self).unchanged_but_indexes(*old(self)),
    {
        let handle: usize = self.handles.len();
        let key = name.clone();
        self.handles.push(
            IDBIndex::new_inherited(
                name,
                multi_entry,
                unique,
                key_path,
                newly_created_during_transaction,
            ),
        );
        let ghost before = self.index_set;
        self.index_set.insert(key, handle);
        proof {
            values_stay_below(before, self.index_set, key@, handle, self.handles@.len());
        }
        handle
    }

    /// What the store is known by, apart from its name, is the same.
    pub open spec fn same_store(&self, before: IDBObjectStore) -> bool {
        &&& self.key_path == before.key_path
        &&& self.has_key_generator == before.has_key_generator
        &&& self.cached_key_path == before.cached_key_path
        &&& self.db_name == before.db_name
    }

    /// Everything but the indexes is the same.
    pub open spec fn unchanged_but_indexes(&self, before: IDBObjectStore) -> bool {
        &&& self.name == before.name
        &&& self.abort_state == before.abort_state
        &&& self.same_store(before)
    }
}

/// Setting one name to a value below a bound keeps every value below it.
proof fn values_stay_below(
    before: Names<usize>,
    after: Names<usize>,
    name: Seq<char>,
    value: usize,
    bound: nat,
)
    requires
        before.wf(),
        after.wf(),
        after@ == before@.insert(name, value),
        value < bound,
        forall|i: int|
            0 <= i < before.entries@.len() ==> (#[trigger] before.entries@[i]).value < bound,
    ensures
        forall|i: int|
            0 <= i < after.entries@.len() ==> (#[trigger] after.entries@[i]).value < bound,
{
    assert forall|i: int| 0 <= i < after.entries@.len() implies (
    #[trigger] after.entries@[i]).value < bound by {
        value_at(after.entries@, i);
        let key = after.entries@[i].name@;
        if key != name {
            assert(before@.contains_key(key));
            let k = choose|k: int| named_at(before.entries@, key, k);
            value_at(before.entries@, k);
        }
    }
}

/// Taking a name out keeps every value below a bound.
proof fn values_stay_below_without(
    before: Names<usize>,
    after: Names<usize>,
    name: Seq<char>,
    bound: nat,
)
    requires
        before.wf(),
        after.wf(),
        after@ == before@.remove(name),
        forall|i: int|
            0 <= i < before.entries@.len() ==> (#[trigger] before.entries@[i]).value < bound,
    ensures
        forall|i: int|
            0 <= i < after.entries@.len() ==> (#[trigger] after.entries@[i]).value < bound,
{
    assert forall|i: int| 0 <= i < after.entries@.len() implies (
    #[trigger] after.entries@[i]).value < bound by {
        value_at(after.entries@, i);
        let key = after.entries@[i].name@;
        assert(before@.contains_key(key));
        let k = choose|k: int| named_at(before.entries@, key, k);
        value_at(before.entries@, k);
    }
}

/// The index set with the handles that outlive an abort, each under the name that it gets back:
/// those that were not created during the upgrade.
pub open spec fn surviving(
    entries: Seq<Named<usize>>,
    handles: Seq<IDBIndex>,
) -> Map<Seq<char>, usize>
    decreases entries.len(),
{
    if entries.len() == 0 {
        Map::empty()
    } else {
        let before = surviving(entries.drop_last(), handles);
        let handle = entries.last().value;
        if handles[handle as int].newly_created_during_transaction {
            before
        } else {
            before.insert(handles[handle as int].restored().name@, handle)
        }
    }
}

/// One of the first `n` entries is of this handle.
pub open spec fn entered(entries: Seq<Named<usize>>, n: int, handle: int) -> bool {
    exists|i: int| 0 <= i < n && (#[trigger] entries[i]).value == handle
}

/// The indexes that have to be rebuilt, in order: those that the store had when the upgrade began
/// and that no handle stands for.
pub open spec fn missing(
    kept: Map<Seq<char>, usize>,
    indexes: Seq<IndexMetadata>,
) -> Seq<IndexMetadata>
    decreases indexes.len(),
{
    if indexes.len() == 0 {
        seq![]
    } else {
        let before = missing(kept, indexes.drop_last());
        if kept.contains_key(indexes.last().name@) || listed(before, indexes.last().name@) {
            before
        } else {
            before.push(indexes.last())
        }
    }
}

/// One of the indexes has this name.
pub open spec fn listed(indexes: Seq<IndexMetadata>, name: Seq<char>) -> bool {
    exists|i: int| 0 <= i < indexes.len() && (#[trigger] indexes[i]).name@ == name
}

/// The index set with the rebuilt indexes, whose handles are numbered from `base` on.
pub open spec fn with_rebuilt(
    kept: Map<Seq<char>, usize>,
    base: int,
    rebuilt: Seq<IndexMetadata>,
) -> Map<Seq<char>, usize>
    decreases rebuilt.len(),
{
    if rebuilt.len() == 0 {
        kept
    } else {
        with_rebuilt(kept, base, rebuilt.drop_last()).insert(
            rebuilt.last().name@,
            (base + rebuilt.len() - 1) as usize,
        )
    }
}

/// The handle stands for the index as it was when the upgrade began.
pub open spec fn stands_for(handle: IDBIndex, index: IndexMetadata) -> bool {
    &&& handle.name@ == index.name@
    &&& handle.multi_entry == index.multi_entry
    &&& handle.unique == index.unique
    &&& handle.key_path@ == index.key_path@
    &&& !handle.newly_created_during_transaction
    &&& handle.rollback_name is None
    &&& handle.cached_key_path is None
}

proof fn names_after_rebuilding(
    kept: Map<Seq<char>, usize>,
    base: int,
    rebuilt: Seq<IndexMetadata>,
    name: Seq<char>,
)
    ensures
        with_rebuilt(kept, base, rebuilt).contains_key(name) <==> kept.contains_key(name) || listed(
            rebuilt,
            name,
        ),
    decreases rebuilt.len(),
{
    if rebuilt.len() > 0 {
        let fewer = rebuilt.drop_last();
        names_after_rebuilding(kept, base, fewer, name);
        if listed(fewer, name) {
            let i = choose|i: int| 0 <= i < fewer.len() && (#[trigger] fewer[i]).name@ == name;
            assert(rebuilt[i].name@ == name);
        }
        if listed(rebuilt, name) && rebuilt.last().name@ != name {
            let i = choose|i: int| 0 <= i < rebuilt.len() && (#[trigger] rebuilt[i]).name@ == name;
            assert(fewer[i].name@ == name);
        }
        if rebuilt.last().name@ == name {
            assert(rebuilt[rebuilt.len() - 1].name@ == name);
        }
    }
}

/// An aborted upgrade leaves the store with every index that it had when the upgrade began.
pub proof fn abort_brings_every_index_back(
    kept: Map<Seq<char>, usize>,
    base: int,
    indexes: Seq<IndexMetadata>,
    j: int,
)
    requires
        0 <= j < indexes.len(),
    ensures
        with_rebuilt(kept, base, missing(kept, indexes)).contains_key(indexes[j].name@),
    decreases indexes.len(),
{
    let name = indexes[j].name@;
    let fewer = indexes.drop_last();
    let rebuilt = missing(kept, indexes);
    names_after_rebuilding(kept, base, rebuilt, name);
    if j < fewer.len() {
        assert(fewer[j] == indexes[j]);
        abort_brings_every_index_back(kept, base, fewer, j);
        names_after_rebuilding(kept, base, missing(kept, fewer), name);
        if listed(missing(kept, fewer), name) {
            let before = missing(kept, fewer);
            let i = choose|i: int| 0 <= i < before.len() && (#[trigger] before[i]).name@ == name;
            assert(rebuilt[i].name@ == name);
        }
    } else if !kept.contains_key(name) && !listed(missing(kept, fewer), name) {
        assert(rebuilt[rebuilt.len() - 1].name@ == name);
    }
}

/// No index that was created during the upgrade is in the index set after it has aborted.
pub proof fn abort_drops_new_indexes(
    entries: Seq<Named<usize>>,
    handles: Seq<IDBIndex>,
    name: Seq<char>,
)
    requires
        surviving(entries, handles).contains_key(name),
    ensures
        !handles[surviving(entries, handles)[name] as int].newly_created_during_transaction,
    decreases entries.len(),
{
    if entries.len() > 0 {
        let before = surviving(entries.drop_last(), handles);
        let handle = entries.last().value;
        if handles[handle as int].newly_created_during_transaction
            || handles[handle as int].restored().name@ != name {
            abort_drops_new_indexes(entries.drop_last(), handles, name);
        }
    }
}

impl IDBObjectStore {
    /// Puts the store back as it was when the upgrade that aborts began. Handles that script
    /// holds are the ones that come back: an index that survives keeps its handle and gets its
    /// name back, one that the upgrade created leaves the set, and one that it deleted is rebuilt.
    /// The key generator is not put back here: it lives in the engine.
    pub fn restore_metadata_after_abort(&mut self)
        requires
            old(self).wf(),
        ensures
            final(self).wf(),
            final(self).abort_state == old(self).abort_state,
            final(self).same_store(*old(self)),
            old(self).abort_state is None ==> *final(self) == *old(self),
            old(self).abort_state matches Some(state) ==> {
                let handles = old(self).handles@;
                let entries = old(self).index_set.entries@;
                let kept = surviving(entries, handles);
                let rebuilt = missing(kept, state.rollback_indexes@);
                &&& final(self).name == match state.rollback_name {
                    Some(name) if !state.newly_created_during_transaction => name,
                    _ => old(self).name,
                }
                &&& final(self).index_set@ == with_rebuilt(kept, handles.len() as int, rebuilt)
                &&& final(self).handles@.len() == handles.len() + rebuilt.len()
                &&& forall|h: int|
                    0 <= h < handles.len() ==> #[trigger] final(self).handles@[h] == if entered(
                        entries,
                        entries.len() as int,
                        h,
                    ) && !handles[h].newly_created_during_transaction {
                        handles[h].restored()
                    } else {
                        handles[h]
                    }
                &&& forall|k: int|
                    0 <= k < rebuilt.len() ==> stands_for(
                        #[trigger] final(self).handles@[handles.len() + k],
                        rebuilt[k],
                    )
            },
    {
        let state = match self.abort_state.take() {
            Some(state) => state,
            None => return ,
        };
        if !state.newly_created_during_transaction {
            if let Some(name) = &state.rollback_name {
                self.name = name.clone();
            }
        }
        self.restore_handles();
        self.rebuild_indexes(&state.rollback_indexes);
        self.abort_state = Some(state);
    }

    /// Keeps of the index set the handles that outlive an abort.
    fn restore_handles(&mut self)
        requires
            old(self).wf(),
        ensures
            final(self).wf(),
            final(self).unchanged_but_indexes(*old(self)),
            final(self).index_set@ == surviving(old(self).index_set.entries@, old(self).handles@),
            final(self).handles@.len() == old(self).handles@.len(),
            forall|h: int|
                0 <= h < old(self).handles@.len() ==> #[trigger] final(self).handles@[h]
                    == if entered(
                    old(self).index_set.entries@,
                    old(self).index_set.entries@.len() as int,
                    h,
                ) && !old(self).handles@[h].newly_created_during_transaction {
                    old(self).handles@[h].restored()
                } else {
                    old(self).handles@[h]
                },
    {
        let ghost entries = self.index_set.entries@;
        let ghost handles = self.handles@;
        let mut numbers: Vec<usize> = Vec::new();
        let mut i: usize = 0;
        while i < self.index_set.entries.len()
            invariant
                i <= self.index_set.entries@.len(),
                *self == *old(self),
                entries == self.index_set.entries@,
                numbers@.len() == i,
                forall|j: int| 0 <= j < i ==> #[trigger] numbers@[j] == entries[j].value,
            decreases self.index_set.entries@.len() - i,
        {
            numbers.push(self.index_set.entries[i].value);
            i += 1;
        }
        self.index_set.clear();
        assert(entries.take(0) =~= seq![]);
        let mut k: usize = 0;
        while k < numbers.len()
            invariant
                k <= numbers@.len() == entries.len(),
                entries == old(self).index_set.entries@,
                handles == old(self).handles@,
                old(self).wf(),
                self.wf(),
                self.unchanged_but_indexes(*old(self)),
                forall|j: int| 0 <= j < entries.len() ==> #[trigger] numbers@[j] == entries[j].value,
                self.index_set@ == surviving(entries.take(k as int), handles),
                self.handles@.len() == handles.len(),
                forall|h: int|
                    0 <= h < handles.len() ==> #[trigger] self.handles@[h] == if entered(
                        entries,
                        k as int,
                        h,
                    ) && !handles[h].newly_created_during_transaction {
                        handles[h].restored()
                    } else {
                        handles[h]
                    },
            decreases numbers@.len() - k,
        {
            let number = numbers[k];
            assert(entries[k as int].value == number);
            assert(number < handles.len());
            assert(entries.take(k + 1).drop_last() =~= entries.take(k as int));
            assert(entries.take(k + 1).last() == entries[k as int]);
            let ghost before = self.handles@;
            assert forall|h: int| #[trigger]
                entered(entries, k + 1, h) <==> entered(entries, k as int, h) || h == number by {
                if entered(entries, k as int, h) {
                    let j = choose|j: int| 0 <= j < k && (#[trigger] entries[j]).value == h;
                    assert(entries[j].value == h && 0 <= j < k + 1);
                }
            }
            if !self.handles[number].newly_created_during_transaction {
                let name = self.handles[number].restore_name_after_abort();
                let ghost set = self.index_set;
                self.index_set.insert(name, number);
                proof {
                    values_stay_below(set, self.index_set, name@, number, handles.len());
                    assert(self.handles@[number as int] == handles[number as int].restored());
                }
            }
            k += 1;
        }
        assert(entries.take(k as int) =~= entries);
    }

    /// Rebuilds the indexes that no handle stands for.
    fn rebuild_indexes(&mut self, indexes: &Vec<IndexMetadata>)
        requires
            old(self).wf(),
        ensures
            final(self).wf(),
            final(self).unchanged_but_indexes(*old(self)),
            ({
                let handles = old(self).handles@;
                let rebuilt = missing(old(self).index_set@, indexes@);
                &&& final(self).index_set@ == with_rebuilt(
                    old(self).index_set@,
                    handles.len() as int,
                    rebuilt,
                )
                &&& final(self).handles@.len() == handles.len() + rebuilt.len()
                &&& forall|h: int|
                    0 <= h < handles.len() ==> #[trigger] final(self).handles@[h] == handles[h]
                &&& forall|k: int|
                    0 <= k < rebuilt.len() ==> stands_for(
                        #[trigger] final(self).handles@[handles.len() + k],
                        rebuilt[k],
                    )
            }),
    {
        let ghost handles = self.handles@;
        let ghost kept = self.index_set@;
        let mut i: usize = 0;
        assert(indexes@.take(0) =~= seq![]);
        while i < indexes.len()
            invariant
                i <= indexes.len(),
                self.wf(),
                handles == old(self).handles@,
                kept == old(self).index_set@,
                self.unchanged_but_indexes(*old(self)),
                self.index_set@ == with_rebuilt(
                    kept,
                    handles.len() as int,
                    missing(kept, indexes@.take(i as int)),
                ),
                self.handles@.len() == handles.len() + missing(kept, indexes@.take(i as int)).len(),
                forall|h: int|
                    0 <= h < handles.len() ==> #[trigger] self.handles@[h] == handles[h],
                forall|k: int|
                    0 <= k < missing(kept, indexes@.take(i as int)).len() ==> stands_for(
                        #[trigger] self.handles@[handles.len() + k],
                        missing(kept, indexes@.take(i as int))[k],
                    ),
            decreases indexes.len() - i,
        {
            let index = &indexes[i];
            let ghost done = missing(kept, indexes@.take(i as int));
            let ghost more = missing(kept, indexes@.take(i + 1));
            assert(indexes@.take(i + 1).drop_last() =~= indexes@.take(i as int));
            proof {
                names_after_rebuilding(kept, handles.len() as int, done, index.name@);
            }
            if !self.index_set.contains(&index.name) {
                assert(more =~= done.push(*index));
                assert(more.drop_last() =~= done);
                let name = index.name.clone();
                let key_path = index.key_path.clone();
                self.add_index(name, index.multi_entry, index.unique, key_path, false);
                assert(more[done.len() as int] == *index);
            } else {
                assert(more == done);
            }
            i += 1;
        }
        assert(indexes@.take(i as int) =~= indexes@);
    }
}

/// Why a read of the store is refused, if it is.
pub open spec fn read_refusal(status: TransactionStatus, store_exists: bool) -> Option<ErrorView> {
    if !store_exists {
        Some(plain(ErrorKind::InvalidState))
    } else if !status.accepts_requests() {
        Some(plain(ErrorKind::TransactionInactive))
    } else {
        None
    }
}

/// Why a write to the store is refused, if it is.
pub open spec fn write_refusal(status: TransactionStatus, store_exists: bool) -> Option<ErrorView> {
    if !store_exists {
        Some(plain(ErrorKind::InvalidState))
    } else if !status.accepts_requests() {
        Some(plain(ErrorKind::TransactionInactive))
    } else if status.mode == IDBTransactionMode::Readonly {
        Some(plain(ErrorKind::ReadOnly))
    } else {
        None
    }
}

/// The outcome is the refusal, where there is one, and success otherwise.
pub open spec fn refused_or_ok(result: Result<(), Error>, refusal: Option<ErrorView>) -> bool {
    match refusal {
        Some(refusal) => failed(result, refusal),
        None => result is Ok,
    }
}

/// What a `put` knows of its record's key once the value has been cloned.
#[derive(Debug)]
pub enum PutKey {
    /// The record has this key, or is left for the engine to name where there is none.
    Known(Option<IndexedDBKeyType>),
    /// The engine generates the key, provided that it could be injected at this path.
    CheckInjection(String),
}

/// What the extraction at a sequence key path has come to so far.
#[derive(Debug)]
pub struct SequenceReach {
    pub components: Vec<String>,
    pub store_path: String,
    /// The key of each component that has been dealt with; none where it is the record's own key.
    pub extracted: Vec<Option<IndexedDBKeyType>>,
}

/// How far an index's key path reaches into the store's key path, for a record whose key the
/// engine has not generated yet.
#[derive(Debug)]
pub enum RecordKeyReach {
    /// The index's key path does not name the store's key path.
    Untouched,
    /// The index's key is the record's key.
    WholeKey,
    /// The index's key is a sequence, with the record's key at each `None`.
    InSequence(Vec<Option<IndexedDBKeyType>>),
    /// A component other than the record's key did not come to a key, so the record has no entry
    /// in the index.
    Dropped,
}

/// What finding out the reach of an index takes.
#[derive(Debug)]
pub enum ReachStep {
    Known(RecordKeyReach),
    /// The components have to be extracted one by one.
    Sequence(SequenceReach),
}

/// One of the strings is `text`.
pub open spec fn has_text(strings: Seq<String>, text: Seq<char>) -> bool {
    exists|i: int| 0 <= i < strings.len() && (#[trigger] strings[i])@ == text
}

fn contains_text(strings: &Vec<String>, text: &String) -> (found: bool)
    ensures
        found == has_text(strings@, text@),
{
    let mut i: usize = 0;
    while i < strings.len()
        invariant
            i <= strings.len(),
            forall|j: int| 0 <= j < i ==> (#[trigger] strings[j])@ != text@,
        decreases strings.len() - i,
    {
        if strings[i] == *text {
            return true;
        }
        i += 1;
    }
    false
}

impl SequenceReach {
    /// No more components have been dealt with than there are; those that are the store's key
    /// path have no key of their own, and the others have one.
    pub open spec fn wf(&self) -> bool {
        &&& self.extracted@.len() <= self.components@.len()
        &&& forall|i: int|
            0 <= i < self.extracted@.len() ==> ((#[trigger] self.extracted@[i]) is None
                <==> self.components@[i]@ == self.store_path@)
    }

    /// What comes next: a component to extract, or the end.
    pub open spec fn settled(&self) -> bool {
        self.extracted@.len() == self.components@.len() || self.components@[
        self.extracted@.len() as int]@ != self.store_path@
    }

    /// Passes over the components that are the record's own key, and answers which component has
    /// to be extracted next.
    pub fn next(&mut self) -> (component: Option<String>)
        requires
            old(self).wf(),
        ensures
            final(self).wf(),
            final(self).settled(),
            final(self).components == old(self).components,
            final(self).store_path == old(self).store_path,
            old(self).extracted@.len() <= final(self).extracted@.len(),
            final(self).extracted@.take(old(self).extracted@.len() as int) == old(
                self,
            ).extracted@,
            forall|i: int|
                old(self).extracted@.len() <= i < final(self).extracted@.len() ==> (
                #[trigger] final(self).extracted@[i]) is None,
            component matches Some(name) ==> final(self).extracted@.len()
                < final(self).components@.len() && name@ == final(self).components@[
            final(self).extracted@.len() as int]@,
            component is None ==> final(self).extracted@.len() == final(self).components@.len(),
    {
        let ghost start = self.extracted@;
        assert(self.extracted@.take(start.len() as int) =~= start);
        while self.extracted.len() < self.components.len()
            invariant
                self.wf(),
                self.components == old(self).components,
                self.store_path == old(self).store_path,
                start == old(self).extracted@,
                start.len() <= self.extracted@.len(),
                self.extracted@.take(start.len() as int) == start,
                forall|i: int|
                    start.len() <= i < self.extracted@.len() ==> (
                    #[trigger] self.extracted@[i]) is None,
            decreases self.components@.len() - self.extracted@.len(),
        {
            let at: usize = self.extracted.len();
            if self.components[at] != self.store_path {
                return Some(self.components[at].clone());
            }
            self.extracted.push(None);
            assert(self.extracted@.take(start.len() as int) =~= start);
        }
        None
    }

    /// Takes in what the component that was asked for came to. Anything but a key takes the record
    /// out of the index.
    pub fn take(&mut self, extraction: Extraction) -> (dropped: bool)
        requires
            old(self).wf(),
            old(self).settled(),
            old(self).extracted@.len() < old(self).components@.len(),
        ensures
            final(self).wf(),
            final(self).components == old(self).components,
            final(self).store_path == old(self).store_path,
            match extraction {
                Extraction::Key(key) | Extraction::ArrayKey { key, .. } => !dropped
                    && final(self).extracted@ == old(self).extracted@.push(Some(key)),
                _ => dropped && *final(self) == *old(self),
            },
    {
        match extraction {
            Extraction::Key(key) | Extraction::ArrayKey { key, .. } => {
                self.extracted.push(Some(key));
                false
            },
            _ => true,
        }
    }

    /// The reach, once every component has been dealt with.
    pub fn finish(self) -> (reach: RecordKeyReach)
        requires
            self.wf(),
            self.extracted@.len() == self.components@.len(),
        ensures
            reach == RecordKeyReach::InSequence(self.extracted),
    {
        RecordKeyReach::InSequence(self.extracted)
    }
}

/// One index of a store, as extracting index keys needs it.
#[derive(Debug)]
pub struct IndexSnapshot {
    pub index_name: String,
    pub key_path: KeyPath,
    pub multi_entry: bool,
}

/// The snapshot is that of the index.
pub open spec fn shows_index(snapshot: IndexSnapshot, index: IDBIndex) -> bool {
    snapshot.index_name@ == index.name@ && snapshot.key_path@ == index.key_path@
        && snapshot.multi_entry == index.multi_entry
}

impl IDBObjectStore {
    /// The snapshots are those of the indexes in the index set.
    pub open spec fn shows_indexes(&self, snapshots: Seq<IndexSnapshot>) -> bool {
        &&& snapshots.len() == self.index_set.entries@.len()
        &&& forall|i: int|
            0 <= i < snapshots.len() ==> shows_index(
                #[trigger] snapshots[i],
                self.handles@[self.index_set.entries@[i].value as int],
            )
    }

    /// The indexes in the index set. Extraction runs script, which can reach this store again, so
    /// the index set is read here and not across any of it.
    pub fn index_snapshots(&self) -> (snapshots: Vec<IndexSnapshot>)
        requires
            self.wf(),
        ensures
            self.shows_indexes(snapshots@),
    {
        let mut snapshots: Vec<IndexSnapshot> = Vec::new();
        let mut i: usize = 0;
        while i < self.index_set.entries.len()
            invariant
                self.wf(),
                i <= self.index_set.entries.len(),
                snapshots.len() == i,
                forall|k: int|
                    0 <= k < i ==> shows_index(
                        #[trigger] snapshots@[k],
                        self.handles@[self.index_set.entries@[k].value as int],
                    ),
            decreases self.index_set.entries.len() - i,
        {
            let handle: usize = self.index_set.entries[i].value;
            assert(self.index_set.entries@[i as int].value < self.handles.len());
            let index = &self.handles[handle];
            snapshots.push(
                IndexSnapshot {
                    index_name: index.name.clone(),
                    key_path: index.key_path.clone(),
                    multi_entry: index.multi_entry,
                },
            );
            i += 1;
        }
        snapshots
    }
}

/// What was found out of one index for a record.
#[derive(Debug)]
pub enum IndexOutcome {
    /// The index's key is the record's own key, which the engine has yet to generate.
    WholeKey,
    /// The index's key is a sequence with the record's own key at each `None`.
    InSequence(Vec<Option<IndexedDBKeyType>>),
    /// The index reaches the record's own key, but another component came to no key.
    Dropped,
    /// Its key path was evaluated against the value.
    Extracted(Extraction),
}

/// The index keys that an extraction comes to: the elements of an array key for a multi-entry
/// index, otherwise the one key; none where it came to no key.
pub open spec fn index_keys(extraction: Extraction, multi_entry: bool) -> Option<
    Seq<IndexedDBKeyType>,
> {
    match extraction {
        Extraction::Key(key) => Some(seq![key]),
        Extraction::ArrayKey { key, elements } => if multi_entry {
            Some(elements@)
        } else {
            Some(seq![key])
        },
        _ => None,
    }
}

fn to_index_keys(extraction: Extraction, multi_entry: bool) -> (keys: Option<Vec<IndexedDBKeyType>>)
    ensures
        match keys {
            Some(keys) => index_keys(extraction, multi_entry) == Some(keys@),
            None => index_keys(extraction, multi_entry) is None,
        },
{
    match extraction {
        Extraction::Key(key) => {
            let keys: Vec<IndexedDBKeyType> = vec![key];
            assert(keys@ =~= seq![key]);
            Some(keys)
        },
        Extraction::ArrayKey { key, elements } => {
            if multi_entry {
                Some(elements)
            } else {
                let keys: Vec<IndexedDBKeyType> = vec![key];
                assert(keys@ =~= seq![key]);
                Some(keys)
            }
        },
        _ => None,
    }
}

/// The update is what the outcome calls for.
pub open spec fn updates_index(
    update: KvsIndexUpdate,
    snapshot: IndexSnapshot,
    outcome: IndexOutcome,
) -> bool {
    &&& update.index_name == snapshot.index_name
    &&& match outcome {
        IndexOutcome::WholeKey => update.keys@.len() == 0 && update.record_key_placement == Some(
            RecordKeyPlacement::WholeKey,
        ),
        IndexOutcome::InSequence(components) => update.keys@.len() == 0
            && update.record_key_placement == Some(RecordKeyPlacement::InSequence(components)),
        IndexOutcome::Dropped => false,
        IndexOutcome::Extracted(extraction) => update.record_key_placement is None && index_keys(
            extraction,
            snapshot.multi_entry,
        ) == Some(update.keys@),
    }
}

/// The index has no entry for the record.
pub open spec fn leaves_out(snapshot: IndexSnapshot, outcome: IndexOutcome) -> bool {
    match outcome {
        IndexOutcome::WholeKey | IndexOutcome::InSequence(_) => false,
        IndexOutcome::Dropped => true,
        IndexOutcome::Extracted(extraction) => index_keys(extraction, snapshot.multi_entry) is None,
    }
}

/// The update that one index takes from a record, if it takes any.
pub fn index_update(snapshot: IndexSnapshot, outcome: IndexOutcome) -> (update: Option<
    KvsIndexUpdate,
>)
    ensures
        match update {
            Some(update) => updates_index(update, snapshot, outcome),
            None => leaves_out(snapshot, outcome),
        },
{
    let index_name = snapshot.index_name;
    match outcome {
        IndexOutcome::WholeKey => Some(
            KvsIndexUpdate {
                index_name,
                keys: Vec::new(),
                record_key_placement: Some(RecordKeyPlacement::WholeKey),
            },
        ),
        IndexOutcome::InSequence(components) => Some(
            KvsIndexUpdate {
                index_name,
                keys: Vec::new(),
                record_key_placement: Some(RecordKeyPlacement::InSequence(components)),
            },
        ),
        IndexOutcome::Dropped => None,
        IndexOutcome::Extracted(extraction) => match to_index_keys(
            extraction,
            snapshot.multi_entry,
        ) {
            Some(keys) => Some(KvsIndexUpdate { index_name, keys, record_key_placement: None }),
            None => None,
        },
    }
}

/// The updates are those that the outcomes call for, in order, one for each index that is not
/// left out.
pub open spec fn updates_all(
    updates: Seq<KvsIndexUpdate>,
    findings: Seq<(IndexSnapshot, IndexOutcome)>,
) -> bool
    decreases findings.len(),
{
    if findings.len() == 0 {
        updates.len() == 0
    } else {
        let (snapshot, outcome) = findings.last();
        if leaves_out(snapshot, outcome) {
            updates_all(updates, findings.drop_last())
        } else {
            updates.len() > 0 && updates_index(updates.last(), snapshot, outcome) && updates_all(
                updates.drop_last(),
                findings.drop_last(),
            )
        }
    }
}

/// The index updates of a record, given what was found out of each index.
pub fn extract_index_updates(findings: Vec<(IndexSnapshot, IndexOutcome)>) -> (updates: Vec<
    KvsIndexUpdate,
>)
    ensures
        updates_all(updates@, findings@),
{
    let mut updates: Vec<KvsIndexUpdate> = Vec::new();
    let ghost all = findings@;
    assert(all.take(0) =~= seq![]);
    for finding in it: findings
        invariant
            it.seq() == findings@,
            all == findings@,
            updates_all(updates@, all.take(it.index() as int)),
    {
        let ghost i = it.index() as int;
        assert(all.take(i + 1).drop_last() =~= all.take(i));
        assert(all.take(i + 1).last() == finding);
        let ghost before = updates@;
        match index_update(finding.0, finding.1) {
            Some(update) => {
                updates.push(update);
                assert(updates@.drop_last() =~= before);
            },
            None => {},
        }
    }
    assert(all.take(all.len() as int) =~= all);
    updates
}

/// The entries are those that the extractions call for, in order: one for each record that came
/// to an index key.
pub open spec fn fills(
    entries: Seq<IndexBackfillEntry>,
    findings: Seq<(IndexedDBKeyType, Extraction)>,
    multi_entry: bool,
) -> bool
    decreases findings.len(),
{
    if findings.len() == 0 {
        entries.len() == 0
    } else {
        match index_keys(findings.last().1, multi_entry) {
            None => fills(entries, findings.drop_last(), multi_entry),
            Some(keys) => entries.len() > 0 && entries.last().primary_key == findings.last().0
                && entries.last().keys@ == keys && fills(
                entries.drop_last(),
                findings.drop_last(),
                multi_entry,
            ),
        }
    }
}

/// What each record's value came to, where every value could be read back.
pub open spec fn all_read(findings: Seq<(IndexedDBKeyType, Result<Extraction, Error>)>) -> Seq<
    (IndexedDBKeyType, Extraction),
> {
    findings.map_values(
        |finding: (IndexedDBKeyType, Result<Extraction, Error>)|
            (
                finding.0,
                match finding.1 {
                    Ok(extraction) => extraction,
                    Err(_) => Extraction::Failure,
                },
            ),
    )
}

/// The value of record `i` is the first that could not be read back, for this reason.
pub open spec fn first_unread(
    findings: Seq<(IndexedDBKeyType, Result<Extraction, Error>)>,
    i: int,
    error: Error,
) -> bool {
    &&& 0 <= i < findings.len()
    &&& findings[i].1 == Err::<Extraction, Error>(error)
    &&& forall|j: int| 0 <= j < i ==> (#[trigger] findings[j]).1 is Ok
}

/// The entries that fill a new index, given each record's key and what the index's key path came
/// to on its value, the record's key put back into it where it had none. A value that could not be
/// read back fails the whole.
pub fn finish_index_backfill(
    findings: Vec<(IndexedDBKeyType, Result<Extraction, Error>)>,
    multi_entry: bool,
) -> (result: Result<Vec<IndexBackfillEntry>, Error>)
    ensures
        match result {
            Ok(entries) => {
                &&& forall|i: int| 0 <= i < findings@.len() ==> (#[trigger] findings@[i]).1 is Ok
                &&& fills(entries@, all_read(findings@), multi_entry)
            },
            Err(error) => exists|i: int| #[trigger] first_unread(findings@, i, error),
        },
{
    let mut entries: Vec<IndexBackfillEntry> = Vec::new();
    let ghost all = all_read(findings@);
    assert(all.take(0) =~= seq![]);
    for finding in it: findings
        invariant
            it.seq() == findings@,
            all == all_read(findings@),
            forall|i: int| 0 <= i < it.index() ==> (#[trigger] findings@[i]).1 is Ok,
            fills(entries@, all.take(it.index() as int), multi_entry),
    {
        let ghost i = it.index() as int;
        assert(finding == findings@[i]);
        let extraction = match finding.1 {
            Ok(extraction) => extraction,
            Err(error) => {
                assert(first_unread(findings@, i, error));
                return Err(error);
            },
        };
        assert(all.take(i + 1).drop_last() =~= all.take(i));
        assert(all.take(i + 1).last() == (finding.0, extraction));
        let ghost before = entries@;
        match to_index_keys(extraction, multi_entry) {
            Some(keys) => {
                entries.push(IndexBackfillEntry { primary_key: finding.0, keys });
                assert(entries@.drop_last() =~= before);
            },
            None => {},
        }
    }
    assert(all.take(all.len() as int) =~= all);
    Ok(entries)
}

/// What is done with a stored value whose key may have to be put back.
#[derive(Clone, Copy, Debug, PartialEq, Eq, Structural)]
pub enum Injection {
    /// The key is put into the value.
    Inject,
    /// The value is handed back as it is.
    Keep,
    /// The value is handed back as it is, and the pending exception is cleared.
    KeepAndClear,
}

impl IDBObjectStore {
    /// The store's key path, where it is one string.
    pub open spec fn string_key_path(&self) -> Option<Seq<char>> {
        match self.key_path {
            Some(KeyPath::String(path)) => Some(path@),
            _ => None,
        }
    }

    /// The path at which a stored value may lack its record's key: the store's key path, where it
    /// is one string. No other store's values are asked.
    pub fn record_key_path(&self) -> (path: Option<String>)
        ensures
            option_text(path) == self.string_key_path(),
    {
        match &self.key_path {
            Some(KeyPath::String(path)) => Some(path.clone()),
            _ => None,
        }
    }

    /// Whether the record's key is put back into a stored value, given what the value has at
    /// [`IDBObjectStore::record_key_path`]: only where it has nothing there.
    pub fn inject_record_key_if_absent(&self, extraction: &Extraction) -> (injection: Injection)
        ensures
            injection == if self.string_key_path() is None {
                Injection::Keep
            } else {
                match extraction {
                    Extraction::Failure => Injection::Inject,
                    Extraction::Threw => Injection::KeepAndClear,
                    _ => Injection::Keep,
                }
            },
    {
        match &self.key_path {
            Some(KeyPath::String(_)) => match extraction {
                Extraction::Failure => Injection::Inject,
                Extraction::Threw => Injection::KeepAndClear,
                _ => Injection::Keep,
            },
            _ => Injection::Keep,
        }
    }

    /// Refuses work on a store that has been deleted.
    pub fn verify_not_deleted(&self, store_exists: bool) -> (result: Result<(), Error>)
        ensures
            result is Ok <==> store_exists,
            !store_exists ==> failed(result, plain(ErrorKind::InvalidState)),
    {
        if !store_exists {
            return Err(Error::plain(ErrorKind::InvalidState));
        }
        Ok(())
    }

    /// Whether the store's records carry their keys.
    pub fn uses_inline_keys(&self) -> (inline: bool)
        ensures
            inline == (self.key_path is Some),
    {
        self.key_path.is_some()
    }

    /// The checks of `get`, `getKey`, `count`, `getAll` and the cursors, which come before their
    /// arguments are converted.
    pub fn check_read(&self, status: &TransactionStatus, store_exists: bool) -> (result: Result<
        (),
        Error,
    >)
        ensures
            refused_or_ok(result, read_refusal(*status, store_exists)),
    {
        match self.verify_not_deleted(store_exists) {
            Err(error) => return Err(error),
            Ok(()) => {},
        }
        status.check_transaction_active()
    }

    /// The checks of `delete` and `clear`, which come before their arguments are converted.
    pub fn check_write(&self, status: &TransactionStatus, store_exists: bool) -> (result: Result<
        (),
        Error,
    >)
        ensures
            refused_or_ok(result, write_refusal(*status, store_exists)),
    {
        match self.verify_not_deleted(store_exists) {
            Err(error) => return Err(error),
            Ok(()) => {},
        }
        status.check_readwrite_transaction_active()
    }

    /// Why `put` and `add` are refused before their arguments are converted, if they are. A key
    /// may be given where the store has no key path, and has to be where it has no key generator
    /// either.
    pub open spec fn put_refusal(
        &self,
        status: TransactionStatus,
        store_exists: bool,
        key_given: bool,
    ) -> Option<ErrorView> {
        match write_refusal(status, store_exists) {
            Some(refusal) => Some(refusal),
            None => if key_given && self.key_path is Some {
                Some(plain(ErrorKind::Data))
            } else if self.key_path is None && !self.has_key_generator && !key_given {
                Some(plain(ErrorKind::Data))
            } else {
                None
            },
        }
    }

    /// The checks of `put` and `add`.
    pub fn check_put(
        &self,
        status: &TransactionStatus,
        store_exists: bool,
        key_given: bool,
    ) -> (result: Result<(), Error>)
        ensures
            refused_or_ok(result, self.put_refusal(*status, store_exists, key_given)),
    {
        match self.check_write(status, store_exists) {
            Err(error) => return Err(error),
            Ok(()) => {},
        }
        if key_given && self.uses_inline_keys() {
            return Err(Error::plain(ErrorKind::Data));
        }
        if !self.uses_inline_keys() && !self.has_key_generator && !key_given {
            return Err(Error::plain(ErrorKind::Data));
        }
        Ok(())
    }

    /// The key of a record that is put, given the key that was passed, and for a store with a key
    /// path what the path came to on the cloned value.
    pub fn put_key(
        &self,
        given: Option<IndexedDBKeyType>,
        extraction: Extraction,
    ) -> (result: Result<PutKey, Error>)
        ensures
            match self.key_path {
                None => result == Ok::<PutKey, Error>(PutKey::Known(given)),
                Some(path) => match extraction {
                    Extraction::Key(key) | Extraction::ArrayKey { key, .. } => result == Ok::<
                        PutKey,
                        Error,
                    >(PutKey::Known(Some(key))),
                    Extraction::Invalid => failed(result, plain(ErrorKind::Data)),
                    Extraction::Threw => failed(result, plain(ErrorKind::JSFailed)),
                    Extraction::Failure => match path {
                        KeyPath::String(path) if self.has_key_generator => result matches Ok(
                            PutKey::CheckInjection(own),
                        ) && own@ == path@,
                        _ => failed(result, plain(ErrorKind::Data)),
                    },
                },
            },
    {
        match &self.key_path {
            None => Ok(PutKey::Known(given)),
            Some(path) => match extraction {
                Extraction::Key(key) | Extraction::ArrayKey { key, .. } => Ok(
                    PutKey::Known(Some(key)),
                ),
                Extraction::Invalid => Err(Error::plain(ErrorKind::Data)),
                Extraction::Threw => Err(Error::plain(ErrorKind::JSFailed)),
                Extraction::Failure => {
                    if !self.has_key_generator {
                        return Err(Error::plain(ErrorKind::Data));
                    }
                    match path {
                        KeyPath::String(path) => Ok(PutKey::CheckInjection(path.clone())),
                        KeyPath::StringSequence(_) => Err(Error::plain(ErrorKind::Data)),
                    }
                },
            },
        }
    }

    /// Whether a value that has to take a generated key can take one.
    pub fn check_injection(can_inject: bool) -> (result: Result<(), Error>)
        ensures
            result is Ok <==> can_inject,
            !can_inject ==> failed(result, plain(ErrorKind::Data)),
    {
        if !can_inject {
            return Err(Error::plain(ErrorKind::Data));
        }
        Ok(())
    }

    /// Whether a record can be rewritten under a key that is known: where the store has a key
    /// path, the value has to answer it with that same key.
    pub fn check_known_key(&self, extraction: &Extraction, key: &IndexedDBKeyType) -> (result:
        Result<(), Error>)
        ensures
            self.key_path is None ==> result is Ok,
            self.key_path is Some ==> match extraction {
                Extraction::Key(own) | Extraction::ArrayKey { key: own, .. } => {
                    &&& result is Ok <==> own@ == key@
                    &&& own@ != key@ ==> failed(result, plain(ErrorKind::Data))
                },
                Extraction::Threw => failed(result, plain(ErrorKind::JSFailed)),
                _ => failed(result, plain(ErrorKind::Data)),
            },
    {
        if self.key_path.is_none() {
            return Ok(());
        }
        match extraction {
            Extraction::Key(own) | Extraction::ArrayKey { key: own, .. } => {
                if own.same(key) {
                    Ok(())
                } else {
                    Err(Error::plain(ErrorKind::Data))
                }
            },
            Extraction::Threw => Err(Error::plain(ErrorKind::JSFailed)),
            _ => Err(Error::plain(ErrorKind::Data)),
        }
    }

    /// How far an index's key path reaches into the store's, for a record whose key the engine has
    /// not generated yet.
    pub fn record_key_reach(&self, index_key_path: &KeyPath) -> (step: ReachStep)
        ensures
            match (self.key_path, *index_key_path) {
                (Some(KeyPath::String(store_path)), KeyPath::String(index_path)) => step
                    == ReachStep::Known(
                    if index_path@ == store_path@ {
                        RecordKeyReach::WholeKey
                    } else {
                        RecordKeyReach::Untouched
                    },
                ),
                (Some(KeyPath::String(store_path)), KeyPath::StringSequence(components)) => {
                    if has_text(components@, store_path@) {
                        step matches ReachStep::Sequence(reach) && reach.wf()
                            && reach.extracted@.len() == 0 && crate::text::texts(reach.components@)
                            == crate::text::texts(components@) && reach.store_path@ == store_path@
                    } else {
                        step == ReachStep::Known(RecordKeyReach::Untouched)
                    }
                },
                _ => step == ReachStep::Known(RecordKeyReach::Untouched),
            },
    {
        match &self.key_path {
            Some(KeyPath::String(store_path)) => match index_key_path {
                KeyPath::String(index_path) => {
                    if *index_path == *store_path {
                        ReachStep::Known(RecordKeyReach::WholeKey)
                    } else {
                        ReachStep::Known(RecordKeyReach::Untouched)
                    }
                },
                KeyPath::StringSequence(components) => {
                    if !contains_text(components, store_path) {
                        return ReachStep::Known(RecordKeyReach::Untouched);
                    }
                    ReachStep::Sequence(
                        SequenceReach {
                            components: crate::indexeddb::key_path::copy_strings(components),
                            store_path: store_path.clone(),
                            extracted: Vec::new(),
                        },
                    )
                },
            },
            _ => ReachStep::Known(RecordKeyReach::Untouched),
        }
    }
}

/// A schema change that goes out to the storage thread.
#[derive(Debug)]
pub enum SchemaChange {
    RenameObjectStore { new_name: String },
    RenameIndex { index_name: String, new_name: String },
    CreateIndex { index_name: String, key_path: KeyPath, unique: bool, multi_entry: bool },
    DeleteIndex { index_name: String },
}

/// A schema change and the store that it is about, by the name that the engine knows it by.
#[derive(Debug)]
pub struct SchemaMessage {
    pub origin: String,
    pub database_name: String,
    pub store_name: String,
    pub change: SchemaChange,
    pub transaction_serial_number: u64,
}

/// The message is about the store, and comes from its transaction.
pub open spec fn is_about(
    message: SchemaMessage,
    store: IDBObjectStore,
    environment: RequestEnvironment,
) -> bool {
    &&& message.origin@ == environment.origin@
    &&& message.database_name@ == store.db_name@
    &&& message.store_name@ == store.name@
    &&& message.transaction_serial_number == environment.serial_number
}

/// What setting a store's name comes to before anything is sent.
#[derive(Debug)]
pub enum Renaming {
    /// The store has the name already.
    Unchanged,
    /// The message is sent, and then [`IDBObjectStore::renamed`] goes on.
    Send(SchemaMessage),
}

/// Why a store or its indexes cannot be changed, if they cannot: outside an upgrade.
pub open spec fn schema_refusal(status: TransactionStatus, store_exists: bool) -> Option<ErrorView> {
    if status.mode != IDBTransactionMode::Versionchange {
        Some(plain(ErrorKind::InvalidState))
    } else {
        read_refusal(status, store_exists)
    }
}

impl IDBObjectStore {
    /// Refuses a change of the store's indexes outside an upgrade, on a deleted store, or in an
    /// inactive transaction, in that order.
    fn check_schema(&self, status: &TransactionStatus, store_exists: bool) -> (result: Result<
        (),
        Error,
    >)
        ensures
            refused_or_ok(result, schema_refusal(*status, store_exists)),
    {
        if status.mode != IDBTransactionMode::Versionchange {
            return Err(Error::plain(ErrorKind::InvalidState));
        }
        self.check_read(status, store_exists)
    }

    /// The message that a change of the store, or of its indexes, goes out in.
    fn schema_message(&self, environment: &RequestEnvironment, change: SchemaChange) -> (message:
        SchemaMessage)
        ensures
            is_about(message, *self, *environment),
            message.change == change,
    {
        SchemaMessage {
            origin: environment.origin.clone(),
            database_name: self.db_name.clone(),
            store_name: self.name.clone(),
            change,
            transaction_serial_number: environment.serial_number,
        }
    }

    /// Sets the store's name. `name_taken` says whether the database has a store of the new name.
    pub fn set_name(
        &self,
        name: &String,
        environment: &RequestEnvironment,
        store_exists: bool,
        name_taken: bool,
    ) -> (result: Result<Renaming, Error>)
        ensures
            if !store_exists || environment.status.mode != IDBTransactionMode::Versionchange {
                failed(result, plain(ErrorKind::InvalidState))
            } else if !environment.status.accepts_requests() {
                failed(result, plain(ErrorKind::TransactionInactive))
            } else if self.name@ == name@ {
                result matches Ok(Renaming::Unchanged)
            } else if name_taken {
                failed(result, plain(ErrorKind::Constraint))
            } else {
                result matches Ok(Renaming::Send(message)) && is_about(
                    message,
                    *self,
                    *environment,
                ) && (
                message.change matches SchemaChange::RenameObjectStore { new_name } && new_name@
                    == name@)
            },
    {
        match self.verify_not_deleted(store_exists) {
            Err(error) => return Err(error),
            Ok(()) => {},
        }
        if environment.status.mode != IDBTransactionMode::Versionchange {
            return Err(Error::plain(ErrorKind::InvalidState));
        }
        match environment.status.check_transaction_active() {
            Err(error) => return Err(error),
            Ok(()) => {},
        }
        if self.name == *name {
            return Ok(Renaming::Unchanged);
        }
        if name_taken {
            return Err(Error::plain(ErrorKind::Constraint));
        }
        Ok(
            Renaming::Send(
                self.schema_message(
                    environment,
                    SchemaChange::RenameObjectStore { new_name: name.clone() },
                ),
            ),
        )
    }

    /// Goes on after the rename was sent, or could not be. The name that the store had when the
    /// upgrade began is the one that an abort puts back, not that of the last rename.
    pub fn renamed(&mut self, name: String, sent: bool) -> (result: Result<(), Error>)
        ensures
            !sent ==> failed(
                result,
                says(
                    ErrorKind::Operation,
                    "Could not send the rename object store operation"@,
                ),
            ) && *final(self) == *old(self),
            sent ==> {
                &&& result is Ok
                &&& final(self).name == name
                &&& final(self).same_store(*old(self))
                &&& final(self).index_set == old(self).index_set
                &&& final(self).handles == old(self).handles
                &&& match old(self).abort_state {
                    None => final(self).abort_state is None,
                    Some(state) => final(self).abort_state matches Some(after)
                        && after.newly_created_during_transaction
                        == state.newly_created_during_transaction && after.rollback_indexes
                        == state.rollback_indexes && after.rollback_name == match state.rollback_name {
                        Some(first) => Some(first),
                        None => Some(old(self).name),
                    },
                }
            },
    {
        if !sent {
            return Err(
                Error::says(
                    ErrorKind::Operation,
                    "Could not send the rename object store operation",
                ),
            );
        }
        let old_name = self.name.clone();
        match self.abort_state.take() {
            Some(mut state) => {
                if state.rollback_name.is_none() {
                    state.rollback_name = Some(old_name);
                }
                self.abort_state = Some(state);
            },
            None => {},
        }
        self.name = name;
        Ok(())
    }

    /// Creates an index. `valid_path` says whether the key path is a valid one.
    pub fn create_index(
        &self,
        name: &String,
        key_path: &KeyPath,
        multi_entry: bool,
        unique: bool,
        environment: &RequestEnvironment,
        store_exists: bool,
        valid_path: bool,
    ) -> (result: Result<SchemaMessage, Error>)
        requires
            self.wf(),
        ensures
            match schema_refusal(environment.status, store_exists) {
                Some(refusal) => failed(result, refusal),
                None => if self.index_set@.contains_key(name@) {
                    failed(result, plain(ErrorKind::Constraint))
                } else if !valid_path {
                    failed(result, plain(ErrorKind::Syntax))
                } else if key_path is StringSequence && multi_entry {
                    failed(result, plain(ErrorKind::InvalidAccess))
                } else {
                    result matches Ok(message) && is_about(message, *self, *environment) && (
                    message.change matches SchemaChange::CreateIndex {
                        index_name,
                        key_path: path,
                        unique: own,
                        multi_entry: each,
                    } && index_name@ == name@ && path@ == key_path@ && own == unique && each
                        == multi_entry)
                },
            },
    {
        match self.check_schema(&environment.status, store_exists) {
            Err(error) => return Err(error),
            Ok(()) => {},
        }
        if self.has_index(name) {
            return Err(Error::plain(ErrorKind::Constraint));
        }
        if !valid_path {
            return Err(Error::plain(ErrorKind::Syntax));
        }
        match key_path {
            KeyPath::StringSequence(_) => {
                if multi_entry {
                    return Err(Error::plain(ErrorKind::InvalidAccess));
                }
            },
            KeyPath::String(_) => {},
        }
        Ok(
            self.schema_message(
                environment,
                SchemaChange::CreateIndex {
                    index_name: name.clone(),
                    key_path: key_path.clone(),
                    unique,
                    multi_entry,
                },
            ),
        )
    }

    /// Goes on after the creation of an index was sent, or could not be: the index joins the
    /// index set, and the number of its handle is answered.
    pub fn created_index(
        &mut self,
        name: String,
        key_path: KeyPath,
        multi_entry: bool,
        unique: bool,
        sent: bool,
    ) -> (result: Result<usize, Error>)
        requires
            old(self).wf(),
        ensures
            final(self).wf(),
            final(self).unchanged_but_indexes(*old(self)),
            !sent ==> failed(
                result,
                says(ErrorKind::Operation, "Could not send the create index operation"@),
            ) && *final(self) == *old(self),
            sent ==> (result matches Ok(handle) && handle == old(self).handles.len()
                && final(self).index_set@ == old(self).index_set@.insert(name@, handle)
                && final(self).handles@ == old(self).handles@.push(
                IDBIndex {
                    name,
                    multi_entry,
                    unique,
                    key_path,
                    newly_created_during_transaction: true,
                    rollback_name: None,
                    cached_key_path: None,
                },
            )),
    {
        if !sent {
            return Err(
                Error::says(ErrorKind::Operation, "Could not send the create index operation"),
            );
        }
        Ok(self.add_index(name, multi_entry, unique, key_path, true))
    }

    /// Deletes an index.
    pub fn delete_index(
        &self,
        name: &String,
        environment: &RequestEnvironment,
        store_exists: bool,
    ) -> (result: Result<SchemaMessage, Error>)
        requires
            self.wf(),
        ensures
            match schema_refusal(environment.status, store_exists) {
                Some(refusal) => failed(result, refusal),
                None => if !self.index_set@.contains_key(name@) {
                    failed(result, plain(ErrorKind::NotFound))
                } else {
                    result matches Ok(message) && is_about(message, *self, *environment) && (
                    message.change matches SchemaChange::DeleteIndex { index_name } && index_name@
                        == name@)
                },
            },
    {
        match self.check_schema(&environment.status, store_exists) {
            Err(error) => return Err(error),
            Ok(()) => {},
        }
        if !self.has_index(name) {
            return Err(Error::plain(ErrorKind::NotFound));
        }
        Ok(
            self.schema_message(
                environment,
                SchemaChange::DeleteIndex { index_name: name.clone() },
            ),
        )
    }

    /// Goes on after the deletion of an index was sent, or could not be: the index leaves the
    /// index set only once the engine is sure to hear of it.
    pub fn deleted_index(&mut self, name: &String, sent: bool) -> (result: Result<(), Error>)
        requires
            old(self).wf(),
        ensures
            final(self).wf(),
            final(self).unchanged_but_indexes(*old(self)),
            final(self).handles == old(self).handles,
            !sent ==> failed(
                result,
                says(ErrorKind::Operation, "Could not send the delete index operation"@),
            ) && *final(self) == *old(self),
            sent ==> result is Ok && final(self).index_set@ == old(self).index_set@.remove(name@),
    {
        if !sent {
            return Err(
                Error::says(ErrorKind::Operation, "Could not send the delete index operation"),
            );
        }
        let ghost before = self.index_set;
        self.index_set.remove(name);
        proof {
            values_stay_below_without(before, self.index_set, name@, self.handles@.len());
        }
        Ok(())
    }

    /// The handle of the index of a name.
    pub fn index(&self, name: &String, finished: bool, store_exists: bool) -> (result: Result<
        usize,
        Error,
    >)
        requires
            self.wf(),
        ensures
            if !store_exists || finished {
                failed(result, plain(ErrorKind::InvalidState))
            } else if !self.index_set@.contains_key(name@) {
                failed(result, plain(ErrorKind::NotFound))
            } else {
                result == Ok::<usize, Error>(self.index_set@[name@])
            },
    {
        match self.verify_not_deleted(store_exists) {
            Err(error) => return Err(error),
            Ok(()) => {},
        }
        if finished {
            return Err(Error::plain(ErrorKind::InvalidState));
        }
        match self.index_set.get(name) {
            Some(handle) => Ok(*handle),
            None => Err(Error::plain(ErrorKind::NotFound)),
        }
    }

    /// The message that renames an index, which has to be in the index set.
    pub fn rename_index(
        &self,
        name: &String,
        new_name: &String,
        environment: &RequestEnvironment,
    ) -> (result: Result<SchemaMessage, Error>)
        requires
            self.wf(),
        ensures
            if !self.index_set@.contains_key(name@) {
                failed(
                    result,
                    says(
                        ErrorKind::InvalidState,
                        "The index to rename is no longer in its object store"@,
                    ),
                )
            } else {
                result matches Ok(message) && is_about(message, *self, *environment) && (
                message.change matches SchemaChange::RenameIndex { index_name, new_name: own }
                    && index_name@ == name@ && own@ == new_name@)
            },
    {
        if !self.has_index(name) {
            return Err(
                Error::says(
                    ErrorKind::InvalidState,
                    "The index to rename is no longer in its object store",
                ),
            );
        }
        Ok(
            self.schema_message(
                environment,
                SchemaChange::RenameIndex {
                    index_name: name.clone(),
                    new_name: new_name.clone(),
                },
            ),
        )
    }

    /// Goes on after the rename of an index was sent, or could not be: the index moves to its new
    /// name in the index set.
    pub fn index_renamed(&mut self, name: &String, new_name: &String, sent: bool) -> (result:
        Result<(), Error>)
        requires
            old(self).wf(),
            old(self).index_set@.contains_key(name@),
        ensures
            final(self).wf(),
            final(self).unchanged_but_indexes(*old(self)),
            final(self).handles == old(self).handles,
            !sent ==> failed(
                result,
                says(ErrorKind::Operation, "Could not send the rename index operation"@),
            ) && *final(self) == *old(self),
            sent ==> result is Ok && final(self).index_set@ == old(self).index_set@.remove(
                name@,
            ).insert(new_name@, old(self).index_set@[name@]),
    {
        if !sent {
            return Err(
                Error::says(ErrorKind::Operation, "Could not send the rename index operation"),
            );
        }
        let ghost before = self.index_set;
        match self.index_set.remove(name) {
            Some(handle) => {
                let ghost between = self.index_set;
                proof {
                    values_stay_below_without(before, between, name@, self.handles@.len());
                    let k = choose|k: int| named_at(before.entries@, name@, k);
                    value_at(before.entries@, k);
                }
                self.index_set.insert(new_name.clone(), handle);
                proof {
                    values_stay_below(
                        between,
                        self.index_set,
                        new_name@,
                        handle,
                        self.handles@.len(),
                    );
                }
            },
            None => {},
        }
        Ok(())
    }

    /// What setting the name of index `handle` comes to before anything is sent: nothing where it
    /// has the name already, and otherwise a rename.
    pub fn set_index_name(
        &self,
        handle: usize,
        name: &String,
        status: &TransactionStatus,
        store_exists: bool,
    ) -> (result: Result<bool, Error>)
        requires
            self.wf(),
            handle < self.handles.len(),
        ensures
            ({
                let stored = self.handles@[handle as int].name@;
                if status.mode != IDBTransactionMode::Versionchange {
                    failed(
                        result,
                        says(ErrorKind::InvalidState, "Transaction is not an upgrade transaction"@),
                    )
                } else if !status.active {
                    failed(
                        result,
                        says(
                            ErrorKind::TransactionInactive,
                            "Transaction is not active while updating index name"@,
                        ),
                    )
                } else if !self.index_set@.contains_key(stored) || !store_exists {
                    failed(result, crate::indexeddb::index::index_deleted())
                } else if stored == name@ {
                    result == Ok::<bool, Error>(false)
                } else if self.index_set@.contains_key(name@) {
                    failed(
                        result,
                        says(
                            ErrorKind::Constraint,
                            "An index with the given name already exists"@,
                        ),
                    )
                } else {
                    result == Ok::<bool, Error>(true)
                }
            }),
    {
        if status.mode != IDBTransactionMode::Versionchange {
            return Err(
                Error::says(ErrorKind::InvalidState, "Transaction is not an upgrade transaction"),
            );
        }
        if !status.active {
            return Err(
                Error::says(
                    ErrorKind::TransactionInactive,
                    "Transaction is not active while updating index name",
                ),
            );
        }
        let index = &self.handles[handle];
        let has_index = self.has_index(&index.name);
        match index.verify_not_deleted(has_index, store_exists) {
            Err(error) => return Err(error),
            Ok(()) => {},
        }
        if index.name == *name {
            return Ok(false);
        }
        if self.has_index(name) {
            return Err(
                Error::says(ErrorKind::Constraint, "An index with the given name already exists"),
            );
        }
        Ok(true)
    }

    /// Gives index `handle` its new name, where [`Self::set_index_name`] calls for it. `sent` says
    /// whether the rename went out to the engine: where it did not, the handle has the new name
    /// all the same, while the index set keeps the old one. An abort puts the first name back.
    pub fn index_name_set(&mut self, handle: usize, name: String, sent: bool)
        requires
            old(self).wf(),
            handle < old(self).handles.len(),
            old(self).index_set@.contains_key(old(self).handles@[handle as int].name@),
        ensures
            final(self).wf(),
            final(self).unchanged_but_indexes(*old(self)),
            ({
                let before = old(self).handles@[handle as int];
                &&& final(self).handles@ == old(self).handles@.update(
                    handle as int,
                    IDBIndex {
                        name,
                        rollback_name: match before.rollback_name {
                            Some(first) => Some(first),
                            None => Some(before.name),
                        },
                        ..before
                    },
                )
                &&& final(self).index_set@ == if sent {
                    old(self).index_set@.remove(before.name@).insert(
                        name@,
                        old(self).index_set@[before.name@],
                    )
                } else {
                    old(self).index_set@
                }
            }),
    {
        let ghost handles = self.handles@;
        let stored = self.handles[handle].name.clone();
        if self.handles[handle].rollback_name.is_none() {
            self.handles[handle].rollback_name = Some(stored.clone());
        }
        let ghost noted = *self;
        assert(noted.handles@ =~= handles.update(
            handle as int,
            IDBIndex {
                rollback_name: match handles[handle as int].rollback_name {
                    Some(first) => Some(first),
                    None => Some(stored),
                },
                ..handles[handle as int]
            },
        ));
        let _ = self.index_renamed(&stored, &name, sent);
        self.handles[handle].name = name;
        assert(self.handles@ =~= handles.update(handle as int, self.handles@[handle as int]));
    }
}

} // verus!
