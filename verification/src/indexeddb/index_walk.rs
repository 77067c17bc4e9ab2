//! Finding out the index keys of a record, one extraction at a time.

use vstd::prelude::*;

use crate::indexeddb::key::IndexedDBKeyType;
use crate::indexeddb::key_path::{Extraction, KeyPath, KeyPathView};
use crate::indexeddb::object_store::{
    extract_index_updates, has_text, updates_all, IDBObjectStore, IndexOutcome, IndexSnapshot,
    ReachStep, RecordKeyReach, SequenceReach,
};
use crate::indexeddb::operation::KvsIndexUpdate;
use crate::text::texts;

verus! {

/// How an index's key path stands to the store's, for a record whose key the engine has yet to
/// generate.
pub enum ReachKind {
    /// The index does not name the store's key path.
    Untouched,
    /// The index's key is the record's key.
    WholeKey,
    /// The index's key is a sequence, and the record's key is among its components.
    Sequence,
}

/// How an index's key path stands to the store's.
pub open spec fn reach_kind(store_path: Option<KeyPath>, index_path: KeyPath) -> ReachKind {
    match (store_path, index_path) {
        (Some(KeyPath::String(store_path)), KeyPath::String(index_path)) => if index_path@
            == store_path@ {
            ReachKind::WholeKey
        } else {
            ReachKind::Untouched
        },
        (Some(KeyPath::String(store_path)), KeyPath::StringSequence(components)) => if has_text(
            components@,
            store_path@,
        ) {
            ReachKind::Sequence
        } else {
            ReachKind::Untouched
        },
        _ => ReachKind::Untouched,
    }
}

/// How an index's key is found: `generated` says that the engine generates the record's key.
pub open spec fn finding_kind(
    store_path: Option<KeyPath>,
    generated: bool,
    index_path: KeyPath,
) -> ReachKind {
    if generated {
        reach_kind(store_path, index_path)
    } else {
        ReachKind::Untouched
    }
}

/// The outcome is one that the index can have.
pub open spec fn outcome_fits(
    store_path: Option<KeyPath>,
    generated: bool,
    snapshot: IndexSnapshot,
    outcome: IndexOutcome,
) -> bool {
    match finding_kind(store_path, generated, snapshot.key_path) {
        ReachKind::Untouched => outcome is Extracted,
        ReachKind::WholeKey => outcome is WholeKey,
        ReachKind::Sequence => outcome is Dropped || (outcome matches IndexOutcome::InSequence(
            parts,
        ) && fits_components(
            Seq::new(parts@.len(), |i: int| parts@[i] is None),
            texts(snapshot.key_path->StringSequence_0@),
            store_path->0->String_0@,
        )),
    }
}

/// The places without a key of their own are those of the record's key.
pub open spec fn fits_components(
    open_places: Seq<bool>,
    components: Seq<Seq<char>>,
    store_path: Seq<char>,
) -> bool {
    open_places == Seq::new(components.len(), |i: int| components[i] == store_path)
}

/// The parts go on from those before with places of the record's own key only: no key that was not
/// extracted stands in them.
pub open spec fn adds_open_places(
    before: Seq<Option<IndexedDBKeyType>>,
    after: Seq<Option<IndexedDBKeyType>>,
) -> bool {
    &&& before.len() <= after.len()
    &&& after.take(before.len() as int) == before
    &&& forall|i: int| before.len() <= i < after.len() ==> (#[trigger] after[i]) is None
}

/// The outcome is found without an extraction, where `parts` are known of the index's key.
pub open spec fn is_new_finding(
    outcome: IndexOutcome,
    parts: Seq<Option<IndexedDBKeyType>>,
) -> bool {
    match outcome {
        IndexOutcome::WholeKey => parts.len() == 0,
        IndexOutcome::InSequence(found) => adds_open_places(parts, found@),
        _ => false,
    }
}

proof fn open_places_add_up(
    a: Seq<Option<IndexedDBKeyType>>,
    b: Seq<Option<IndexedDBKeyType>>,
    c: Seq<Option<IndexedDBKeyType>>,
)
    requires
        adds_open_places(a, b),
        adds_open_places(b, c),
    ensures
        adds_open_places(a, c),
{
    let n = a.len() as int;
    assert forall|i: int| 0 <= i < n implies c[i] == a[i] by {
        assert(c.take(b.len() as int)[i] == b[i]);
        assert(b.take(n)[i] == a[i]);
    }
    assert(c.take(n) =~= a);
    assert forall|i: int| n <= i < c.len() implies (#[trigger] c[i]) is None by {
        if i < b.len() {
            assert(c.take(b.len() as int)[i] == b[i]);
        }
    }
}

/// The indexes of a store, as far as the keys that a record has in them are known.
#[derive(Debug)]
pub struct IndexWalk {
    /// The indexes that are left, the next one last.
    pub rest: Vec<IndexSnapshot>,
    pub findings: Vec<(IndexSnapshot, IndexOutcome)>,
    /// The components of the next index, where they are extracted one by one.
    pub reach: Option<SequenceReach>,
    /// The engine generates the record's key.
    pub generated: bool,
}

impl IndexWalk {
    /// What is known fits the indexes.
    pub open spec fn wf(&self, store_path: Option<KeyPath>) -> bool {
        &&& forall|i: int|
            0 <= i < self.findings@.len() ==> outcome_fits(
                store_path,
                self.generated,
                (#[trigger] self.findings@[i]).0,
                self.findings@[i].1,
            )
        &&& self.reach matches Some(reach) ==> {
            &&& self.rest@.len() > 0
            &&& finding_kind(store_path, self.generated, self.rest@.last().key_path) is Sequence
            &&& reach.wf()
            &&& texts(reach.components@) == texts(
                self.rest@.last().key_path->StringSequence_0@,
            )
            &&& reach.store_path@ == store_path->0->String_0@
        }
    }

    /// All indexes, those that are dealt with last.
    pub open spec fn all(&self) -> Seq<IndexSnapshot> {
        self.rest@ + self.findings@.map_values(
            |finding: (IndexSnapshot, IndexOutcome)| finding.0,
        ).reverse()
    }

    /// The walk waits for the key at this path of the value, extracted element by element where
    /// `multi_entry` says so.
    pub open spec fn awaits(
        &self,
        store_path: Option<KeyPath>,
        path: KeyPathView,
        multi_entry: bool,
    ) -> bool {
        &&& self.rest@.len() > 0
        &&& match self.reach {
            Some(reach) => {
                &&& reach.settled()
                &&& reach.extracted@.len() < reach.components@.len()
                &&& path == KeyPathView::String(reach.components@[reach.extracted@.len() as int]@)
                &&& !multi_entry
            },
            None => {
                &&& finding_kind(
                    store_path,
                    self.generated,
                    self.rest@.last().key_path,
                ) is Untouched
                &&& path == self.rest@.last().key_path@
                &&& multi_entry == self.rest@.last().multi_entry
            },
        }
    }

    /// The parts that are known of the next index's key.
    pub open spec fn parts(&self) -> Seq<Option<IndexedDBKeyType>> {
        match self.reach {
            Some(reach) => reach.extracted@,
            None => seq![],
        }
    }

    /// The walk went on from `before` without an extraction: what was found stays, and all that is
    /// new are indexes whose key is, or holds, the record's own. A key that holds it has no part but
    /// the record's own key that was not known before.
    pub open spec fn goes_on_from(&self, before: &IndexWalk) -> bool {
        let known = before.findings@.len() as int;
        &&& self.all() == before.all()
        &&& self.generated == before.generated
        &&& known <= self.findings@.len()
        &&& self.findings@.take(known) == before.findings@
        &&& forall|i: int|
            known <= i < self.findings@.len() ==> is_new_finding(
                (#[trigger] self.findings@[i]).1,
                if i == known {
                    before.parts()
                } else {
                    seq![]
                },
            )
        &&& self.findings@.len() == known && before.reach is Some ==> self.reach is Some
        &&& adds_open_places(
            if self.findings@.len() == known {
                before.parts()
            } else {
                seq![]
            },
            self.parts(),
        )
    }

    /// The walk took in what the extraction that was asked for came to: the one key of the next
    /// index, or one of its components. A component without a key takes the record out of the
    /// index.
    pub open spec fn takes(&self, before: &IndexWalk, extraction: Extraction) -> bool {
        &&& self.all() == before.all()
        &&& self.generated == before.generated
        &&& match before.reach {
            None => {
                &&& self.reach is None
                &&& self.findings@ == before.findings@.push(
                    (before.rest@.last(), IndexOutcome::Extracted(extraction)),
                )
            },
            Some(reach) => match extraction {
                Extraction::Key(key) | Extraction::ArrayKey { key, .. } => {
                    &&& self.reach matches Some(after) && after.extracted@
                        == reach.extracted@.push(Some(key))
                    &&& self.findings@ == before.findings@
                },
                _ => {
                    &&& self.reach is None
                    &&& self.findings@ == before.findings@.push(
                        (before.rest@.last(), IndexOutcome::Dropped),
                    )
                },
            },
        }
    }

    /// Starts a walk over the indexes.
    pub fn new(snapshots: Vec<IndexSnapshot>, generated: bool) -> (walk: Self)
        ensures
            forall|store_path: Option<KeyPath>| #[trigger] walk.wf(store_path),
            walk.all() == snapshots@,
            walk.generated == generated,
            walk.findings@.len() == 0,
            walk.reach is None,
    {
        let walk = IndexWalk { rest: snapshots, findings: Vec::new(), reach: None, generated };
        assert(walk.all() =~= snapshots@);
        walk
    }

    /// Notes what was found of the next index.
    fn settle(&mut self, outcome: IndexOutcome, Ghost(store_path): Ghost<Option<KeyPath>>)
        requires
            old(self).wf(store_path),
            old(self).rest@.len() > 0,
            outcome_fits(store_path, old(self).generated, old(self).rest@.last(), outcome),
        ensures
            final(self).wf(store_path),
            final(self).reach is None,
            final(self).generated == old(self).generated,
            final(self).rest@ == old(self).rest@.drop_last(),
            final(self).findings@ == old(self).findings@.push((old(self).rest@.last(), outcome)),
            final(self).all() == old(self).all(),
    {
        self.reach = None;
        match self.rest.pop() {
            Some(snapshot) => {
                let ghost before = self.findings@;
                self.findings.push((snapshot, outcome));
                proof {
                    let first = |finding: (IndexSnapshot, IndexOutcome)| finding.0;
                    let now = self.findings@.map_values(first);
                    assert(now =~= before.map_values(first).push(snapshot));
                    assert(self.all() =~= old(self).all());
                }
            },
            None => {},
        }
    }

    /// The key that has to be extracted next, by its path and whether an array is taken element
    /// by element; none where all indexes are dealt with.
    pub fn next(&mut self, store: &IDBObjectStore) -> (wanted: Option<(KeyPath, bool)>)
        requires
            old(self).wf(store.key_path),
        ensures
            final(self).wf(store.key_path),
            final(self).goes_on_from(&*old(self)),
            match wanted {
                Some((path, multi_entry)) => final(self).awaits(
                    store.key_path,
                    path@,
                    multi_entry,
                ),
                None => final(self).rest@.len() == 0,
            },
    {
        assert(self.findings@.take(self.findings@.len() as int) =~= self.findings@);
        assert(self.parts().take(self.parts().len() as int) =~= self.parts());
        while self.rest.len() > 0
            invariant
                self.wf(store.key_path),
                self.goes_on_from(&*old(self)),
            decreases self.rest@.len(),
        {
            let at: usize = self.rest.len() - 1;
            if self.reach.is_none() {
                if !self.generated {
                    return Some((self.rest[at].key_path.clone(), self.rest[at].multi_entry));
                }
                match store.record_key_reach(&self.rest[at].key_path) {
                    ReachStep::Known(RecordKeyReach::WholeKey) => {
                        let ghost prior = *self;
                        self.settle(IndexOutcome::WholeKey, Ghost(store.key_path));
                        proof {
                            assert(self.findings@.drop_last() =~= prior.findings@);
                            one_more_finding(old(self), &prior, self);
                        }
                        continue;
                    },
                    ReachStep::Known(_) => {
                        return Some((self.rest[at].key_path.clone(), self.rest[at].multi_entry));
                    },
                    ReachStep::Sequence(reach) => {
                        assert(reach.extracted@ =~= self.parts());
                        self.reach = Some(reach);
                    },
                }
            }
            let ghost prior = *self;
            match self.reach.take() {
                Some(mut reach) => match reach.next() {
                    Some(component) => {
                        self.reach = Some(reach);
                        proof {
                            let start = if self.findings@.len() == old(self).findings@.len() {
                                old(self).parts()
                            } else {
                                seq![]
                            };
                            open_places_add_up(start, prior.parts(), self.parts());
                        }
                        return Some((KeyPath::String(component), false));
                    },
                    None => {
                        let ghost settled = reach;
                        if let RecordKeyReach::InSequence(parts) = reach.finish() {
                            proof {
                                let components = texts(
                                    self.rest@.last().key_path->StringSequence_0@,
                                );
                                let own = texts(settled.components@);
                                assert forall|i: int| 0 <= i < parts@.len() implies (
                                parts@[i] is None <==> #[trigger] own[i]
                                    == settled.store_path@) by {
                                    assert(settled.extracted@[i] is None
                                        <==> settled.components@[i]@ == settled.store_path@);
                                }
                                assert(Seq::new(parts@.len(), |i: int| parts@[i] is None)
                                    =~= Seq::new(
                                    components.len(),
                                    |i: int| components[i] == settled.store_path@,
                                ));
                            }
                            self.settle(IndexOutcome::InSequence(parts), Ghost(store.key_path));
                            proof {
                                assert(self.findings@.drop_last() =~= prior.findings@);
                                one_more_finding(old(self), &prior, self);
                            }
                        }
                    },
                },
                None => {},
            }
        }
        None
    }

    /// Takes in what the extraction that was asked for came to.
    pub fn take(&mut self, store: &IDBObjectStore, extraction: Extraction)
        requires
            old(self).wf(store.key_path),
            exists|path: KeyPathView, multi_entry: bool|
                old(self).awaits(store.key_path, path, multi_entry),
        ensures
            final(self).wf(store.key_path),
            final(self).takes(&*old(self), extraction),
    {
        match self.reach.take() {
            None => {
                self.settle(IndexOutcome::Extracted(extraction), Ghost(store.key_path));
            },
            Some(mut reach) => {
                if reach.take(extraction) {
                    self.settle(IndexOutcome::Dropped, Ghost(store.key_path));
                } else {
                    self.reach = Some(reach);
                }
            },
        }
    }

    /// The updates of all indexes.
    pub fn finish(self) -> (updates: Vec<KvsIndexUpdate>)
        requires
            self.rest@.len() == 0,
        ensures
            updates_all(updates@, self.findings@),
    {
        extract_index_updates(self.findings)
    }
}

/// A walk that went on goes on with one finding more.
proof fn one_more_finding(start: &IndexWalk, prior: &IndexWalk, after: &IndexWalk)
    requires
        prior.goes_on_from(start),
        after.all() == prior.all(),
        after.generated == prior.generated,
        after.findings@.len() == prior.findings@.len() + 1,
        after.findings@.drop_last() == prior.findings@,
        is_new_finding(after.findings@.last().1, prior.parts()),
        after.reach is None,
    ensures
        after.goes_on_from(start),
{
    let known = start.findings@.len() as int;
    let last = prior.findings@.len() as int;
    assert forall|i: int| 0 <= i < last implies after.findings@[i] == prior.findings@[i] by {
        assert(after.findings@.drop_last()[i] == prior.findings@[i]);
    }
    assert(after.findings@.take(known) =~= prior.findings@.take(known));
    assert forall|i: int| known <= i < after.findings@.len() implies is_new_finding(
        (#[trigger] after.findings@[i]).1,
        if i == known {
            start.parts()
        } else {
            seq![]
        },
    ) by {
        if i < last {
            assert(is_new_finding(
                prior.findings@[i].1,
                if i == known {
                    start.parts()
                } else {
                    seq![]
                },
            ));
        } else {
            let from = if last == known {
                start.parts()
            } else {
                seq![]
            };
            if let IndexOutcome::InSequence(found) = after.findings@[i].1 {
                open_places_add_up(from, prior.parts(), found@);
            }
        }
    }
    assert(after.parts().take(0) =~= seq![]);
}

} // verus!
