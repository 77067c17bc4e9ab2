//! Filling a new index with the records that its store already holds.

use vstd::prelude::*;

use crate::indexeddb::engine::command::{Command, Write};
use crate::indexeddb::engine::model::{BackfillIndexResult, IndexModel};
use crate::indexeddb::engine::put::{row_of, same_bytes, Answer, Question, QuestionView};
use crate::indexeddb::engine::tables::{IndexRow, Tables};
use crate::indexeddb::key::{copy_bytes, IndexedDBKeyType};

verus! {

/// The index keys that one stored record has in the new index.
#[derive(Debug)]
pub struct IndexBackfillEntry {
    pub primary_key: IndexedDBKeyType,
    pub keys: Vec<IndexedDBKeyType>,
}

/// One index record to write: the object's primary key and the index key.
#[derive(Debug)]
pub struct BackfillPair {
    pub primary_key: Vec<u8>,
    pub value: Vec<u8>,
}

/// What an index record to write is: primary key, then index key.
pub open spec fn pair_view(pair: BackfillPair) -> (Seq<u8>, Seq<u8>) {
    (pair.primary_key@, pair.value@)
}

/// What the index records to write are.
pub open spec fn pairs_view(pairs: Seq<BackfillPair>) -> Seq<(Seq<u8>, Seq<u8>)> {
    pairs.map_values(|pair: BackfillPair| pair_view(pair))
}

/// The index records of one entry, in order.
pub open spec fn entry_pairs(entry: IndexBackfillEntry) -> Seq<(Seq<u8>, Seq<u8>)> {
    Seq::new(entry.keys@.len(), |k: int| (entry.primary_key@, entry.keys@[k]@))
}

/// The index records of all entries, in order.
pub open spec fn all_pairs(entries: Seq<IndexBackfillEntry>) -> Seq<(Seq<u8>, Seq<u8>)>
    decreases entries.len(),
{
    if entries.len() == 0 {
        seq![]
    } else {
        all_pairs(entries.drop_last()) + entry_pairs(entries.last())
    }
}

/// A backfill under way.
#[derive(Debug)]
pub struct Backfill {
    pub store_id: i32,
    pub index_name: String,
    pub pairs: Vec<BackfillPair>,
    /// The index, once the tables have said which it is.
    pub index: Option<Option<IndexModel>>,
    /// How many index records have been written.
    pub written: usize,
    /// The next index key is known not to be held for another object.
    pub free: bool,
}

/// What a backfill does next.
#[derive(Debug)]
pub enum BackfillStep {
    Ask(Question),
    /// Runs the command, and then goes on with [`Backfill::wrote`].
    Run(Command),
    Finish(BackfillIndexResult),
}

/// The write of one index record.
pub open spec fn pair_write(store_id: int, row: IndexRow, pair: (Seq<u8>, Seq<u8>)) -> Write {
    Write::PutIndexRecord {
        unique: row.unique,
        index_id: row.id,
        value: pair.1,
        store_id,
        primary_key: pair.0,
    }
}

impl Backfill {
    /// No more has been written than there is to write.
    pub open spec fn wf(self) -> bool {
        self.written <= self.pairs.len()
    }

    /// What comes next: which index this is; for a unique index whether the next key is free; the
    /// next write; or the end, where all is written or the index is gone again.
    pub open spec fn leads_to(self, step: BackfillStep) -> bool {
        match self.index {
            None => step matches BackfillStep::Ask(question) && question@ == (QuestionView::Index {
                store_id: self.store_id as int,
                name: self.index_name@,
            }),
            Some(None) => step == BackfillStep::Finish(BackfillIndexResult::Done),
            Some(Some(index)) => if self.written == self.pairs.len() {
                step == BackfillStep::Finish(BackfillIndexResult::Done)
            } else if index.unique_index && !self.free {
                step matches BackfillStep::Ask(question) && question@ == (QuestionView::Holder {
                    index_id: index.id as int,
                    value: self.pairs[self.written as int].value@,
                })
            } else {
                step matches BackfillStep::Run(command) && command@ == pair_write(
                    self.store_id as int,
                    row_of(Some(index))->0,
                    pair_view(self.pairs[self.written as int]),
                )
            },
        }
    }

    /// The same backfill.
    pub open spec fn same_request(self, other: Backfill) -> bool {
        self.store_id == other.store_id && self.index_name == other.index_name && self.pairs
            == other.pairs
    }

    /// Waits for the answer to which object the next index key is held for.
    pub open spec fn awaits_holder(self) -> bool {
        &&& self.index matches Some(Some(index)) && index.unique_index
        &&& self.written < self.pairs.len()
        &&& !self.free
    }

    /// Waits for a write to be carried out.
    pub open spec fn awaits_write(self) -> bool {
        &&& self.index matches Some(Some(index)) && (index.unique_index ==> self.free)
        &&& self.written < self.pairs.len()
    }

    /// `after` has taken in an answer that does not end the backfill: which index it is, or that
    /// the next key is free. An answer to something that was not asked changes nothing.
    pub open spec fn learns(self, answer: Answer, after: Backfill) -> bool {
        &&& after.same_request(self)
        &&& after.written == self.written
        &&& match answer {
            Answer::Index(index) if self.index is None => after.index == Some(index) && !after.free,
            Answer::Holder(_) if self.awaits_holder() => after.index == self.index && after.free,
            _ => after == self,
        }
    }

    /// The answer says that the unique index holds the next key for another object.
    pub open spec fn collides(self, answer: Answer) -> bool {
        &&& self.awaits_holder()
        &&& answer matches Answer::Holder(Some(held)) && held@
            != self.pairs[self.written as int].primary_key@
    }

    /// Starts a backfill.
    pub fn new(store_id: i32, index_name: String, entries: &Vec<IndexBackfillEntry>) -> (backfill:
        Self)
        ensures
            backfill.wf(),
            backfill.store_id == store_id,
            backfill.index_name == index_name,
            pairs_view(backfill.pairs@) == all_pairs(entries@),
            backfill.index is None,
            backfill.written == 0,
            !backfill.free,
    {
        let mut pairs: Vec<BackfillPair> = Vec::new();
        let mut e: usize = 0;
        assert(entries@.take(0) =~= seq![]);
        assert(pairs_view(pairs@) =~= seq![]);
        while e < entries.len()
            invariant
                e <= entries.len(),
                pairs_view(pairs@) == all_pairs(entries@.take(e as int)),
            decreases entries.len() - e,
        {
            let entry = &entries[e];
            let ghost before = pairs_view(pairs@);
            let ghost own = entry_pairs(*entry);
            let mut k: usize = 0;
            assert(before + own.take(0) =~= before);
            while k < entry.keys.len()
                invariant
                    k <= entry.keys.len(),
                    own == entry_pairs(*entry),
                    pairs_view(pairs@) == before + own.take(k as int),
                decreases entry.keys.len() - k,
            {
                let ghost so_far = pairs@;
                let pair = BackfillPair {
                    primary_key: copy_bytes(&entry.primary_key.encoded),
                    value: copy_bytes(&entry.keys[k].encoded),
                };
                pairs.push(pair);
                assert(pairs_view(pairs@) =~= pairs_view(so_far).push(pair_view(pair)));
                assert(own.take(k + 1) =~= own.take(k as int).push(own[k as int]));
                assert(pairs_view(pairs@) =~= before + own.take(k + 1));
                k += 1;
            }
            assert(own.take(k as int) =~= own);
            assert(entries@.take(e + 1).drop_last() =~= entries@.take(e as int));
            e += 1;
        }
        assert(entries@.take(e as int) =~= entries@);
        Backfill { store_id, index_name, pairs, index: None, written: 0, free: false }
    }

    /// What comes next.
    pub fn next(&self) -> (step: BackfillStep)
        requires
            self.wf(),
        ensures
            self.leads_to(step),
    {
        match &self.index {
            None => BackfillStep::Ask(
                Question::Index { store_id: self.store_id, name: self.index_name.clone() },
            ),
            Some(None) => BackfillStep::Finish(BackfillIndexResult::Done),
            Some(Some(index)) => {
                if self.written == self.pairs.len() {
                    return BackfillStep::Finish(BackfillIndexResult::Done);
                }
                let pair = &self.pairs[self.written];
                if index.unique_index && !self.free {
                    return BackfillStep::Ask(
                        Question::Holder { index_id: index.id, value: copy_bytes(&pair.value) },
                    );
                }
                BackfillStep::Run(
                    Command::PutIndexRecord {
                        unique: index.unique_index,
                        index_id: index.id,
                        value: copy_bytes(&pair.value),
                        store_id: self.store_id,
                        primary_key: copy_bytes(&pair.primary_key),
                    },
                )
            },
        }
    }

    /// Takes in an answer. A key that the unique index holds for another object ends the
    /// backfill; an answer to something that was not asked is passed over.
    pub fn resume(&mut self, answer: Answer) -> (step: BackfillStep)
        requires
            old(self).wf(),
        ensures
            final(self).wf(),
            if old(self).collides(answer) {
                &&& *final(self) == *old(self)
                &&& step == BackfillStep::Finish(BackfillIndexResult::UniqueConstraintViolated)
            } else {
                old(self).learns(answer, *final(self)) && final(self).leads_to(step)
            },
    {
        match answer {
            Answer::Index(index) => {
                if self.index.is_none() {
                    self.index = Some(index);
                    self.free = false;
                }
            },
            Answer::Holder(holder) => {
                let asked = match &self.index {
                    Some(Some(index)) => index.unique_index && self.written < self.pairs.len()
                        && !self.free,
                    _ => false,
                };
                if asked {
                    if let Some(held) = holder {
                        if !same_bytes(&held, &self.pairs[self.written].primary_key) {
                            return BackfillStep::Finish(
                                BackfillIndexResult::UniqueConstraintViolated,
                            );
                        }
                    }
                    self.free = true;
                }
            },
            Answer::Object(_) => {},
        }
        self.next()
    }

    /// Goes on after a command has been carried out.
    pub fn wrote(&mut self) -> (step: BackfillStep)
        requires
            old(self).wf(),
            old(self).awaits_write(),
        ensures
            final(self).wf(),
            final(self).same_request(*old(self)),
            final(self).index == old(self).index,
            final(self).written == old(self).written + 1,
            !final(self).free,
            final(self).leads_to(step),
    {
        self.written = self.written + 1;
        self.free = false;
        self.next()
    }
}

/// The writes of the first `n` index records.
pub open spec fn first_writes(
    store_id: int,
    row: IndexRow,
    pairs: Seq<(Seq<u8>, Seq<u8>)>,
    n: int,
) -> Seq<Write> {
    Seq::new(n as nat, |i: int| pair_write(store_id, row, pairs[i]))
}

/// Every index record that a backfill has written was free when it was written: `tables` were the
/// tables at the start, and each key was looked up in the tables as they then stood.
pub open spec fn written_freely(backfill: Backfill, tables: Tables) -> bool {
    backfill.index matches Some(Some(index)) && index.unique_index ==> {
        let row = row_of(Some(backfill.index->0->0))->0;
        let pairs = pairs_view(backfill.pairs@);
        forall|n: int|
            #![trigger pairs[n]]
            0 <= n < backfill.written + (if backfill.free {
                1int
            } else {
                0
            }) && n < pairs.len() ==> !tables.after_all(
                first_writes(backfill.store_id as int, row, pairs, n),
            ).held_by_other(row, pairs[n].1, pairs[n].0)
    }
}

/// A backfill that is told truly whether a key is held goes on only where the key is free.
pub proof fn backfill_stays_free(
    before: Backfill,
    holder: Option<Vec<u8>>,
    after: Backfill,
    tables: Tables,
)
    requires
        before.wf(),
        before.awaits_holder(),
        written_freely(before, tables),
        ({
            let row = row_of(Some(before.index->0->0))->0;
            let pairs = pairs_view(before.pairs@);
            let now = tables.after_all(
                first_writes(before.store_id as int, row, pairs, before.written as int),
            );
            let value = pairs[before.written as int].1;
            match holder {
                Some(held) => now.unique_records.contains_key((row.id, value))
                    && now.unique_records[(row.id, value)].1 == held@,
                None => !now.unique_records.contains_key((row.id, value)),
            }
        }),
        !(holder matches Some(held) && held@ != before.pairs[before.written as int].primary_key@),
        after.same_request(before),
        after.index == before.index,
        after.written == before.written,
        after.free,
    ensures
        written_freely(after, tables),
{
    let pairs = pairs_view(before.pairs@);
    assert(pairs[before.written as int] == pair_view(before.pairs[before.written as int]));
}

/// Carrying out the write of a free key keeps a backfill free.
pub proof fn backfill_write_stays_free(before: Backfill, after: Backfill, tables: Tables)
    requires
        before.wf(),
        before.awaits_write(),
        written_freely(before, tables),
        after.same_request(before),
        after.index == before.index,
        after.written == before.written + 1,
        !after.free,
    ensures
        written_freely(after, tables),
{
}

} // verus!
