//! Values by webview and origin, each pair once, in the order in which the pairs were first used.

use vstd::prelude::*;

use crate::text::{contains_text, texts};

verus! {

/// A webview, an origin, and what they have.
#[derive(Debug)]
pub struct Slot<V> {
    pub webview: u64,
    pub origin: String,
    pub value: V,
}

impl<V> Slot<V> {
    /// The webview and the origin.
    pub open spec fn key(self) -> (u64, Seq<char>) {
        (self.webview, self.origin@)
    }
}

/// Place `i` of the list is that of the pair.
pub open spec fn slot_at<V>(entries: Seq<Slot<V>>, key: (u64, Seq<char>), i: int) -> bool {
    0 <= i < entries.len() && entries[i].key() == key
}

/// No pair comes twice.
pub open spec fn distinct<V>(entries: Seq<Slot<V>>) -> bool {
    forall|i: int, j: int|
        0 <= i < j < entries.len() ==> (#[trigger] entries[i]).key() != (
        #[trigger] entries[j]).key()
}

/// The values of the list by webview and origin.
pub open spec fn by_slot<V>(entries: Seq<Slot<V>>) -> Map<(u64, Seq<char>), V> {
    Map::new(
        |key: (u64, Seq<char>)| exists|i: int| slot_at(entries, key, i),
        |key: (u64, Seq<char>)| entries[choose|i: int| slot_at(entries, key, i)].value,
    )
}

/// Values by webview and origin.
#[derive(Debug)]
pub struct Slots<V> {
    pub entries: Vec<Slot<V>>,
}

impl<V> View for Slots<V> {
    type V = Map<(u64, Seq<char>), V>;

    open spec fn view(&self) -> Map<(u64, Seq<char>), V> {
        by_slot(self.entries@)
    }
}

/// The value at a place is the value of its pair.
pub proof fn value_at<V>(entries: Seq<Slot<V>>, i: int)
    requires
        distinct(entries),
        0 <= i < entries.len(),
    ensures
        by_slot(entries).contains_key(entries[i].key()),
        by_slot(entries)[entries[i].key()] == entries[i].value,
{
    let key = entries[i].key();
    assert(slot_at(entries, key, i));
    let k = choose|k: int| slot_at(entries, key, k);
    assert(slot_at(entries, key, k));
    if i < k {
        assert(entries[i].key() != entries[k].key());
    } else if k < i {
        assert(entries[k].key() != entries[i].key());
    }
}

/// Replacing the value at a place replaces the value of its pair and of no other.
pub proof fn replaced<V>(before: Seq<Slot<V>>, i: int, after: Seq<Slot<V>>)
    requires
        distinct(before),
        0 <= i < before.len(),
        after.len() == before.len(),
        after[i].key() == before[i].key(),
        forall|j: int| 0 <= j < before.len() && j != i ==> #[trigger] after[j] == before[j],
    ensures
        distinct(after),
        by_slot(after) == by_slot(before).insert(before[i].key(), after[i].value),
{
    assert forall|a: int, b: int| 0 <= a < b < after.len() implies (#[trigger] after[a]).key() != (
    #[trigger] after[b]).key() by {
        assert(before[a].key() != before[b].key());
    }
    let expected = by_slot(before).insert(before[i].key(), after[i].value);
    assert forall|key: (u64, Seq<char>)| #[trigger]
        by_slot(after).contains_key(key) <==> expected.contains_key(key) by {
        if exists|k: int| slot_at(after, key, k) {
            let k = choose|k: int| slot_at(after, key, k);
            assert(slot_at(before, key, k));
        }
        if exists|k: int| slot_at(before, key, k) {
            let k = choose|k: int| slot_at(before, key, k);
            assert(slot_at(after, key, k));
        }
        assert(slot_at(after, before[i].key(), i));
    }
    assert forall|key: (u64, Seq<char>)| by_slot(after).contains_key(key) implies #[trigger] by_slot(
        after,
    )[key] == expected[key] by {
        let k = choose|k: int| slot_at(after, key, k);
        assert(slot_at(after, key, k));
        value_at(after, k);
        value_at(before, k);
    }
    assert(by_slot(after) =~= expected);
}

proof fn added<V>(before: Seq<Slot<V>>, entry: Slot<V>)
    requires
        distinct(before),
        forall|i: int| !slot_at(before, entry.key(), i),
    ensures
        distinct(before.push(entry)),
        by_slot(before.push(entry)) == by_slot(before).insert(entry.key(), entry.value),
{
    let after = before.push(entry);
    let n = before.len() as int;
    assert forall|a: int, b: int| 0 <= a < b < after.len() implies (#[trigger] after[a]).key() != (
    #[trigger] after[b]).key() by {
        assert(after[a] == before[a]);
        if b < n {
            assert(before[a].key() != before[b].key());
        } else {
            assert(!slot_at(before, entry.key(), a));
        }
    }
    let expected = by_slot(before).insert(entry.key(), entry.value);
    assert forall|key: (u64, Seq<char>)| #[trigger]
        by_slot(after).contains_key(key) <==> expected.contains_key(key) by {
        if exists|k: int| slot_at(after, key, k) {
            let k = choose|k: int| slot_at(after, key, k);
            if k < n {
                assert(slot_at(before, key, k));
            }
        }
        if exists|k: int| slot_at(before, key, k) {
            let k = choose|k: int| slot_at(before, key, k);
            assert(slot_at(after, key, k));
        }
        assert(slot_at(after, entry.key(), n));
    }
    assert forall|key: (u64, Seq<char>)| by_slot(after).contains_key(key) implies #[trigger] by_slot(
        after,
    )[key] == expected[key] by {
        let k = choose|k: int| slot_at(after, key, k);
        assert(slot_at(after, key, k));
        value_at(after, k);
        if k < n {
            value_at(before, k);
            assert(!slot_at(before, entry.key(), k));
        }
    }
    assert(by_slot(after) =~= expected);
}

proof fn removed<V>(before: Seq<Slot<V>>, i: int)
    requires
        distinct(before),
        0 <= i < before.len(),
    ensures
        distinct(before.remove(i)),
        by_slot(before.remove(i)) == by_slot(before).remove(before[i].key()),
{
    let after = before.remove(i);
    assert forall|a: int, b: int| 0 <= a < b < after.len() implies (#[trigger] after[a]).key() != (
    #[trigger] after[b]).key() by {
        let x = if a < i { a } else { a + 1 };
        let y = if b < i { b } else { b + 1 };
        assert(before[x].key() != before[y].key());
    }
    let expected = by_slot(before).remove(before[i].key());
    assert forall|key: (u64, Seq<char>)| #[trigger]
        by_slot(after).contains_key(key) <==> expected.contains_key(key) by {
        if exists|k: int| slot_at(after, key, k) {
            let k = choose|k: int| slot_at(after, key, k);
            let x = if k < i { k } else { k + 1 };
            assert(slot_at(before, key, x));
            if x < i {
                assert(before[x].key() != before[i].key());
            } else {
                assert(before[i].key() != before[x].key());
            }
        }
        if key != before[i].key() && exists|k: int| slot_at(before, key, k) {
            let k = choose|k: int| slot_at(before, key, k);
            let x = if k < i { k } else { k - 1 };
            assert(slot_at(after, key, x));
        }
    }
    assert forall|key: (u64, Seq<char>)| by_slot(after).contains_key(key) implies #[trigger] by_slot(
        after,
    )[key] == expected[key] by {
        let k = choose|k: int| slot_at(after, key, k);
        assert(slot_at(after, key, k));
        value_at(after, k);
        let x = if k < i { k } else { k + 1 };
        assert(before[x] == after[k]);
        value_at(before, x);
    }
    assert(by_slot(after) =~= expected);
}

impl<V> Slots<V> {
    /// No pair comes twice.
    pub open spec fn wf(&self) -> bool {
        distinct(self.entries@)
    }

    /// No slots.
    pub fn new() -> (slots: Self)
        ensures
            slots.wf(),
            slots.entries@.len() == 0,
            slots@ == Map::<(u64, Seq<char>), V>::empty(),
    {
        let slots = Slots { entries: Vec::new() };
        assert(slots@ =~= Map::<(u64, Seq<char>), V>::empty());
        slots
    }

    /// The place of a webview's origin.
    pub fn find(&self, webview: u64, origin: &String) -> (place: Option<usize>)
        requires
            self.wf(),
        ensures
            place is Some <==> self@.contains_key((webview, origin@)),
            place matches Some(i) ==> slot_at(self.entries@, (webview, origin@), i as int) && self@[(
                webview,
                origin@,
            )] == self.entries@[i as int].value,
    {
        let mut i: usize = 0;
        while i < self.entries.len()
            invariant
                self.wf(),
                i <= self.entries.len(),
                forall|j: int| 0 <= j < i ==> !slot_at(self.entries@, (webview, origin@), j),
            decreases self.entries.len() - i,
        {
            if self.entries[i].webview == webview && self.entries[i].origin == *origin {
                proof {
                    value_at(self.entries@, i as int);
                }
                return Some(i);
            }
            i += 1;
        }
        None
    }

    /// Gives a webview's origin a value, where it has none yet.
    pub fn add_slot(&mut self, webview: u64, origin: String, value: V)
        requires
            old(self).wf(),
            !old(self)@.contains_key((webview, origin@)),
        ensures
            final(self).wf(),
            final(self)@ == old(self)@.insert((webview, origin@), value),
            final(self).entries@ == old(self).entries@.push(Slot { webview, origin, value }),
    {
        let ghost before = self.entries@;
        proof {
            assert forall|i: int| !slot_at(before, (webview, origin@), i) by {
                if slot_at(before, (webview, origin@), i) {
                    value_at(before, i);
                }
            }
            added(before, Slot { webview, origin, value });
        }
        self.entries.push(Slot { webview, origin, value });
    }

    /// Takes the slot at a place out.
    pub fn take_at(&mut self, i: usize) -> (slot: Slot<V>)
        requires
            old(self).wf(),
            i < old(self).entries.len(),
        ensures
            final(self).wf(),
            slot == old(self).entries@[i as int],
            final(self).entries@ == old(self).entries@.remove(i as int),
            final(self)@ == old(self)@.remove(slot.key()),
    {
        proof {
            removed(self.entries@, i as int);
        }
        self.entries.remove(i)
    }

    /// Takes the slots of a webview out.
    pub fn take_webview(&mut self, webview: u64) -> (taken: Vec<Slot<V>>)
        requires
            old(self).wf(),
        ensures
            final(self).wf(),
            final(self)@ == without_webview(old(self)@, webview),
            distinct(taken@),
            by_slot(taken@) == only_webview(old(self)@, webview),
    {
        let mut taken: Vec<Slot<V>> = Vec::new();
        let mut i: usize = 0;
        assert(only_webview(self@, webview).union_prefer_right(by_slot(taken@)) =~= only_webview(
            old(self)@,
            webview,
        ));
        while i < self.entries.len()
            invariant
                self.wf(),
                i <= self.entries.len(),
                distinct(taken@),
                without_webview(self@, webview) == without_webview(old(self)@, webview),
                only_webview(self@, webview).union_prefer_right(by_slot(taken@)) == only_webview(
                    old(self)@,
                    webview,
                ),
                forall|key: (u64, Seq<char>)| #[trigger]
                    by_slot(taken@).contains_key(key) ==> !self@.contains_key(key),
                forall|j: int| 0 <= j < i ==> (#[trigger] self.entries@[j]).webview != webview,
            decreases self.entries.len() - i,
        {
            if self.entries[i].webview == webview {
                let ghost before = self@;
                let ghost held = taken@;
                proof {
                    value_at(self.entries@, i as int);
                }
                let slot = self.take_at(i);
                proof {
                    assert forall|j: int| !slot_at(held, slot.key(), j) by {
                        if slot_at(held, slot.key(), j) {
                            value_at(held, j);
                        }
                    }
                    added(held, slot);
                }
                taken.push(slot);
                proof {
                    assert(without_webview(self@, webview) =~= without_webview(before, webview));
                    assert(only_webview(self@, webview).union_prefer_right(by_slot(taken@))
                        =~= only_webview(before, webview).union_prefer_right(by_slot(held)));
                }
            } else {
                i += 1;
            }
        }
        proof {
            assert forall|key: (u64, Seq<char>)| #[trigger] self@.contains_key(key) implies key.0
                != webview by {
                let k = choose|k: int| slot_at(self.entries@, key, k);
                assert(self.entries@[k].webview != webview);
            }
            assert(self@ =~= without_webview(self@, webview));
            assert(only_webview(self@, webview).union_prefer_right(by_slot(taken@)) =~= by_slot(
                taken@,
            ));
        }
        taken
    }

    /// Takes the slots of the origins out.
    pub fn take_origins(&mut self, origins: &Vec<String>) -> (taken: Vec<Slot<V>>)
        requires
            old(self).wf(),
        ensures
            final(self).wf(),
            final(self)@ == without_origins(old(self)@, texts(origins@)),
            distinct(taken@),
            by_slot(taken@) == only_origins(old(self)@, texts(origins@)),
    {
        let ghost names = texts(origins@);
        let mut taken: Vec<Slot<V>> = Vec::new();
        let mut i: usize = 0;
        assert(only_origins(self@, names).union_prefer_right(by_slot(taken@)) =~= only_origins(
            old(self)@,
            names,
        ));
        while i < self.entries.len()
            invariant
                names == texts(origins@),
                self.wf(),
                i <= self.entries.len(),
                distinct(taken@),
                without_origins(self@, names) == without_origins(old(self)@, names),
                only_origins(self@, names).union_prefer_right(by_slot(taken@)) == only_origins(
                    old(self)@,
                    names,
                ),
                forall|key: (u64, Seq<char>)| #[trigger]
                    by_slot(taken@).contains_key(key) ==> !self@.contains_key(key),
                forall|j: int|
                    0 <= j < i ==> !names.contains((#[trigger] self.entries@[j]).origin@),
            decreases self.entries.len() - i,
        {
            if contains_text(origins, &self.entries[i].origin) {
                let ghost before = self@;
                let ghost held = taken@;
                proof {
                    value_at(self.entries@, i as int);
                }
                let slot = self.take_at(i);
                proof {
                    assert forall|j: int| !slot_at(held, slot.key(), j) by {
                        if slot_at(held, slot.key(), j) {
                            value_at(held, j);
                        }
                    }
                    added(held, slot);
                }
                taken.push(slot);
                proof {
                    assert(without_origins(self@, names) =~= without_origins(before, names));
                    assert(only_origins(self@, names).union_prefer_right(by_slot(taken@))
                        =~= only_origins(before, names).union_prefer_right(by_slot(held)));
                }
            } else {
                i += 1;
            }
        }
        proof {
            assert forall|key: (u64, Seq<char>)| #[trigger] self@.contains_key(
                key,
            ) implies !names.contains(key.1) by {
                let k = choose|k: int| slot_at(self.entries@, key, k);
                assert(!names.contains(self.entries@[k].origin@));
            }
            assert(self@ =~= without_origins(self@, names));
            assert(only_origins(self@, names).union_prefer_right(by_slot(taken@)) =~= by_slot(
                taken@,
            ));
        }
        taken
    }
}

/// The slots of the other origins.
pub open spec fn without_origins<V>(
    slots: Map<(u64, Seq<char>), V>,
    origins: Seq<Seq<char>>,
) -> Map<(u64, Seq<char>), V> {
    Map::new(
        |key: (u64, Seq<char>)| slots.contains_key(key) && !origins.contains(key.1),
        |key: (u64, Seq<char>)| slots[key],
    )
}

/// The slots of the origins.
pub open spec fn only_origins<V>(
    slots: Map<(u64, Seq<char>), V>,
    origins: Seq<Seq<char>>,
) -> Map<(u64, Seq<char>), V> {
    Map::new(
        |key: (u64, Seq<char>)| slots.contains_key(key) && origins.contains(key.1),
        |key: (u64, Seq<char>)| slots[key],
    )
}

/// The slots of a webview.
pub open spec fn only_webview<V>(slots: Map<(u64, Seq<char>), V>, webview: u64) -> Map<
    (u64, Seq<char>),
    V,
> {
    Map::new(
        |key: (u64, Seq<char>)| slots.contains_key(key) && key.0 == webview,
        |key: (u64, Seq<char>)| slots[key],
    )
}

/// The slots of the other webviews.
pub open spec fn without_webview<V>(slots: Map<(u64, Seq<char>), V>, webview: u64) -> Map<
    (u64, Seq<char>),
    V,
> {
    Map::new(
        |key: (u64, Seq<char>)| slots.contains_key(key) && key.0 != webview,
        |key: (u64, Seq<char>)| slots[key],
    )
}

} // verus!
