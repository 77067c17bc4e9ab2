//! The items of one origin.

use vstd::prelude::*;

use crate::error::option_text;
use crate::text_map::{
    absent, byte_len, bytes, contents_fix_items, contents_of, in_key_order, inserted, item_at,
    item_texts, one_place, removed, updated, TextItem, TextMap,
};

verus! {

/// The bytes of all keys and values.
pub open spec fn total_bytes(items: Seq<TextItem>) -> nat
    decreases items.len(),
{
    if items.len() == 0 {
        0
    } else {
        total_bytes(items.drop_last()) + bytes(items.last().key@).len() + bytes(
            items.last().value@,
        ).len()
    }
}

/// The items of one origin, with the number of bytes that they take.
#[derive(Debug)]
pub struct OriginEntry {
    tree: TextMap,
    size: usize,
}

proof fn total_of_insert(items: Seq<TextItem>, i: int, item: TextItem)
    requires
        0 <= i <= items.len(),
    ensures
        total_bytes(items.insert(i, item)) == total_bytes(items) + bytes(item.key@).len() + bytes(
            item.value@,
        ).len(),
    decreases items.len(),
{
    let after = items.insert(i, item);
    if i == items.len() {
        assert(after.drop_last() =~= items);
    } else {
        assert(after.drop_last() =~= items.drop_last().insert(i, item));
        total_of_insert(items.drop_last(), i, item);
    }
}

proof fn total_of_remove(items: Seq<TextItem>, i: int)
    requires
        0 <= i < items.len(),
    ensures
        total_bytes(items) == total_bytes(items.remove(i)) + bytes(items[i].key@).len() + bytes(
            items[i].value@,
        ).len(),
{
    total_of_insert(items.remove(i), i, items[i]);
    assert(items.remove(i).insert(i, items[i]) =~= items);
}

proof fn total_of_update(items: Seq<TextItem>, i: int, item: TextItem)
    requires
        0 <= i < items.len(),
        item.key@ == items[i].key@,
    ensures
        total_bytes(items.update(i, item)) + bytes(items[i].value@).len() == total_bytes(items)
            + bytes(item.value@).len(),
{
    total_of_remove(items, i);
    total_of_remove(items.update(i, item), i);
    assert(items.update(i, item).remove(i) =~= items.remove(i));
}

impl View for OriginEntry {
    type V = Map<Seq<char>, Seq<char>>;

    closed spec fn view(&self) -> Map<Seq<char>, Seq<char>> {
        contents_of(self.tree.items@)
    }
}

impl OriginEntry {
    /// The items are in order, and the size is theirs.
    pub closed spec fn wf(&self) -> bool {
        in_key_order(self.tree.items@) && self.size == total_bytes(self.tree.items@)
    }

    /// The items in order.
    pub closed spec fn items(&self) -> Seq<TextItem> {
        self.tree.items@
    }

    /// The items are in ascending order of their keys, and hold what the entry holds.
    pub proof fn items_are_the_contents(&self)
        requires
            self.wf(),
        ensures
            in_key_order(self.items()),
            contents_of(self.items()) == self@,
    {
    }

    /// The number of bytes once the key has the value.
    pub open spec fn grown(&self, key: Seq<char>, value: Seq<char>) -> int {
        if self@.contains_key(key) {
            total_bytes(self.items()) - bytes(self@[key]).len() + bytes(value).len()
        } else {
            (total_bytes(self.items()) + bytes(key).len() + bytes(value).len()) as int
        }
    }

    /// The number of bytes once the key is taken out.
    pub open spec fn shrunk(&self, key: Seq<char>) -> int {
        if self@.contains_key(key) {
            total_bytes(self.items()) - bytes(key).len() - bytes(self@[key]).len()
        } else {
            total_bytes(self.items()) as int
        }
    }

    /// No value takes more than all items.
    pub proof fn value_within(&self, key: Seq<char>)
        requires
            self.wf(),
            self@.contains_key(key),
        ensures
            bytes(self@[key]).len() <= total_bytes(self.items()),
    {
        let items = self.tree.items@;
        let i = choose|i: int| item_at(items, key, i);
        assert(item_at(items, key, i));
        total_of_remove(items, i);
    }

    /// No items.
    pub fn new() -> (entry: Self)
        ensures
            entry.wf(),
            entry@ == Map::<Seq<char>, Seq<char>>::empty(),
            entry.items().len() == 0,
    {
        let entry = OriginEntry { tree: TextMap { items: Vec::new() }, size: 0 };
        assert(entry@ =~= Map::<Seq<char>, Seq<char>>::empty());
        entry
    }

    /// The items in ascending order of their keys.
    pub fn inner(&self) -> (tree: &TextMap)
        requires
            self.wf(),
        ensures
            tree.items@ == self.items(),
            in_key_order(tree.items@),
            contents_of(tree.items@) == self@,
    {
        &self.tree
    }

    /// Gives the key a value, and answers the value that it had.
    pub fn insert(&mut self, key: String, value: String) -> (old_value: Option<String>)
        requires
            old(self).wf(),
            old(self).grown(key@, value@) <= usize::MAX,
        ensures
            inserts(*old(self), key@, value@, *final(self), old_value),
    {
        let ghost before = self.tree.items@;
        let value_len = byte_len(&value);
        match self.tree.locate(&key) {
            Ok(i) => {
                let old_len = byte_len(&self.tree.items[i].value);
                let ghost item = TextItem { key: before[i as int].key, value };
                proof {
                    one_place(before, i as int);
                    total_of_update(before, i as int, item);
                    total_of_remove(before, i as int);
                }
                let mut text = value;
                std::mem::swap(&mut self.tree.items[i].value, &mut text);
                self.size = self.size - old_len + value_len;
                proof {
                    assert(self.tree.items@ =~= before.update(i as int, item));
                    updated(before, i as int, item);
                }
                Some(text)
            },
            Err(i) => {
                let key_len = byte_len(&key);
                let ghost item = TextItem { key, value };
                proof {
                    total_of_insert(before, i as int, item);
                    absent(before, i as int, key@);
                    inserted(before, i as int, item);
                }
                self.tree.items.insert(i, TextItem { key, value });
                self.size = self.size + key_len + value_len;
                None
            },
        }
    }

    /// Takes a key out, and answers the value that it had.
    pub fn remove(&mut self, key: &String) -> (old_value: Option<String>)
        requires
            old(self).wf(),
        ensures
            removes(*old(self), key@, *final(self), old_value),
    {
        let ghost before = self.tree.items@;
        match self.tree.locate(key) {
            Ok(i) => {
                proof {
                    one_place(before, i as int);
                    total_of_remove(before, i as int);
                    removed(before, i as int);
                }
                let item = self.tree.items.remove(i);
                self.size = self.size - (byte_len(key) + byte_len(&item.value));
                Some(item.value)
            },
            Err(i) => {
                proof {
                    absent(before, i as int, key@);
                    assert(self@ =~= self@.remove(key@));
                }
                None
            },
        }
    }

    /// Takes every item out.
    pub fn clear(&mut self)
        ensures
            final(self).wf(),
            final(self)@ == Map::<Seq<char>, Seq<char>>::empty(),
            final(self).items().len() == 0,
    {
        self.tree.items.clear();
        self.size = 0;
        assert(self@ =~= Map::<Seq<char>, Seq<char>>::empty());
    }

    /// The number of bytes of all keys and values.
    pub fn size(&self) -> (size: usize)
        requires
            self.wf(),
        ensures
            size == total_bytes(self.items()),
    {
        self.size
    }

    /// A copy of the items.
    pub fn copy(&self) -> (copy: OriginEntry)
        requires
            self.wf(),
        ensures
            copy.wf(),
            copy@ == self@,
            copy.items() == self.items(),
    {
        let mut items: Vec<TextItem> = Vec::new();
        let mut i: usize = 0;
        while i < self.tree.items.len()
            invariant
                i <= self.tree.items.len(),
                items@ == self.tree.items@.take(i as int),
            decreases self.tree.items.len() - i,
        {
            let item = &self.tree.items[i];
            items.push(TextItem { key: item.key.clone(), value: item.value.clone() });
            assert(items@ =~= self.tree.items@.take(i + 1));
            i += 1;
        }
        assert(items@ =~= self.tree.items@);
        OriginEntry { tree: TextMap { items }, size: self.size }
    }
}

/// The key gets the value, and the value that it had is answered.
pub open spec fn inserts(
    before: OriginEntry,
    key: Seq<char>,
    value: Seq<char>,
    after: OriginEntry,
    old_value: Option<String>,
) -> bool {
    &&& after.wf()
    &&& after@ == before@.insert(key, value)
    &&& total_bytes(after.items()) == before.grown(key, value)
    &&& option_text(old_value) == if before@.contains_key(key) {
        Some(before@[key])
    } else {
        None
    }
}

/// The key goes, and the value that it had is answered.
pub open spec fn removes(
    before: OriginEntry,
    key: Seq<char>,
    after: OriginEntry,
    old_value: Option<String>,
) -> bool {
    &&& after.wf()
    &&& after@ == before@.remove(key)
    &&& total_bytes(after.items()) == before.shrunk(key)
    &&& option_text(old_value) == if before@.contains_key(key) {
        Some(before@[key])
    } else {
        None
    }
}

/// Entries with the same contents have the same items, in the same order.
pub proof fn contents_fix_the_items(a: OriginEntry, b: OriginEntry)
    requires
        a.wf(),
        b.wf(),
        a@ == b@,
    ensures
        item_texts(a.items()) == item_texts(b.items()),
        total_bytes(a.items()) == total_bytes(b.items()),
{
    contents_fix_items(a.items(), b.items());
    texts_fix_bytes(a.items(), b.items());
}

/// Inserting a new key and removing it again gives the value back, and the entry as it was before,
/// its items in their order and its size. Removing the key once more changes nothing.
pub proof fn removing_undoes_inserting(
    before: OriginEntry,
    key: Seq<char>,
    value: Seq<char>,
    inserted: OriginEntry,
    had: Option<String>,
    removed: OriginEntry,
    taken: Option<String>,
    again: OriginEntry,
    left: Option<String>,
)
    requires
        before.wf(),
        !before@.contains_key(key),
        inserts(before, key, value, inserted, had),
        removes(inserted, key, removed, taken),
        removes(removed, key, again, left),
    ensures
        had is None,
        option_text(taken) == Some(value),
        removed@ == before@,
        item_texts(removed.items()) == item_texts(before.items()),
        total_bytes(removed.items()) == total_bytes(before.items()),
        left is None,
        again@ == before@,
        item_texts(again.items()) == item_texts(before.items()),
        total_bytes(again.items()) == total_bytes(before.items()),
{
    assert(removed@ =~= before@);
    assert(again@ =~= before@);
    contents_fix_the_items(removed, before);
    contents_fix_the_items(again, before);
}

/// Items with the same texts take the same number of bytes.
proof fn texts_fix_bytes(a: Seq<TextItem>, b: Seq<TextItem>)
    requires
        item_texts(a) == item_texts(b),
    ensures
        total_bytes(a) == total_bytes(b),
    decreases a.len(),
{
    assert(item_texts(a).len() == a.len() && item_texts(b).len() == b.len());
    if a.len() > 0 {
        assert(item_texts(a).last() == item_texts(b).last());
        assert(item_texts(a.drop_last()) =~= item_texts(a).drop_last());
        assert(item_texts(b.drop_last()) =~= item_texts(b).drop_last());
        texts_fix_bytes(a.drop_last(), b.drop_last());
    }
}

impl Default for OriginEntry {
    fn default() -> (entry: Self)
        ensures
            entry.wf(),
            entry@ == Map::<Seq<char>, Seq<char>>::empty(),
    {
        OriginEntry::new()
    }
}

/// The size of items is that of their keys and values, each counted once.
pub proof fn sizes_add_up(items: Seq<TextItem>, more: Seq<TextItem>, item: TextItem)
    ensures
        total_bytes(items + more) == total_bytes(items) + total_bytes(more),
        total_bytes(seq![item]) == bytes(item.key@).len() + bytes(item.value@).len(),
        total_bytes(Seq::<TextItem>::empty()) == 0,
    decreases more.len(),
{
    assert(seq![item].drop_last() =~= seq![]);
    reveal_with_fuel(total_bytes, 2);
    if more.len() == 0 {
        assert(items + more =~= items);
    } else {
        sizes_add_up(items, more.drop_last(), item);
        assert((items + more).drop_last() =~= items + more.drop_last());
        assert((items + more).last() == more.last());
    }
}

/// Giving a key the value that it has keeps the size; a new key takes its own bytes and those of its
/// value, and taking it out again frees as many; taking out what is not there frees none.
pub proof fn sizes_follow_the_items(
    before: OriginEntry,
    key: Seq<char>,
    value: Seq<char>,
    after: OriginEntry,
    had: Option<String>,
)
    requires
        inserts(before, key, value, after, had),
    ensures
        before@.contains_key(key) ==> before.grown(key, before@[key]) == total_bytes(
            before.items(),
        ),
        !before@.contains_key(key) ==> before.grown(key, value) == total_bytes(before.items())
            + bytes(key).len() + bytes(value).len(),
        !before@.contains_key(key) ==> before.shrunk(key) == total_bytes(before.items()),
        !before@.contains_key(key) ==> after.shrunk(key) == total_bytes(before.items()),
        before@.contains_key(key) ==> after.shrunk(key) == before.shrunk(key),
{
}

/// An entry is as large as what it holds: setting a new item adds the bytes of its key and value, and
/// taking an item out takes its own away.
pub proof fn items_are_counted_as_they_come_and_go(
    before: OriginEntry,
    key: Seq<char>,
    value: Seq<char>,
    inserted: OriginEntry,
    had: Option<String>,
    removed: OriginEntry,
    taken: Option<String>,
)
    requires
        inserts(before, key, value, inserted, had),
        removes(before, key, removed, taken),
    ensures
        had is Some <==> before@.contains_key(key),
        taken is Some <==> before@.contains_key(key),
        option_text(had) == option_text(taken),
        total_bytes(inserted.items()) == total_bytes(removed.items()) + bytes(key).len() + bytes(
            value,
        ).len(),
{
}

} // verus!
