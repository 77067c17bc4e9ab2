//! Texts by key, in ascending order of the keys.

use vstd::prelude::*;
use vstd::string::*;
use vstd::utf8::*;

use crate::indexeddb::key::{
    key_lt, key_lt_asymmetric, key_lt_irreflexive, key_lt_transitive, order_of_slices, KeyOrder,
};

verus! {

/// The bytes of a text.
pub open spec fn bytes(text: Seq<char>) -> Seq<u8> {
    encode_utf8(text)
}

/// `a` comes before `b`, byte by byte.
pub open spec fn text_lt(a: Seq<char>, b: Seq<char>) -> bool {
    key_lt(bytes(a), bytes(b))
}

/// Texts with the same bytes are the same.
pub proof fn same_bytes_same_text(a: Seq<char>, b: Seq<char>)
    ensures
        bytes(a) == bytes(b) <==> a == b,
{
    encode_utf8_decode_utf8(a);
    encode_utf8_decode_utf8(b);
}

/// The number of bytes of a text.
pub fn byte_len(text: &String) -> (len: usize)
    ensures
        len == bytes(text@).len(),
{
    text.as_str().as_bytes().len()
}

/// How one text stands to another.
fn order_of_texts(a: &String, b: &String) -> (order: KeyOrder)
    ensures
        order is Less <==> text_lt(a@, b@),
        order is Greater <==> text_lt(b@, a@),
        order is Equal <==> a@ == b@,
{
    proof {
        same_bytes_same_text(a@, b@);
        key_lt_irreflexive(bytes(a@));
    }
    order_of_slices(a.as_str().as_bytes(), b.as_str().as_bytes())
}

/// One item.
#[derive(Debug)]
pub struct TextItem {
    pub key: String,
    pub value: String,
}

/// The items in ascending order of their keys, no key twice.
pub open spec fn in_key_order(items: Seq<TextItem>) -> bool {
    forall|i: int, j: int|
        0 <= i < j < items.len() ==> text_lt((#[trigger] items[i]).key@, (#[trigger] items[j]).key@)
}

/// Place `i` has the key.
pub open spec fn item_at(items: Seq<TextItem>, key: Seq<char>, i: int) -> bool {
    0 <= i < items.len() && items[i].key@ == key
}

/// The values by key.
pub open spec fn contents_of(items: Seq<TextItem>) -> Map<Seq<char>, Seq<char>> {
    Map::new(
        |key: Seq<char>| exists|i: int| item_at(items, key, i),
        |key: Seq<char>| items[choose|i: int| item_at(items, key, i)].value@,
    )
}

/// The items of an origin in ascending order of their keys.
#[derive(Debug)]
pub struct TextMap {
    pub items: Vec<TextItem>,
}

/// In ordered items a key stands at one place.
pub(crate) proof fn one_place(items: Seq<TextItem>, i: int)
    requires
        in_key_order(items),
        0 <= i < items.len(),
    ensures
        contents_of(items).contains_key(items[i].key@),
        contents_of(items)[items[i].key@] == items[i].value@,
        forall|j: int| item_at(items, items[i].key@, j) ==> j == i,
{
    let key = items[i].key@;
    assert(item_at(items, key, i));
    assert forall|j: int| item_at(items, key, j) implies j == i by {
        key_lt_irreflexive(bytes(key));
        if i < j {
            assert(text_lt(items[i].key@, items[j].key@));
        } else if j < i {
            assert(text_lt(items[j].key@, items[i].key@));
        }
    }
    let k = choose|k: int| item_at(items, key, k);
    assert(item_at(items, key, k));
}

/// The key and the value of each item.
pub open spec fn item_texts(items: Seq<TextItem>) -> Seq<(Seq<char>, Seq<char>)> {
    items.map_values(|item: TextItem| (item.key@, item.value@))
}

/// A key of ordered items stands in no later place of other ordered items with the same contents,
/// as long as the items before it are alike.
proof fn no_later_place(a: Seq<TextItem>, b: Seq<TextItem>, n: int) -> (place: int)
    requires
        in_key_order(a),
        in_key_order(b),
        contents_of(a) == contents_of(b),
        0 <= n < a.len(),
        n <= b.len(),
        forall|i: int| 0 <= i < n ==> (#[trigger] a[i]).key@ == b[i].key@,
    ensures
        n <= place < b.len(),
        b[place].key@ == a[n].key@,
        b[place].value@ == a[n].value@,
        place == n || text_lt(b[n].key@, a[n].key@),
{
    one_place(a, n);
    let key = a[n].key@;
    assert(contents_of(b).contains_key(key));
    let place = choose|i: int| item_at(b, key, i);
    assert(item_at(b, key, place));
    one_place(b, place);
    if place < n {
        assert(a[place].key@ == key);
        assert(item_at(a, key, place));
    }
    if place > n {
        assert(text_lt(b[n].key@, b[place].key@));
    }
    place
}

/// Ordered items with the same contents are alike, one by one.
pub(crate) proof fn contents_fix_items(a: Seq<TextItem>, b: Seq<TextItem>)
    requires
        in_key_order(a),
        in_key_order(b),
        contents_of(a) == contents_of(b),
    ensures
        item_texts(a) == item_texts(b),
{
    let shorter = if a.len() <= b.len() {
        a.len()
    } else {
        b.len()
    };
    alike_up_to(a, b, shorter as int);
    if a.len() > shorter {
        let place = no_later_place(a, b, shorter as int);
    }
    if b.len() > shorter {
        let place = no_later_place(b, a, shorter as int);
    }
    assert(item_texts(a) =~= item_texts(b));
}

proof fn alike_up_to(a: Seq<TextItem>, b: Seq<TextItem>, n: int)
    requires
        in_key_order(a),
        in_key_order(b),
        contents_of(a) == contents_of(b),
        0 <= n <= a.len(),
        n <= b.len(),
    ensures
        forall|i: int|
            0 <= i < n ==> (#[trigger] a[i]).key@ == b[i].key@ && a[i].value@ == b[i].value@,
    decreases n,
{
    if n > 0 {
        let last = n - 1;
        alike_up_to(a, b, last);
        assert forall|i: int| 0 <= i < last implies (#[trigger] b[i]).key@ == a[i].key@ by {
            assert(a[i].key@ == b[i].key@);
        }
        let p = no_later_place(a, b, last);
        let q = no_later_place(b, a, last);
        if p != last && q != last {
            key_lt_asymmetric(bytes(a[last].key@), bytes(b[last].key@));
        }
    }
}

impl TextMap {
    /// The place of a key, or the place where it would go.
    pub(crate) fn locate(&self, key: &String) -> (place: Result<usize, usize>)
        requires
            in_key_order(self.items@),
        ensures
            place matches Ok(i) ==> item_at(self.items@, key@, i as int),
            place matches Err(i) ==> i <= self.items.len() && (forall|j: int|
                0 <= j < i ==> text_lt((#[trigger] self.items@[j]).key@, key@)) && (forall|j: int|
                i <= j < self.items.len() ==> text_lt(key@, (#[trigger] self.items@[j]).key@)),
    {
        let mut low: usize = 0;
        let mut high: usize = self.items.len();
        while low < high
            invariant
                low <= high <= self.items.len(),
                in_key_order(self.items@),
                forall|j: int| 0 <= j < low ==> text_lt((#[trigger] self.items@[j]).key@, key@),
                forall|j: int|
                    high <= j < self.items.len() ==> text_lt(
                        key@,
                        (#[trigger] self.items@[j]).key@,
                    ),
            decreases high - low,
        {
            let middle: usize = low + (high - low) / 2;
            match order_of_texts(&self.items[middle].key, key) {
                KeyOrder::Equal => return Ok(middle),
                KeyOrder::Less => {
                    assert forall|j: int| 0 <= j < middle + 1 implies text_lt(
                        (#[trigger] self.items@[j]).key@,
                        key@,
                    ) by {
                        if j < middle {
                            assert(text_lt(self.items@[j].key@, self.items@[middle as int].key@));
                            key_lt_transitive(
                                bytes(self.items@[j].key@),
                                bytes(self.items@[middle as int].key@),
                                bytes(key@),
                            );
                        }
                    }
                    low = middle + 1;
                },
                KeyOrder::Greater => {
                    assert forall|j: int| middle <= j < self.items.len() implies text_lt(
                        key@,
                        (#[trigger] self.items@[j]).key@,
                    ) by {
                        if middle < j {
                            assert(text_lt(self.items@[middle as int].key@, self.items@[j].key@));
                            key_lt_transitive(
                                bytes(key@),
                                bytes(self.items@[middle as int].key@),
                                bytes(self.items@[j].key@),
                            );
                        }
                    }
                    high = middle;
                },
            }
        }
        Err(low)
    }

    /// The number of items.
    pub fn len(&self) -> (len: usize)
        ensures
            len == self.items@.len(),
    {
        self.items.len()
    }

    /// Whether there are no items.
    pub fn is_empty(&self) -> (empty: bool)
        ensures
            empty == (self.items@.len() == 0),
    {
        self.items.len() == 0
    }

    /// The value of a key.
    pub fn get(&self, key: &String) -> (value: Option<&String>)
        requires
            in_key_order(self.items@),
        ensures
            value is Some <==> contents_of(self.items@).contains_key(key@),
            value matches Some(value) ==> value@ == contents_of(self.items@)[key@],
    {
        match self.locate(key) {
            Ok(i) => {
                proof {
                    one_place(self.items@, i as int);
                }
                Some(&self.items[i].value)
            },
            Err(i) => {
                proof {
                    absent(self.items@, i as int, key@);
                }
                None
            },
        }
    }

    /// Gives the key a value, and answers the value that it had.
    pub fn put(&mut self, key: String, value: String) -> (old_value: Option<String>)
        requires
            in_key_order(old(self).items@),
        ensures
            in_key_order(final(self).items@),
            contents_of(final(self).items@) == contents_of(old(self).items@).insert(key@, value@),
            old_value is Some <==> contents_of(old(self).items@).contains_key(key@),
            old_value matches Some(text) ==> text@ == contents_of(old(self).items@)[key@],
    {
        let ghost before = self.items@;
        match self.locate(&key) {
            Ok(i) => {
                let ghost item = TextItem { key: before[i as int].key, value };
                let mut text = value;
                std::mem::swap(&mut self.items[i].value, &mut text);
                proof {
                    one_place(before, i as int);
                    assert(self.items@ =~= before.update(i as int, item));
                    updated(before, i as int, item);
                }
                Some(text)
            },
            Err(i) => {
                proof {
                    absent(before, i as int, key@);
                    inserted(before, i as int, TextItem { key, value });
                }
                self.items.insert(i, TextItem { key, value });
                None
            },
        }
    }

    /// The key at a place in ascending order.
    pub fn key(&self, index: usize) -> (key: Option<String>)
        ensures
            key == if index < self.items@.len() {
                Some(self.items@[index as int].key)
            } else {
                None
            },
    {
        if index < self.items.len() {
            Some(self.items[index].key.clone())
        } else {
            None
        }
    }

    /// The keys in ascending order.
    pub fn keys(&self) -> (keys: Vec<String>)
        ensures
            keys@ == self.items@.map_values(|item: TextItem| item.key),
    {
        let mut keys: Vec<String> = Vec::new();
        let mut i: usize = 0;
        while i < self.items.len()
            invariant
                i <= self.items.len(),
                keys@ == self.items@.map_values(|item: TextItem| item.key).take(i as int),
            decreases self.items.len() - i,
        {
            keys.push(self.items[i].key.clone());
            assert(keys@ =~= self.items@.map_values(|item: TextItem| item.key).take(i + 1));
            i += 1;
        }
        assert(keys@ =~= self.items@.map_values(|item: TextItem| item.key));
        keys
    }
}

/// A key that would go to place `i` is at no place.
pub(crate) proof fn absent(items: Seq<TextItem>, i: int, key: Seq<char>)
    requires
        0 <= i <= items.len(),
        forall|j: int| 0 <= j < i ==> text_lt((#[trigger] items[j]).key@, key),
        forall|j: int| i <= j < items.len() ==> text_lt(key, (#[trigger] items[j]).key@),
    ensures
        forall|j: int| !item_at(items, key, j),
        !contents_of(items).contains_key(key),
{
    assert forall|j: int| !item_at(items, key, j) by {
        key_lt_irreflexive(bytes(key));
        if item_at(items, key, j) {
            if j < i {
                assert(text_lt(items[j].key@, key));
            } else {
                assert(text_lt(key, items[j].key@));
            }
        }
    }
}

pub(crate) proof fn updated(before: Seq<TextItem>, i: int, item: TextItem)
    requires
        in_key_order(before),
        0 <= i < before.len(),
        item.key@ == before[i].key@,
    ensures
        in_key_order(before.update(i, item)),
        contents_of(before.update(i, item)) == contents_of(before).insert(item.key@, item.value@),
{
    let after = before.update(i, item);
    assert forall|a: int, b: int| 0 <= a < b < after.len() implies text_lt(
        (#[trigger] after[a]).key@,
        (#[trigger] after[b]).key@,
    ) by {
        assert(text_lt(before[a].key@, before[b].key@));
    }
    let expected = contents_of(before).insert(item.key@, item.value@);
    assert forall|key: Seq<char>| #[trigger]
        contents_of(after).contains_key(key) <==> expected.contains_key(key) by {
        if exists|k: int| item_at(after, key, k) {
            let k = choose|k: int| item_at(after, key, k);
            assert(item_at(before, key, k));
        }
        if exists|k: int| item_at(before, key, k) {
            let k = choose|k: int| item_at(before, key, k);
            assert(item_at(after, key, k));
        }
        assert(item_at(after, item.key@, i));
    }
    assert forall|key: Seq<char>| contents_of(after).contains_key(key) implies #[trigger] contents_of(
        after,
    )[key] == expected[key] by {
        let k = choose|k: int| item_at(after, key, k);
        assert(item_at(after, key, k));
        one_place(after, k);
        one_place(before, k);
        assert(item_at(after, item.key@, i));
        if k != i {
            assert(key != item.key@);
            assert(after[k] == before[k]);
        }
    }
    assert(contents_of(after) =~= expected);
}

pub(crate) proof fn inserted(before: Seq<TextItem>, i: int, item: TextItem)
    requires
        in_key_order(before),
        0 <= i <= before.len(),
        forall|j: int| 0 <= j < i ==> text_lt((#[trigger] before[j]).key@, item.key@),
        forall|j: int| i <= j < before.len() ==> text_lt(item.key@, (#[trigger] before[j]).key@),
        forall|j: int| !item_at(before, item.key@, j),
    ensures
        in_key_order(before.insert(i, item)),
        contents_of(before.insert(i, item)) == contents_of(before).insert(item.key@, item.value@),
{
    let after = before.insert(i, item);
    assert forall|a: int, b: int| 0 <= a < b < after.len() implies text_lt(
        (#[trigger] after[a]).key@,
        (#[trigger] after[b]).key@,
    ) by {
        if a != i && b != i {
            let x = if a < i { a } else { a - 1 };
            let y = if b < i { b } else { b - 1 };
            assert(text_lt(before[x].key@, before[y].key@));
        } else if a == i {
            assert(after[b] == before[b - 1]);
        }
    }
    let expected = contents_of(before).insert(item.key@, item.value@);
    assert forall|key: Seq<char>| #[trigger]
        contents_of(after).contains_key(key) <==> expected.contains_key(key) by {
        if exists|k: int| item_at(after, key, k) {
            let k = choose|k: int| item_at(after, key, k);
            if k != i {
                let x = if k < i { k } else { k - 1 };
                assert(item_at(before, key, x));
            }
        }
        if exists|k: int| item_at(before, key, k) {
            let k = choose|k: int| item_at(before, key, k);
            let x = if k < i { k } else { k + 1 };
            assert(item_at(after, key, x));
        }
        assert(item_at(after, item.key@, i));
    }
    assert forall|key: Seq<char>| contents_of(after).contains_key(key) implies #[trigger] contents_of(
        after,
    )[key] == expected[key] by {
        let k = choose|k: int| item_at(after, key, k);
        assert(item_at(after, key, k));
        one_place(after, k);
        if k != i {
            let x = if k < i { k } else { k - 1 };
            assert(before[x] == after[k]);
            one_place(before, x);
            assert(!item_at(before, item.key@, x));
        }
    }
    assert(contents_of(after) =~= expected);
}

pub(crate) proof fn removed(before: Seq<TextItem>, i: int)
    requires
        in_key_order(before),
        0 <= i < before.len(),
    ensures
        in_key_order(before.remove(i)),
        contents_of(before.remove(i)) == contents_of(before).remove(before[i].key@),
{
    let after = before.remove(i);
    assert forall|a: int, b: int| 0 <= a < b < after.len() implies text_lt(
        (#[trigger] after[a]).key@,
        (#[trigger] after[b]).key@,
    ) by {
        let x = if a < i { a } else { a + 1 };
        let y = if b < i { b } else { b + 1 };
        assert(text_lt(before[x].key@, before[y].key@));
    }
    let expected = contents_of(before).remove(before[i].key@);
    one_place(before, i);
    assert forall|key: Seq<char>| #[trigger]
        contents_of(after).contains_key(key) <==> expected.contains_key(key) by {
        if exists|k: int| item_at(after, key, k) {
            let k = choose|k: int| item_at(after, key, k);
            let x = if k < i { k } else { k + 1 };
            assert(item_at(before, key, x));
        }
        if key != before[i].key@ && exists|k: int| item_at(before, key, k) {
            let k = choose|k: int| item_at(before, key, k);
            let x = if k < i { k } else { k - 1 };
            assert(item_at(after, key, x));
        }
    }
    assert forall|key: Seq<char>| contents_of(after).contains_key(key) implies #[trigger] contents_of(
        after,
    )[key] == expected[key] by {
        let k = choose|k: int| item_at(after, key, k);
        assert(item_at(after, key, k));
        one_place(after, k);
        let x = if k < i { k } else { k + 1 };
        assert(before[x] == after[k]);
        one_place(before, x);
    }
    assert(contents_of(after) =~= expected);
}

} // verus!
