//! Values by name, each name once, in the order in which the names were first used.

use vstd::prelude::*;

verus! {

/// A name and its value.
#[derive(Debug)]
pub struct Named<V> {
    pub name: String,
    pub value: V,
}

/// Place `i` of the list has the name.
pub open spec fn named_at<V>(entries: Seq<Named<V>>, name: Seq<char>, i: int) -> bool {
    0 <= i < entries.len() && entries[i].name@ == name
}

/// No name comes twice.
pub open spec fn distinct<V>(entries: Seq<Named<V>>) -> bool {
    forall|i: int, j: int|
        0 <= i < j < entries.len() ==> (#[trigger] entries[i]).name@ != (
        #[trigger] entries[j]).name@
}

/// The values of the list by name.
pub open spec fn by_name<V>(entries: Seq<Named<V>>) -> Map<Seq<char>, V> {
    Map::new(
        |name: Seq<char>| exists|i: int| named_at(entries, name, i),
        |name: Seq<char>| entries[choose|i: int| named_at(entries, name, i)].value,
    )
}

/// Values by name.
#[derive(Debug)]
pub struct Names<V> {
    pub entries: Vec<Named<V>>,
}

impl<V> View for Names<V> {
    type V = Map<Seq<char>, V>;

    open spec fn view(&self) -> Map<Seq<char>, V> {
        by_name(self.entries@)
    }
}

/// The value at a place is the value of its name.
pub proof fn value_at<V>(entries: Seq<Named<V>>, i: int)
    requires
        distinct(entries),
        0 <= i < entries.len(),
    ensures
        by_name(entries).contains_key(entries[i].name@),
        by_name(entries)[entries[i].name@] == entries[i].value,
{
    let name = entries[i].name@;
    assert(named_at(entries, name, i));
    let k = choose|k: int| named_at(entries, name, k);
    assert(named_at(entries, name, k));
    if i < k {
        assert(entries[i].name@ != entries[k].name@);
    } else if k < i {
        assert(entries[k].name@ != entries[i].name@);
    }
}

/// Replacing the value at a place replaces the value of its name and of no other.
pub proof fn replaced<V>(before: Seq<Named<V>>, i: int, after: Seq<Named<V>>)
    requires
        distinct(before),
        0 <= i < before.len(),
        after.len() == before.len(),
        after[i].name@ == before[i].name@,
        forall|j: int| 0 <= j < before.len() && j != i ==> #[trigger] after[j] == before[j],
    ensures
        distinct(after),
        by_name(after) == by_name(before).insert(before[i].name@, after[i].value),
{
    assert forall|a: int, b: int| 0 <= a < b < after.len() implies (#[trigger] after[a]).name@ != (
    #[trigger] after[b]).name@ by {
        assert(before[a].name@ != before[b].name@);
    }
    let expected = by_name(before).insert(before[i].name@, after[i].value);
    assert forall|name: Seq<char>| #[trigger]
        by_name(after).contains_key(name) <==> expected.contains_key(name) by {
        if exists|k: int| named_at(after, name, k) {
            let k = choose|k: int| named_at(after, name, k);
            assert(named_at(before, name, k));
        }
        if exists|k: int| named_at(before, name, k) {
            let k = choose|k: int| named_at(before, name, k);
            assert(named_at(after, name, k));
        }
        assert(named_at(after, before[i].name@, i));
    }
    assert forall|name: Seq<char>| by_name(after).contains_key(name) implies #[trigger] by_name(
        after,
    )[name] == expected[name] by {
        let k = choose|k: int| named_at(after, name, k);
        assert(named_at(after, name, k));
        value_at(after, k);
        value_at(before, k);
    }
    assert(by_name(after) =~= expected);
}

proof fn added<V>(before: Seq<Named<V>>, entry: Named<V>)
    requires
        distinct(before),
        forall|i: int| !named_at(before, entry.name@, i),
    ensures
        distinct(before.push(entry)),
        by_name(before.push(entry)) == by_name(before).insert(entry.name@, entry.value),
{
    let after = before.push(entry);
    let n = before.len() as int;
    assert forall|a: int, b: int| 0 <= a < b < after.len() implies (#[trigger] after[a]).name@ != (
    #[trigger] after[b]).name@ by {
        assert(after[a] == before[a]);
        if b < n {
            assert(before[a].name@ != before[b].name@);
        } else {
            assert(!named_at(before, entry.name@, a));
        }
    }
    let expected = by_name(before).insert(entry.name@, entry.value);
    assert forall|name: Seq<char>| #[trigger]
        by_name(after).contains_key(name) <==> expected.contains_key(name) by {
        if exists|k: int| named_at(after, name, k) {
            let k = choose|k: int| named_at(after, name, k);
            if k < n {
                assert(named_at(before, name, k));
            }
        }
        if exists|k: int| named_at(before, name, k) {
            let k = choose|k: int| named_at(before, name, k);
            assert(named_at(after, name, k));
        }
        assert(named_at(after, entry.name@, n));
    }
    assert forall|name: Seq<char>| by_name(after).contains_key(name) implies #[trigger] by_name(
        after,
    )[name] == expected[name] by {
        let k = choose|k: int| named_at(after, name, k);
        assert(named_at(after, name, k));
        value_at(after, k);
        if k < n {
            value_at(before, k);
            assert(!named_at(before, entry.name@, k));
        }
    }
    assert(by_name(after) =~= expected);
}

proof fn removed<V>(before: Seq<Named<V>>, i: int)
    requires
        distinct(before),
        0 <= i < before.len(),
    ensures
        distinct(before.remove(i)),
        by_name(before.remove(i)) == by_name(before).remove(before[i].name@),
{
    let after = before.remove(i);
    assert forall|a: int, b: int| 0 <= a < b < after.len() implies (#[trigger] after[a]).name@ != (
    #[trigger] after[b]).name@ by {
        let x = if a < i { a } else { a + 1 };
        let y = if b < i { b } else { b + 1 };
        assert(before[x].name@ != before[y].name@);
    }
    let expected = by_name(before).remove(before[i].name@);
    assert forall|name: Seq<char>| #[trigger]
        by_name(after).contains_key(name) <==> expected.contains_key(name) by {
        if exists|k: int| named_at(after, name, k) {
            let k = choose|k: int| named_at(after, name, k);
            let x = if k < i { k } else { k + 1 };
            assert(named_at(before, name, x));
            if x < i {
                assert(before[x].name@ != before[i].name@);
            } else {
                assert(before[i].name@ != before[x].name@);
            }
        }
        if name != before[i].name@ && exists|k: int| named_at(before, name, k) {
            let k = choose|k: int| named_at(before, name, k);
            let x = if k < i { k } else { k - 1 };
            assert(named_at(after, name, x));
        }
    }
    assert forall|name: Seq<char>| by_name(after).contains_key(name) implies #[trigger] by_name(
        after,
    )[name] == expected[name] by {
        let k = choose|k: int| named_at(after, name, k);
        assert(named_at(after, name, k));
        value_at(after, k);
        let x = if k < i { k } else { k + 1 };
        assert(before[x] == after[k]);
        value_at(before, x);
    }
    assert(by_name(after) =~= expected);
}

impl<V> Names<V> {
    /// No name comes twice.
    pub open spec fn wf(&self) -> bool {
        distinct(self.entries@)
    }

    /// No names.
    pub fn new() -> (names: Self)
        ensures
            names.wf(),
            names@ == Map::<Seq<char>, V>::empty(),
            names.entries@.len() == 0,
    {
        let names = Names { entries: Vec::new() };
        assert(names@ =~= Map::<Seq<char>, V>::empty());
        names
    }

    /// The place of a name.
    pub fn find(&self, name: &String) -> (place: Option<usize>)
        requires
            self.wf(),
        ensures
            place is Some <==> self@.contains_key(name@),
            place matches Some(i) ==> named_at(self.entries@, name@, i as int) && self@[name@]
                == self.entries@[i as int].value,
    {
        let mut i: usize = 0;
        while i < self.entries.len()
            invariant
                self.wf(),
                i <= self.entries.len(),
                forall|j: int| 0 <= j < i ==> !named_at(self.entries@, name@, j),
            decreases self.entries.len() - i,
        {
            if self.entries[i].name == *name {
                proof {
                    value_at(self.entries@, i as int);
                }
                return Some(i);
            }
            i += 1;
        }
        None
    }

    /// Whether the name is used.
    pub fn contains(&self, name: &String) -> (used: bool)
        requires
            self.wf(),
        ensures
            used == self@.contains_key(name@),
    {
        self.find(name).is_some()
    }

    /// The value of a name.
    pub fn get(&self, name: &String) -> (value: Option<&V>)
        requires
            self.wf(),
        ensures
            value is Some <==> self@.contains_key(name@),
            value matches Some(value) ==> *value == self@[name@],
    {
        match self.find(name) {
            Some(i) => Some(&self.entries[i].value),
            None => None,
        }
    }

    /// Gives the name a value.
    pub fn insert(&mut self, name: String, value: V)
        requires
            old(self).wf(),
        ensures
            final(self).wf(),
            final(self)@ == old(self)@.insert(name@, value),
    {
        let ghost before = self.entries@;
        match self.find(&name) {
            Some(i) => {
                self.entries[i].value = value;
                proof {
                    replaced(before, i as int, self.entries@);
                }
            },
            None => {
                proof {
                    assert forall|i: int| !named_at(before, name@, i) by {
                        if named_at(before, name@, i) {
                            value_at(before, i);
                        }
                    }
                    added(before, Named { name, value });
                }
                self.entries.push(Named { name, value });
            },
        }
    }

    /// Takes the name out, with its value.
    pub fn remove(&mut self, name: &String) -> (value: Option<V>)
        requires
            old(self).wf(),
        ensures
            final(self).wf(),
            final(self)@ == old(self)@.remove(name@),
            value == if old(self)@.contains_key(name@) {
                Some(old(self)@[name@])
            } else {
                None
            },
    {
        let ghost before = self.entries@;
        match self.find(name) {
            Some(i) => {
                let entry = self.entries.remove(i);
                proof {
                    removed(before, i as int);
                }
                Some(entry.value)
            },
            None => {
                assert(self@ =~= self@.remove(name@));
                None
            },
        }
    }

    /// Takes every name out.
    pub fn clear(&mut self)
        ensures
            final(self).wf(),
            final(self)@ == Map::<Seq<char>, V>::empty(),
            final(self).entries@.len() == 0,
    {
        self.entries.clear();
        assert(self@ =~= Map::<Seq<char>, V>::empty());
    }
}

} // verus!
