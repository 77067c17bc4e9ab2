//! The handles by which the elements of a document are known.

use vstd::prelude::*;
use vstd::set_lib::*;
use vstd::string::*;

use crate::error::option_text;
use crate::text::{
    contains_text, nat_text, nat_text_ends_in_a_digit, nat_text_injective, texts, trim, trimmed,
    trimming_twice, unsigned_text,
};

verus! {

/// What each of the values is.
pub open spec fn option_texts(values: Seq<Option<String>>) -> Seq<Option<Seq<char>>> {
    values.map_values(|value: Option<String>| option_text(value))
}

/// The handle that an attribute asks for: its value without white space at the ends, if anything is
/// left.
pub open spec fn wanted(attribute: Option<Seq<char>>) -> Option<Seq<char>> {
    match attribute {
        Some(value) => if trimmed(value).len() > 0 {
            Some(trimmed(value))
        } else {
            None
        },
        None => None,
    }
}

/// The handle with a number.
pub open spec fn numbered(number: nat) -> Seq<char> {
    "t"@ + nat_text(number)
}

/// The handle with the number is free, and all with a smaller number are used.
pub open spec fn is_first_free(used: Seq<Seq<char>>, number: nat) -> bool {
    !used.contains(numbered(number)) && forall|smaller: nat|
        smaller < number ==> used.contains(#[trigger] numbered(smaller))
}

/// The handle of the next element, where those before it use some: the one that its attribute asks
/// for if that is free, and otherwise the first that is free of those with a number.
pub open spec fn next_handle(used: Seq<Seq<char>>, attribute: Option<Seq<char>>) -> Seq<char> {
    if wanted(attribute) is Some && !used.contains(wanted(attribute)->0) {
        wanted(attribute)->0
    } else {
        numbered(choose|number: nat| is_first_free(used, number))
    }
}

/// The handles of elements in document order, from their attributes.
pub open spec fn handles(attributes: Seq<Option<Seq<char>>>) -> Seq<Seq<char>>
    decreases attributes.len(),
{
    if attributes.len() == 0 {
        seq![]
    } else {
        let used = handles(attributes.drop_last());
        used.push(next_handle(used, attributes.last()))
    }
}

/// The attributes once the handles are written where an attribute does not ask for its own.
pub open spec fn stamped(attributes: Seq<Option<Seq<char>>>) -> Seq<Option<Seq<char>>> {
    Seq::new(
        attributes.len(),
        |i: int|
            if wanted(attributes[i]) == Some(handles(attributes)[i]) {
                attributes[i]
            } else {
                Some(handles(attributes)[i])
            },
    )
}

/// The handles with the first numbers.
spec fn first_numbered(count: nat) -> Set<Seq<char>>
    decreases count,
{
    if count == 0 {
        Set::empty()
    } else {
        first_numbered((count - 1) as nat).insert(numbered((count - 1) as nat))
    }
}

proof fn numbered_injective(a: nat, b: nat)
    ensures
        numbered(a) == numbered(b) ==> a == b,
{
    if numbered(a) == numbered(b) {
        reveal_strlit("t");
        assert(numbered(a).skip(1) =~= nat_text(a));
        assert(numbered(b).skip(1) =~= nat_text(b));
        nat_text_injective(a, b);
    }
}

proof fn first_numbered_are_many(count: nat)
    ensures
        first_numbered(count).finite(),
        first_numbered(count).len() == count,
        forall|text: Seq<char>| #[trigger]
            first_numbered(count).contains(text) ==> exists|number: nat|
                number < count && text == #[trigger] numbered(number),
    decreases count,
{
    if count > 0 {
        let last = (count - 1) as nat;
        first_numbered_are_many(last);
        if first_numbered(last).contains(numbered(last)) {
            let number = choose|number: nat|
                number < last && numbered(last) == #[trigger] numbered(number);
            numbered_injective(last, number);
        }
        assert forall|text: Seq<char>| #[trigger] first_numbered(count).contains(
            text,
        ) implies exists|number: nat| number < count && text == #[trigger] numbered(number) by {
            if text == numbered(last) {
            } else {
                assert(first_numbered(last).contains(text));
                let number = choose|number: nat|
                    number < last && text == #[trigger] numbered(number);
                assert(number < count);
            }
        }
    }
}

/// No more handles with a number are used than there are handles.
proof fn few_are_used(used: Seq<Seq<char>>, count: nat)
    requires
        forall|smaller: nat| smaller < count ==> used.contains(#[trigger] numbered(smaller)),
    ensures
        count <= used.len(),
{
    first_numbered_are_many(count);
    let all = used.to_set();
    assert forall|text: Seq<char>| first_numbered(count).contains(text) implies all.contains(
        text,
    ) by {
        let number = choose|number: nat| number < count && text == #[trigger] numbered(number);
        assert(used.contains(numbered(number)));
    }
    lemma_len_subset(first_numbered(count), all);
    used.lemma_cardinality_of_set();
}

proof fn first_free_is_one(used: Seq<Seq<char>>, a: nat, b: nat)
    requires
        is_first_free(used, a),
        is_first_free(used, b),
    ensures
        a == b,
{
    if a < b {
        assert(used.contains(numbered(a)));
    } else if b < a {
        assert(used.contains(numbered(b)));
    }
}

proof fn some_is_free(used: Seq<Seq<char>>, from: nat) -> (number: nat)
    requires
        forall|smaller: nat| smaller < from ==> used.contains(#[trigger] numbered(smaller)),
    ensures
        is_first_free(used, number),
    decreases used.len() + 1 - from,
{
    few_are_used(used, from);
    if used.contains(numbered(from)) {
        assert forall|smaller: nat| smaller < from + 1 implies used.contains(
            #[trigger] numbered(smaller),
        ) by {
            if smaller < from {
            } else {
                assert(smaller == from);
            }
        }
        few_are_used(used, from + 1);
        some_is_free(used, from + 1)
    } else {
        from
    }
}

/// Gives each element a handle, in document order: `existing` holds what the handle attribute of
/// each element says, and the answer says what to write to it, if anything.
pub fn stamp_document_handles(existing: &Vec<Option<String>>) -> (writes: Vec<Option<String>>)
    ensures
        writes@.len() == existing@.len(),
        forall|i: int|
            0 <= i < writes@.len() ==> option_text(#[trigger] writes@[i]) == {
                let attributes = option_texts(existing@);
                if wanted(attributes[i]) == Some(handles(attributes)[i]) {
                    None
                } else {
                    Some(handles(attributes)[i])
                }
            },
{
    let ghost attributes = option_texts(existing@);
    let mut used: Vec<String> = Vec::new();
    let mut writes: Vec<Option<String>> = Vec::new();
    let mut next: u64 = 0;
    let mut i: usize = 0;
    assert(attributes.take(0) =~= seq![]);
    assert(texts(used@) =~= seq![]);
    while i < existing.len()
        invariant
            i <= existing.len(),
            attributes == option_texts(existing@),
            used.len() == i,
            writes.len() == i,
            texts(used@) == handles(attributes.take(i as int)),
            forall|smaller: nat|
                smaller < next ==> texts(used@).contains(#[trigger] numbered(smaller)),
            forall|k: int|
                0 <= k < i ==> option_text(#[trigger] writes@[k]) == if wanted(attributes[k])
                    == Some(texts(used@)[k]) {
                    None
                } else {
                    Some(texts(used@)[k])
                },
        decreases existing.len() - i,
    {
        let ghost taken = texts(used@);
        let ghost attribute = attributes[i as int];
        proof {
            assert(attributes.take(i + 1).drop_last() =~= attributes.take(i as int));
            assert(attribute == option_text(existing@[i as int]));
        }
        let asked: Option<String> = match &existing[i] {
            Some(value) => {
                let part = trim(value.as_str());
                if part.unicode_len() > 0 {
                    Some(part.to_owned())
                } else {
                    None
                }
            },
            None => None,
        };
        assert(option_text(asked) == wanted(attribute));
        let free = match &asked {
            Some(asked) => !contains_text(&used, asked),
            None => false,
        };
        let ghost writes_before = writes@;
        let ghost next_before = next;
        let handle = match (free, asked) {
            (true, Some(asked)) => {
                writes.push(None);
                asked
            },
            (_, asked) => {
                let handle = first_free(&used, &mut next);
                proof {
                    let number = choose|number: nat| is_first_free(taken, number);
                    assert(is_first_free(taken, (next - 1) as nat));
                    first_free_is_one(taken, number, (next - 1) as nat);
                }
                let stays = match &asked {
                    Some(asked) => *asked == handle,
                    None => false,
                };
                writes.push(if stays { None } else { Some(handle.clone()) });
                handle
            },
        };
        used.push(handle);
        proof {
            assert(texts(used@) =~= taken.push(handle@));
            assert(handle@ == next_handle(taken, attribute));
            assert forall|smaller: nat| smaller < next implies texts(used@).contains(
                #[trigger] numbered(smaller),
            ) by {
                if smaller < next_before || taken.contains(numbered(smaller)) {
                    assert(taken.contains(numbered(smaller)));
                    let k = choose|k: int| 0 <= k < taken.len() && taken[k] == numbered(smaller);
                    assert(texts(used@)[k] == numbered(smaller));
                } else {
                    assert(texts(used@)[i as int] == numbered(smaller));
                }
            }
            assert forall|k: int| 0 <= k < i + 1 implies option_text(#[trigger] writes@[k]) == (
            if wanted(attributes[k]) == Some(texts(used@)[k]) {
                None
            } else {
                Some(texts(used@)[k])
            }) by {
                if k < i {
                    assert(writes@[k] == writes_before[k]);
                    assert(texts(used@)[k] == taken[k]);
                }
            }
        }
        i += 1;
    }
    assert(attributes.take(i as int) =~= attributes);
    writes
}

/// The first free handle with a number, from `next` on, which goes past it.
fn first_free(used: &Vec<String>, next: &mut u64) -> (handle: String)
    requires
        used.len() < u64::MAX,
        forall|smaller: nat|
            smaller < *old(next) ==> texts(used@).contains(#[trigger] numbered(smaller)),
    ensures
        *final(next) > 0,
        is_first_free(texts(used@), (*final(next) - 1) as nat),
        *old(next) < *final(next),
        handle@ == numbered((*final(next) - 1) as nat),
{
    loop
        invariant
            used.len() < u64::MAX,
            *old(next) <= *next,
            forall|smaller: nat|
                smaller < *next ==> texts(used@).contains(#[trigger] numbered(smaller)),
        decreases used.len() + 1 - *next,
    {
        proof {
            few_are_used(texts(used@), *next as nat);
        }
        let mut candidate = "t".to_owned();
        candidate.append(unsigned_text(*next).as_str());
        let ghost number = *next as nat;
        *next = (*next).saturating_add(1);
        if !contains_text(used, &candidate) {
            return candidate;
        }
        proof {
            assert forall|smaller: nat| smaller < *next implies texts(used@).contains(
                #[trigger] numbered(smaller),
            ) by {
                if smaller >= number {
                    assert(smaller == number);
                }
            }
            few_are_used(texts(used@), *next as nat);
        }
    }
}

/// A handle with a number has no white space at its ends.
proof fn numbered_is_trimmed(number: nat)
    ensures
        numbered(number).len() > 0,
        trimmed(numbered(number)) == numbered(number),
{
    nat_text_ends_in_a_digit(number);
    reveal_strlit("t");
    let text = numbered(number);
    assert(text[0] == 't');
    assert(text.last() == nat_text(number).last());
}

/// A handle is what an attribute with that handle asks for.
proof fn handles_ask_for_themselves(used: Seq<Seq<char>>, attribute: Option<Seq<char>>)
    ensures
        wanted(Some(next_handle(used, attribute))) == Some(next_handle(used, attribute)),
        !used.contains(next_handle(used, attribute)),
{
    if wanted(attribute) is Some && !used.contains(wanted(attribute)->0) {
        trimming_twice(attribute->0);
    } else {
        let free = some_is_free(used, 0);
        let number = choose|number: nat| is_first_free(used, number);
        assert(is_first_free(used, number));
        numbered_is_trimmed(number);
    }
}

/// Every element has a handle, and no two have the same.
pub proof fn handles_are_distinct(attributes: Seq<Option<Seq<char>>>)
    ensures
        handles(attributes).len() == attributes.len(),
        handles(attributes).no_duplicates(),
        forall|i: int|
            0 <= i < attributes.len() ==> wanted(Some(#[trigger] handles(attributes)[i])) == Some(
                handles(attributes)[i],
            ),
    decreases attributes.len(),
{
    if attributes.len() > 0 {
        let fewer = attributes.drop_last();
        handles_are_distinct(fewer);
        handles_ask_for_themselves(handles(fewer), attributes.last());
        let all = handles(attributes);
        assert forall|i: int| 0 <= i < attributes.len() implies wanted(
            Some(#[trigger] all[i]),
        ) == Some(all[i]) by {
            if i < fewer.len() {
                assert(all[i] == handles(fewer)[i]);
            }
        }
        assert forall|i: int, j: int| 0 <= i < j < all.len() implies all[i] != all[j] by {
            assert(all[i] == handles(fewer)[i]);
            if j < fewer.len() {
                assert(all[j] == handles(fewer)[j]);
            } else {
                assert(handles(fewer).contains(all[i]));
            }
        }
    }
}

/// Attributes that ask for different handles get them.
proof fn different_wishes_are_met(attributes: Seq<Option<Seq<char>>>, wishes: Seq<Seq<char>>)
    requires
        attributes.len() == wishes.len(),
        wishes.no_duplicates(),
        forall|i: int| 0 <= i < attributes.len() ==> wanted(#[trigger] attributes[i]) == Some(wishes[i]),
    ensures
        handles(attributes) == wishes,
    decreases attributes.len(),
{
    if attributes.len() == 0 {
        assert(handles(attributes) =~= wishes);
    } else {
        let fewer = attributes.drop_last();
        let met = wishes.drop_last();
        let n = attributes.len() - 1;
        assert forall|i: int| 0 <= i < fewer.len() implies wanted(#[trigger] fewer[i]) == Some(
            met[i],
        ) by {
            assert(fewer[i] == attributes[i]);
        }
        different_wishes_are_met(fewer, met);
        assert(wanted(attributes[n]) == Some(wishes[n]));
        assert(!met.contains(wishes[n])) by {
            if met.contains(wishes[n]) {
                let k = choose|k: int| 0 <= k < met.len() && met[k] == wishes[n];
                assert(wishes[k] == wishes[n]);
            }
        }
        assert(handles(attributes) =~= wishes);
    }
}

/// Stamping twice is stamping once: the handles stay, and nothing more is written.
pub proof fn stamping_is_idempotent(attributes: Seq<Option<Seq<char>>>)
    ensures
        handles(stamped(attributes)) == handles(attributes),
        stamped(stamped(attributes)) == stamped(attributes),
{
    let after = stamped(attributes);
    let given = handles(attributes);
    handles_are_distinct(attributes);
    assert forall|i: int| 0 <= i < after.len() implies wanted(#[trigger] after[i]) == Some(
        given[i],
    ) by {
        assert(wanted(Some(given[i])) == Some(given[i]));
    }
    different_wishes_are_met(after, given);
    assert(stamped(after) =~= after);
}

/// The handles of the first elements do not depend on those behind them.
pub proof fn stamping_goes_in_document_order(attributes: Seq<Option<Seq<char>>>, n: int)
    requires
        0 <= n <= attributes.len(),
    ensures
        handles(attributes).take(n) == handles(attributes.take(n)),
    decreases attributes.len(),
{
    handles_are_distinct(attributes);
    handles_are_distinct(attributes.take(n));
    if n == attributes.len() {
        assert(attributes.take(n) =~= attributes);
        assert(handles(attributes).take(n) =~= handles(attributes));
    } else {
        let fewer = attributes.drop_last();
        stamping_goes_in_document_order(fewer, n);
        assert(fewer.take(n) =~= attributes.take(n));
        handles_are_distinct(fewer);
        assert(handles(attributes).take(n) =~= handles(fewer).take(n));
    }
}

/// An element gets the handle that it asks for, without the white space around it, where nobody has
/// it yet. Otherwise it gets one with a number that nobody has, and every smaller number is taken.
pub proof fn elements_get_the_handle_they_ask_for(
    used: Seq<Seq<char>>,
    attribute: Option<Seq<char>>,
    smaller: nat,
) -> (number: nat)
    ensures
        !used.contains(next_handle(used, attribute)),
        ({
            let asks = attribute matches Some(value) && trimmed(value).len() > 0 && !used.contains(
                trimmed(value),
            );
            &&& asks ==> next_handle(used, attribute) == trimmed(attribute->0)
            &&& !asks ==> next_handle(used, attribute) == seq!['t'] + nat_text(number) && (smaller
                < number ==> used.contains(seq!['t'] + nat_text(smaller)))
        }),
{
    reveal_strlit("t");
    assert("t"@ =~= seq!['t']);
    let first = some_is_free(used, 0);
    let number = choose|number: nat| is_first_free(used, number);
    assert(is_first_free(used, number));
    assert(numbered(smaller) == seq!['t'] + nat_text(smaller));
    number
}

} // verus!
