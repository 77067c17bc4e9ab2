//! Building text.

use vstd::prelude::*;
use vstd::string::*;

verus! {

/// What each of the strings holds.
pub open spec fn texts(strings: Seq<String>) -> Seq<Seq<char>> {
    strings.map_values(|string: String| string@)
}

/// The parts in a row with the separator between them.
pub open spec fn joined(parts: Seq<Seq<char>>, separator: Seq<char>) -> Seq<char>
    decreases parts.len(),
{
    if parts.len() == 0 {
        seq![]
    } else if parts.len() == 1 {
        parts[0]
    } else {
        joined(parts.drop_last(), separator) + separator + parts.last()
    }
}

/// Puts the parts in a row with the separator between them.
pub fn join(parts: &Vec<String>, separator: &str) -> (text: String)
    ensures
        text@ == joined(texts(parts@), separator@),
{
    let mut text = String::new();
    let mut i: usize = 0;
    assert(texts(parts@).take(0) =~= seq![]);
    while i < parts.len()
        invariant
            i <= parts.len(),
            text@ == joined(texts(parts@).take(i as int), separator@),
        decreases parts.len() - i,
    {
        let ghost so_far = text@;
        let ghost done = texts(parts@).take(i as int);
        let ghost more = texts(parts@).take(i + 1);
        assert(more.drop_last() =~= done);
        assert(more.last() == parts[i as int]@);
        if i > 0 {
            text.append(separator);
        }
        text.append(parts[i].as_str());
        assert(i == 0 ==> text@ =~= parts[i as int]@);
        i += 1;
    }
    assert(texts(parts@).take(i as int) =~= texts(parts@));
    text
}

/// A decimal digit.
pub open spec fn digit_text(digit: nat) -> Seq<char> {
    if digit == 0 {
        "0"@
    } else if digit == 1 {
        "1"@
    } else if digit == 2 {
        "2"@
    } else if digit == 3 {
        "3"@
    } else if digit == 4 {
        "4"@
    } else if digit == 5 {
        "5"@
    } else if digit == 6 {
        "6"@
    } else if digit == 7 {
        "7"@
    } else if digit == 8 {
        "8"@
    } else {
        "9"@
    }
}

/// A number in decimal.
pub open spec fn nat_text(number: nat) -> Seq<char>
    decreases number,
{
    if number < 10 {
        digit_text(number)
    } else {
        nat_text(number / 10) + digit_text(number % 10)
    }
}

/// A number in decimal, with a minus sign where it is negative.
pub open spec fn int_text(number: int) -> Seq<char> {
    if number < 0 {
        "-"@ + nat_text((-number) as nat)
    } else {
        nat_text(number as nat)
    }
}

fn digit(value: u64) -> (text: &'static str)
    requires
        value < 10,
    ensures
        text@ == digit_text(value as nat),
{
    match value {
        0 => "0",
        1 => "1",
        2 => "2",
        3 => "3",
        4 => "4",
        5 => "5",
        6 => "6",
        7 => "7",
        8 => "8",
        _ => "9",
    }
}

/// A number in decimal.
pub fn unsigned_text(number: u64) -> (text: String)
    ensures
        text@ == nat_text(number as nat),
    decreases number,
{
    if number < 10 {
        digit(number).to_owned()
    } else {
        let mut text = unsigned_text(number / 10);
        text.append(digit(number % 10));
        text
    }
}

/// A signed number in decimal.
pub fn signed_text(number: i64) -> (text: String)
    ensures
        text@ == int_text(number as int),
{
    if number >= 0 {
        unsigned_text(number as u64)
    } else {
        let mut text = "-".to_owned();
        let magnitude: u64 = (-(number + 1)) as u64 + 1;
        text.append(unsigned_text(magnitude).as_str());
        text
    }
}

/// Different numbers have different texts.
pub proof fn nat_text_injective(a: nat, b: nat)
    requires
        nat_text(a) == nat_text(b),
    ensures
        a == b,
    decreases a,
{
    nat_text_splits(a);
    nat_text_splits(b);
    if a < 10 && b < 10 {
        digit_text_injective(a, b);
    } else {
        let x = nat_text(a);
        assert(x.last() == digit_text(a % 10)[0]);
        assert(x.last() == digit_text(b % 10)[0]);
        digits_are_single(a % 10);
        digits_are_single(b % 10);
        assert(digit_text(a % 10) =~= digit_text(b % 10));
        digit_text_injective(a % 10, b % 10);
        if a >= 10 && b >= 10 {
            assert(x.drop_last() =~= nat_text(a / 10));
            assert(x.drop_last() =~= nat_text(b / 10));
            nat_text_injective(a / 10, b / 10);
        } else if a >= 10 {
            nat_text_nonempty(a / 10);
        } else {
            nat_text_nonempty(b / 10);
        }
    }
}

proof fn nat_text_nonempty(a: nat)
    ensures
        nat_text(a).len() > 0,
    decreases a,
{
    digits_are_single(a % 10);
    digits_are_single(a);
}

proof fn nat_text_splits(a: nat)
    ensures
        a < 10 ==> nat_text(a) == digit_text(a) && a % 10 == a,
        nat_text(a).len() > 0,
        nat_text(a).last() == digit_text(a % 10)[0],
        a < 10 ==> nat_text(a).len() == 1,
{
    nat_text_nonempty(a);
    digits_are_single(a % 10);
    digits_are_single(a);
}

proof fn digits_are_single(a: nat)
    ensures
        digit_text(a).len() == 1,
{
    reveal_strlit("0");
    reveal_strlit("1");
    reveal_strlit("2");
    reveal_strlit("3");
    reveal_strlit("4");
    reveal_strlit("5");
    reveal_strlit("6");
    reveal_strlit("7");
    reveal_strlit("8");
    reveal_strlit("9");
}

proof fn digit_text_injective(a: nat, b: nat)
    requires
        a < 10,
        b < 10,
        digit_text(a) == digit_text(b),
    ensures
        a == b,
{
    reveal_strlit("0");
    reveal_strlit("1");
    reveal_strlit("2");
    reveal_strlit("3");
    reveal_strlit("4");
    reveal_strlit("5");
    reveal_strlit("6");
    reveal_strlit("7");
    reveal_strlit("8");
    reveal_strlit("9");
    assert("0"@[0] == '0');
    assert("1"@[0] == '1');
    assert("2"@[0] == '2');
    assert("3"@[0] == '3');
    assert("4"@[0] == '4');
    assert("5"@[0] == '5');
    assert("6"@[0] == '6');
    assert("7"@[0] == '7');
    assert("8"@[0] == '8');
    assert("9"@[0] == '9');
    assert(digit_text(a)[0] == digit_text(b)[0]);
}

/// The list holds the text.
pub fn contains_text(list: &Vec<String>, text: &String) -> (found: bool)
    ensures
        found == texts(list@).contains(text@),
{
    let mut i: usize = 0;
    while i < list.len()
        invariant
            i <= list.len(),
            forall|j: int| 0 <= j < i ==> (#[trigger] texts(list@)[j]) != text@,
        decreases list.len() - i,
    {
        assert(texts(list@)[i as int] == list[i as int]@);
        if list[i] == *text {
            assert(texts(list@).contains(text@));
            return true;
        }
        i += 1;
    }
    false
}

/// The character is white space in the sense of Unicode.
pub open spec fn is_white_space(c: char) -> bool {
    ||| '\t' <= c && c <= '\r'
    ||| c == ' '
    ||| c == '\u{85}'
    ||| c == '\u{a0}'
    ||| c == '\u{1680}'
    ||| '\u{2000}' <= c && c <= '\u{200a}'
    ||| c == '\u{2028}'
    ||| c == '\u{2029}'
    ||| c == '\u{202f}'
    ||| c == '\u{205f}'
    ||| c == '\u{3000}'
}

fn is_white(c: char) -> (is: bool)
    ensures
        is == is_white_space(c),
{
    ('\t' <= c && c <= '\r') || c == ' ' || c == '\u{85}' || c == '\u{a0}' || c == '\u{1680}' || (
    '\u{2000}' <= c && c <= '\u{200a}') || c == '\u{2028}' || c == '\u{2029}' || c == '\u{202f}'
        || c == '\u{205f}' || c == '\u{3000}'
}

/// The text without the white space at its start.
pub open spec fn trimmed_start(text: Seq<char>) -> Seq<char>
    decreases text.len(),
{
    if text.len() > 0 && is_white_space(text[0]) {
        trimmed_start(text.drop_first())
    } else {
        text
    }
}

/// The text without the white space at its end.
pub open spec fn trimmed_end(text: Seq<char>) -> Seq<char>
    decreases text.len(),
{
    if text.len() > 0 && is_white_space(text.last()) {
        trimmed_end(text.drop_last())
    } else {
        text
    }
}

/// The text without the white space at its ends.
pub open spec fn trimmed(text: Seq<char>) -> Seq<char> {
    trimmed_end(trimmed_start(text))
}

/// The text without the white space at its ends.
pub fn trim(text: &str) -> (part: &str)
    ensures
        part@ == trimmed(text@),
{
    let len: usize = text.unicode_len();
    let mut from: usize = 0;
    assert(text@.skip(0) =~= text@);
    while from < len && is_white(text.get_char(from))
        invariant
            from <= len == text@.len(),
            trimmed_start(text@.skip(from as int)) == trimmed_start(text@),
        decreases len - from,
    {
        assert(text@.skip(from as int).drop_first() =~= text@.skip(from + 1));
        from += 1;
    }
    let ghost rest = text@.skip(from as int);
    let mut to: usize = len;
    assert(text@.subrange(from as int, to as int) =~= rest);
    while to > from && is_white(text.get_char(to - 1))
        invariant
            from <= to <= len == text@.len(),
            trimmed_end(text@.subrange(from as int, to as int)) == trimmed_end(rest),
        decreases to,
    {
        assert(text@.subrange(from as int, to as int).drop_last() =~= text@.subrange(
            from as int,
            to - 1,
        ));
        to -= 1;
    }
    text.substring_char(from, to)
}

/// What is trimmed stays as it is when it is trimmed again.
pub proof fn trimming_twice(text: Seq<char>)
    ensures
        trimmed(trimmed(text)) == trimmed(text),
{
    let start = trimmed_start(text);
    start_is_trimmed(text);
    end_is_trimmed(start);
    end_keeps_start(start);
}

proof fn start_is_trimmed(text: Seq<char>)
    ensures
        trimmed_start(text).len() > 0 ==> !is_white_space(trimmed_start(text)[0]),
    decreases text.len(),
{
    if text.len() > 0 && is_white_space(text[0]) {
        start_is_trimmed(text.drop_first());
    }
}

proof fn end_is_trimmed(text: Seq<char>)
    ensures
        trimmed_end(text).len() > 0 ==> !is_white_space(trimmed_end(text).last()),
    decreases text.len(),
{
    if text.len() > 0 && is_white_space(text.last()) {
        end_is_trimmed(text.drop_last());
    }
}

proof fn end_keeps_start(text: Seq<char>)
    ensures
        trimmed_end(text).len() > 0 ==> text.len() > 0 && trimmed_end(text)[0] == text[0],
    decreases text.len(),
{
    if text.len() > 0 && is_white_space(text.last()) {
        end_keeps_start(text.drop_last());
    }
}

/// `lower` is the text with `A` to `Z` in lower case.
pub open spec fn is_lower_case_of(lower: Seq<char>, text: Seq<char>) -> bool {
    &&& lower.len() == text.len()
    &&& forall|i: int|
        0 <= i < text.len() ==> if 'A' <= text[i] && text[i] <= 'Z' {
            #[trigger] lower[i] as int == text[i] as int + 32
        } else {
            lower[i] == text[i]
        }
}

/// A text has one lower case.
pub proof fn lower_case_is_one(a: Seq<char>, b: Seq<char>, text: Seq<char>)
    requires
        is_lower_case_of(a, text),
        is_lower_case_of(b, text),
    ensures
        a == b,
{
    assert forall|i: int| 0 <= i < text.len() implies a[i] == b[i] by {
        assert(a[i] as int == b[i] as int);
    }
    assert(a =~= b);
}

/// The text with `A` to `Z` in lower case.
pub open spec fn lower_case(text: Seq<char>) -> Seq<char> {
    choose|lower: Seq<char>| is_lower_case_of(lower, text)
}

/// Puts `A` to `Z` in lower case.
pub fn to_lower_case(text: &str) -> (lower: String)
    ensures
        lower@ == lower_case(text@),
        is_lower_case_of(lower@, text@),
{
    let lower = text.to_ascii_lowercase();
    proof {
        let chosen = lower_case(text@);
        assert(is_lower_case_of(lower@, text@));
        assert(is_lower_case_of(chosen, text@));
        lower_case_is_one(lower@, chosen, text@);
    }
    lower
}

/// `str::to_ascii_lowercase` gives a copy of the text in which the letters `A` to `Z` are mapped to
/// `a` to `z` and every other character is unchanged.
pub assume_specification[ str::to_ascii_lowercase ](text: &str) -> (lower: String)
    ensures
        is_lower_case_of(lower@, text@),
;

/// A number in decimal is not empty and does not end in white space.
pub proof fn nat_text_ends_in_a_digit(number: nat)
    ensures
        nat_text(number).len() > 0,
        !is_white_space(nat_text(number).last()),
{
    nat_text_splits(number);
    reveal_strlit("0");
    reveal_strlit("1");
    reveal_strlit("2");
    reveal_strlit("3");
    reveal_strlit("4");
    reveal_strlit("5");
    reveal_strlit("6");
    reveal_strlit("7");
    reveal_strlit("8");
    reveal_strlit("9");
}

/// The number that a text of decimal digits spells.
pub open spec fn spelled_value(text: Seq<char>) -> int
    decreases text.len(),
{
    if text.len() == 0 {
        0
    } else {
        spelled_value(text.drop_last()) * 10 + (text.last() as int - '0' as int)
    }
}

/// The text of a number spells that number.
pub proof fn numbers_are_spelled(number: nat)
    ensures
        spelled_value(nat_text(number)) == number,
    decreases number,
{
    reveal_strlit("0");
    reveal_strlit("1");
    reveal_strlit("2");
    reveal_strlit("3");
    reveal_strlit("4");
    reveal_strlit("5");
    reveal_strlit("6");
    reveal_strlit("7");
    reveal_strlit("8");
    reveal_strlit("9");
    let last = digit_text(number % 10);
    digits_are_single(number % 10);
    assert(last[0] as int - '0' as int == number % 10);
    reveal_with_fuel(spelled_value, 2);
    if number < 10 {
        assert(nat_text(number).drop_last() =~= seq![]);
    } else {
        numbers_are_spelled(number / 10);
        assert(nat_text(number).drop_last() =~= nat_text(number / 10));
        assert(nat_text(number).last() == last[0]);
    }
}

/// The text of a negative number is a minus sign before that of its magnitude.
pub proof fn signs_are_spelled(number: int)
    ensures
        number >= 0 ==> int_text(number) == nat_text(number as nat),
        number < 0 ==> int_text(number) == seq!['-'] + nat_text((-number) as nat),
{
    reveal_strlit("-");
    assert("-"@ =~= seq!['-']);
}

/// What is left of a trimmed text is a stretch of it: white space, and nothing else, was cut off
/// both ends, and none is left there.
pub proof fn trimming_cuts_white_space(text: Seq<char>) -> (from: int)
    ensures
        0 <= from,
        from + trimmed(text).len() <= text.len(),
        trimmed(text) == text.subrange(from, from + trimmed(text).len()),
        forall|i: int| 0 <= i < from ==> is_white_space(#[trigger] text[i]),
        forall|i: int|
            from + trimmed(text).len() <= i < text.len() ==> is_white_space(#[trigger] text[i]),
        trimmed(text).len() > 0 ==> !is_white_space(trimmed(text)[0]) && !is_white_space(
            trimmed(text).last(),
        ),
{
    let start = trimmed_start(text);
    start_cuts_white_space(text);
    end_cuts_white_space(start);
    start_is_trimmed(text);
    end_is_trimmed(start);
    end_keeps_start(start);
    let from = text.len() - start.len();
    let rest = trimmed(text);
    assert(rest =~= text.subrange(from, from + rest.len())) by {
        assert forall|i: int| 0 <= i < rest.len() implies rest[i] == text[from + i] by {
            assert(rest[i] == start[i]);
            assert(start[i] == text[from + i]);
        }
    }
    assert forall|i: int| from + rest.len() <= i < text.len() implies is_white_space(
        #[trigger] text[i],
    ) by {
        assert(start[i - from] == text[i]);
    }
    from
}

proof fn start_cuts_white_space(text: Seq<char>)
    ensures
        trimmed_start(text).len() <= text.len(),
        trimmed_start(text) == text.skip(text.len() - trimmed_start(text).len()),
        forall|i: int|
            0 <= i < text.len() - trimmed_start(text).len() ==> is_white_space(#[trigger] text[i]),
    decreases text.len(),
{
    if text.len() > 0 && is_white_space(text[0]) {
        let rest = text.drop_first();
        start_cuts_white_space(rest);
        let cut = text.len() - trimmed_start(text).len();
        assert(trimmed_start(text) =~= text.skip(cut));
        assert forall|i: int| 0 <= i < cut implies is_white_space(#[trigger] text[i]) by {
            if i > 0 {
                assert(rest[i - 1] == text[i]);
            }
        }
    } else {
        assert(text.skip(0) =~= text);
    }
}

proof fn end_cuts_white_space(text: Seq<char>)
    ensures
        trimmed_end(text).len() <= text.len(),
        trimmed_end(text) == text.take(trimmed_end(text).len() as int),
        forall|i: int|
            trimmed_end(text).len() <= i < text.len() ==> is_white_space(#[trigger] text[i]),
    decreases text.len(),
{
    if text.len() > 0 && is_white_space(text.last()) {
        let rest = text.drop_last();
        end_cuts_white_space(rest);
        assert(trimmed_end(text) =~= text.take(trimmed_end(text).len() as int));
        assert forall|i: int| trimmed_end(text).len() <= i < text.len() implies is_white_space(
            #[trigger] text[i],
        ) by {
            if i < rest.len() {
                assert(rest[i] == text[i]);
            }
        }
    } else {
        assert(text.take(text.len() as int) =~= text);
    }
}

/// Blanks, tabs and the ends of lines are white space; a character of ASCII that is printed or
/// controls something else is none.
pub proof fn printed_characters_are_no_white_space(c: char)
    ensures
        c == ' ' || c == '\t' || c == '\n' || c == '\r' ==> is_white_space(c),
        '!' <= c && c <= '~' ==> !is_white_space(c),
        c < '\t' ==> !is_white_space(c),
{
}

} // verus!
