//! Operations on text, stated over its characters.

use vstd::prelude::*;
use vstd::string::*;

verus! {

/// `String::push` appends one character and changes nothing before it.
pub assume_specification[ std::string::String::push ](target: &mut std::string::String, c: char)
    ensures
        final(target)@ == old(target)@.push(c),
;

/// The characters of a text, one by one.
pub fn chars_of(text: &str) -> (chars: Vec<char>)
    ensures
        chars@ == text@,
{
    let mut chars: Vec<char> = Vec::new();
    for c in iter: text.chars()
        invariant
            iter.seq() == text@,
            chars@ == text@.take(iter.index() as int),
    {
        chars.push(c);
    }
    chars
}

/// The texts of a list.
pub open spec fn entries(list: Seq<String>) -> Seq<Seq<char>> {
    list.map_values(|entry: String| entry@)
}

/// The first entries of a list and the next one: what they hold together.
pub proof fn lemma_one_further<A>(list: Seq<A>, place: int)
    requires
        0 <= place < list.len(),
    ensures
        forall|entry: A| #[trigger]
            list.take(place + 1).contains(entry) <==> list.take(place).contains(entry) || entry
                == list[place],
        list.take(place + 1).to_set() == list.take(place).to_set().insert(list[place]),
        list.no_duplicates() ==> !list.take(place).contains(list[place]),
{
    let passed = list.take(place);
    let further = list.take(place + 1);
    assert forall|entry: A| #[trigger]
        further.contains(entry) <==> passed.contains(entry) || entry == list[place] by {
        if further.contains(entry) && entry != list[place] {
            assert(passed[further.index_of(entry)] == entry);
        }
        if passed.contains(entry) {
            assert(further[passed.index_of(entry)] == entry);
        }
        assert(further[place] == list[place]);
    }
    assert(further.to_set() =~= passed.to_set().insert(list[place]));
}

/// The text made of some characters of a list.
pub fn slice_text(chars: &Vec<char>, start: usize, end: usize) -> (text: String)
    requires
        start <= end <= chars@.len(),
    ensures
        text@ == chars@.subrange(start as int, end as int),
{
    let mut text = String::new();
    let mut i: usize = start;
    while i < end
        invariant
            start <= i <= end <= chars@.len(),
            text@ == chars@.subrange(start as int, i as int),
        decreases end - i,
    {
        text.push(chars[i]);
        i += 1;
    }
    text
}

/// Whether some characters of a list, from a place on, are those of another.
fn matches_at(chars: &Vec<char>, part: &Vec<char>, from: usize) -> (matching: bool)
    requires
        from <= chars@.len(),
    ensures
        matching == (from + part@.len() <= chars@.len() && chars@.subrange(
            from as int,
            from + part@.len(),
        ) == part@),
{
    let length: usize = chars.len();
    if part.len() > length - from {
        return false;
    }
    let mut i: usize = 0;
    while i < part.len()
        invariant
            length == chars@.len(),
            i <= part@.len() <= length - from,
            forall|j: int| 0 <= j < i ==> chars@[from + j] == #[trigger] part@[j],
        decreases part@.len() - i,
    {
        if chars[from + i] != part[i] {
            assert(chars@.subrange(from as int, from + part@.len())[i as int] != part@[i as int]);
            return false;
        }
        i += 1;
    }
    assert(chars@.subrange(from as int, from + part@.len()) =~= part@);
    true
}

/// Whether a text begins with another.
pub fn starts_with(text: &str, start: &str) -> (starts: bool)
    ensures
        starts == start@.is_prefix_of(text@),
{
    let chars = chars_of(text);
    let part = chars_of(start);
    matches_at(&chars, &part, 0)
}

/// Whether a text holds another somewhere.
pub open spec fn holds(text: Seq<char>, part: Seq<char>) -> bool {
    exists|from: int|
        0 <= from <= text.len() - part.len() && #[trigger] text.subrange(from, from + part.len())
            == part
}

/// Whether a text holds another somewhere.
pub fn contains(text: &str, part: &str) -> (found: bool)
    ensures
        found == holds(text@, part@),
{
    let chars = chars_of(text);
    let wanted = chars_of(part);
    let mut from: usize = 0;
    while from < chars.len()
        invariant
            from <= chars@.len(),
            chars@ == text@,
            wanted@ == part@,
            forall|earlier: int|
                0 <= earlier < from && earlier <= text@.len() - part@.len()
                    ==> #[trigger] text@.subrange(earlier, earlier + part@.len()) != part@,
        decreases chars@.len() - from,
    {
        if matches_at(&chars, &wanted, from) {
            return true;
        }
        from += 1;
    }
    matches_at(&chars, &wanted, from)
}

/// Whether two texts hold the same characters.
pub fn same(left: &str, right: &str) -> (equal: bool)
    ensures
        equal == (left@ == right@),
{
    let mut lefts = left.chars();
    let mut rights = right.chars();
    let ghost mut passed: int = 0;
    proof {
        assert(left@.skip(0) =~= left@);
        assert(right@.skip(0) =~= right@);
    }
    loop
        invariant_except_break
            0 <= passed <= left@.len(),
            passed <= right@.len(),
            vstd::std_specs::iter::IteratorSpec::remaining(&lefts) == left@.skip(passed),
            vstd::std_specs::iter::IteratorSpec::remaining(&rights) == right@.skip(passed),
            left@.take(passed) == right@.take(passed),
        ensures
            left@ == right@,
        decreases left@.len() - passed,
    {
        match (lefts.next(), rights.next()) {
            (Some(l), Some(r)) => {
                if l != r {
                    assert(left@[passed] != right@[passed]);
                    return false;
                }
                proof {
                    assert(left@.take(passed + 1) =~= left@.take(passed).push(l));
                    assert(right@.take(passed + 1) =~= right@.take(passed).push(r));
                    assert(left@.skip(passed).drop_first() =~= left@.skip(passed + 1));
                    assert(right@.skip(passed).drop_first() =~= right@.skip(passed + 1));
                    passed = passed + 1;
                }
            },
            (None, None) => {
                assert(left@.take(passed) =~= left@);
                assert(right@.take(passed) =~= right@);
                break;
            },
            _ => {
                assert(left@.len() != right@.len());
                return false;
            },
        }
    }
    true
}

/// The decimal digits of a number.
pub open spec fn digits(number: nat) -> Seq<char>
    decreases number,
{
    if number < 10 {
        seq![digit(number)]
    } else {
        digits(number / 10).push(digit(number % 10))
    }
}

/// The character of one decimal digit.
pub open spec fn digit(value: nat) -> char {
    (('0' as u32) + value) as char
}

/// Writes a number in decimal.
pub fn decimal(number: u64) -> (text: String)
    ensures
        text@ == digits(number as nat),
    decreases number,
{
    let last = digit_char(number % 10);
    let mut text = if number < 10 {
        String::new()
    } else {
        decimal(number / 10)
    };
    text.push(last);
    text
}

fn digit_char(value: u64) -> (c: char)
    requires
        value < 10,
    ensures
        c == digit(value as nat),
{
    match value {
        0 => '0',
        1 => '1',
        2 => '2',
        3 => '3',
        4 => '4',
        5 => '5',
        6 => '6',
        7 => '7',
        8 => '8',
        _ => '9',
    }
}

/// A text in quotes, with escapes, as Rust's `Debug` writes it.
pub uninterp spec fn quoted(text: Seq<char>) -> Seq<char>;

/// `str`'s `Debug`: the text in quotes, with escapes.
#[verifier::external_body]
pub(crate) fn quote(text: &str) -> (shown: String)
    ensures
        shown@ == quoted(text@),
{
    format!("{:?}", text)
}

/// Whether a character is a decimal digit.
pub open spec fn is_digit(c: char) -> bool {
    '0' <= c <= '9'
}

/// The number that a row of decimal digits stands for.
pub open spec fn value_of(numerals: Seq<char>) -> nat
    decreases numerals.len(),
{
    if numerals.len() == 0 {
        0
    } else {
        value_of(numerals.drop_last()) * 10 + (numerals.last() as nat - '0' as nat) as nat
    }
}

/// What follows the sign of a written number, if it has one.
pub open spec fn without_plus(text: Seq<char>) -> Seq<char> {
    if text.len() > 0 && text[0] == '+' {
        text.drop_first()
    } else {
        text
    }
}

/// The index that a text writes: decimal digits and nothing else, but for a
/// plus sign in front, for a number that fits a `usize`.
pub open spec fn written_index(text: Seq<char>) -> Option<usize> {
    let numerals = without_plus(text);
    if numerals.len() > 0 && (forall|i: int| 0 <= i < numerals.len() ==> is_digit(#[trigger] numerals[i]))
        && value_of(numerals) <= usize::MAX {
        Some(value_of(numerals) as usize)
    } else {
        None
    }
}

/// More digits never make a number smaller.
proof fn lemma_value_grows(numerals: Seq<char>, count: int)
    requires
        0 <= count <= numerals.len(),
        forall|i: int| 0 <= i < numerals.len() ==> is_digit(#[trigger] numerals[i]),
    ensures
        value_of(numerals.take(count)) <= value_of(numerals),
    decreases numerals.len() - count,
{
    if count == numerals.len() {
        assert(numerals.take(count) =~= numerals);
    } else {
        assert(numerals.take(count + 1).drop_last() =~= numerals.take(count));
        lemma_value_grows(numerals, count + 1);
    }
}

/// Reads the index that a text writes.
pub fn parse_index(text: &str) -> (index: Option<usize>)
    ensures
        index == written_index(text@),
{
    let chars = chars_of(text);
    let ghost numerals = without_plus(text@);
    let start: usize = if chars.len() > 0 && chars[0] == '+' {
        1
    } else {
        0
    };
    assert(numerals =~= chars@.skip(start as int));
    if start == chars.len() {
        return None;
    }
    let mut value: usize = 0;
    let mut i: usize = start;
    assert(numerals.take(0) =~= Seq::<char>::empty());
    while i < chars.len()
        invariant
            start <= i <= chars@.len(),
            numerals == chars@.skip(start as int),
            numerals == without_plus(text@),
            numerals.len() > 0,
            value == value_of(numerals.take(i - start)),
            forall|j: int| 0 <= j < i - start ==> is_digit(#[trigger] numerals[j]),
        decreases chars@.len() - i,
    {
        let c = chars[i];
        let ghost k = i - start;
        assert(numerals[k] == c);
        if !('0' <= c && c <= '9') {
            return None;
        }
        let d: usize = (c as u32 - '0' as u32) as usize;
        assert(numerals.take(k + 1).drop_last() =~= numerals.take(k));
        assert(value_of(numerals.take(k + 1)) == value * 10 + d);
        let next = match value.checked_mul(10) {
            Some(tens) => tens.checked_add(d),
            None => None,
        };
        match next {
            Some(next) => {
                value = next;
            },
            None => {
                proof {
                    if forall|j: int| 0 <= j < numerals.len() ==> is_digit(#[trigger] numerals[j]) {
                        lemma_value_grows(numerals, k + 1);
                    }
                }
                return None;
            },
        }
        i += 1;
    }
    assert(numerals.take(chars@.len() - start) =~= numerals);
    Some(value)
}

/// The digits of a number, read as an index, give the number back.
pub proof fn lemma_digits_are_read_back(number: nat)
    ensures
        written_index(digits(number)) == (if number <= usize::MAX {
            Some(number as usize)
        } else {
            None
        }),
{
    lemma_digits(number);
    let numerals = digits(number);
    assert(is_digit(numerals[0]));
    assert(without_plus(numerals) == numerals);
}

proof fn lemma_digits(number: nat)
    ensures
        digits(number).len() > 0,
        forall|i: int| 0 <= i < digits(number).len() ==> is_digit(#[trigger] digits(number)[i]),
        value_of(digits(number)) == number,
    decreases number,
{
    let last = digit(number % 10);
    assert(is_digit(last) && last as nat - '0' as nat == number % 10);
    if number >= 10 {
        lemma_digits(number / 10);
        assert(digits(number).drop_last() =~= digits(number / 10));
    } else {
        assert(digits(number).drop_last() =~= Seq::<char>::empty());
        assert(value_of(digits(number).drop_last()) == 0);
    }
    assert(digits(number).last() == last);
}

}
