//! JSON values and texts.

use vstd::prelude::*;

use crate::json::{self, Json, Tree};
use crate::table;
use crate::text;

verus! {

/// A member that is put into an object is found by its name, and only by its
/// name; one that is taken out is not found, and what is no object has none.
pub proof fn law_a_member_is_found_by_its_name(
    members: Map<Seq<char>, Tree>,
    name: Seq<char>,
    other: Seq<char>,
    value: Tree,
    tree: Tree,
)
    requires
        other != name,
    ensures
        Tree::Object(members.insert(name, value)).get(name) == Some(value),
        Tree::Object(members.insert(name, value)).get(other) == Tree::Object(members).get(other),
        Tree::Object(members.remove(name)).get(name) is None,
        Tree::Object(members.remove(name)).get(other) == Tree::Object(members).get(other),
        Tree::Object(members).get(name) is Some <==> members.contains_key(name),
        members.contains_key(name) ==> Tree::Object(members).get(name) == Some(members[name]),
        !(tree is Object) ==> tree.get(name) is None,
{
}

/// A value is read as text, as a list or as an unsigned number exactly where it
/// is one, and as the very text, list or number that it is.
pub proof fn law_a_value_is_read_as_what_it_is(
    tree: Tree,
    characters: Seq<char>,
    items: Seq<Tree>,
    number: u64,
)
    ensures
        tree.as_text() == Some(characters) <==> tree == Tree::Text(characters),
        tree.as_list() == Some(items) <==> tree == Tree::List(items),
        tree.as_unsigned() == Some(number) <==> tree == Tree::Integer(number as int),
        tree.as_text() is Some <==> tree is Text,
        tree.as_list() is Some <==> tree is List,
        tree.as_unsigned() is Some ==> tree is Integer,
{
}

/// What is read of a member is what is read of the value that is found by its
/// name, and null stands for one that is not there.
pub proof fn law_a_member_is_read_as_what_it_is(
    tree: Tree,
    name: Seq<char>,
    characters: Seq<char>,
    items: Seq<Tree>,
    number: u64,
)
    ensures
        tree.text_at(name) == Some(characters) <==> tree.get(name) == Some(Tree::Text(characters)),
        tree.list_at(name) == Some(items) <==> tree.get(name) == Some(Tree::List(items)),
        tree.unsigned_at(name) == Some(number) <==> tree.get(name) == Some(
            Tree::Integer(number as int),
        ),
        tree.get(name) == Some(tree.member_or_null(name)) || tree.get(name) is None,
        tree.get(name) is None ==> tree.member_or_null(name) == Tree::Null,
{
}

/// A JSON value means what it holds: its own truth, number or text, its items
/// in their order, and its members under their names.
pub proof fn law_a_json_value_means_what_it_holds(value: Json, place: int, name: Seq<char>)
    ensures
        value is Null <==> value@ == Tree::Null,
        value matches Json::Bool(truth) ==> value@ == Tree::Bool(truth),
        value matches Json::Unsigned(number) ==> value@ == Tree::Integer(number as int),
        value matches Json::Signed(number) ==> value@ == Tree::Integer(number as int),
        value matches Json::Text(characters) ==> value@ == Tree::Text(characters@),
        value matches Json::List(items) ==> (value@ matches Tree::List(trees) && trees.len()
            == items@.len() && (0 <= place < items@.len() ==> trees[place] == items@[place]@)),
        value matches Json::Object(rows) ==> (value@ matches Tree::Object(members)
            && members.contains_key(name) == rows@.contains_key(name) && (rows@.contains_key(name)
            ==> members[name] == rows@[name]@)),
{
    broadcast use json::lemma_containers;

}

/// The texts of a list are the texts of its entries, one for one.
pub proof fn law_a_list_of_texts_holds_its_entries(list: Seq<String>, place: int)
    ensures
        text::entries(list).len() == list.len(),
        0 <= place < list.len() ==> text::entries(list)[place] == list[place]@,
{
}

/// Rows that are those of a map have every key of the map, each once, with the
/// map's value beside it.
pub proof fn law_rows_of_a_map_are_complete<V>(
    rows: Seq<(String, V)>,
    map: Map<Seq<char>, V>,
    key: Seq<char>,
    place: int,
    other: int,
)
    requires
        table::filed(rows, map),
    ensures
        map.contains_key(key) <==> exists|i: int|
            0 <= i < rows.len() && (#[trigger] rows[i]).0@ == key,
        0 <= place < rows.len() ==> map[rows[place].0@] == rows[place].1,
        0 <= place < rows.len() && 0 <= other < rows.len() && rows[place].0@ == rows[other].0@
            ==> place == other,
{
    if 0 <= place < rows.len() && 0 <= other < rows.len() && place != other {
        if place < other {
            assert(rows[place].0@ != rows[other].0@);
        } else {
            assert(rows[other].0@ != rows[place].0@);
        }
    }
}

/// A text holds another exactly where it is made of something, the other, and
/// something.
pub proof fn law_a_text_holds_what_it_is_made_of(
    before: Seq<char>,
    part: Seq<char>,
    after: Seq<char>,
    whole: Seq<char>,
)
    ensures
        text::holds(before + part + after, part),
        text::holds(whole, part) ==> exists|from: int|
            0 <= from && from + part.len() <= whole.len() && whole == #[trigger] whole.take(from)
                + part + whole.skip(from + part.len()),
{
    let all = before + part + after;
    assert(all.subrange(before.len() as int, (before.len() + part.len()) as int) =~= part);
    if text::holds(whole, part) {
        let from = choose|from: int|
            0 <= from <= whole.len() - part.len() && #[trigger] whole.subrange(
                from,
                from + part.len(),
            ) == part;
        assert(whole =~= whole.take(from) + part + whole.skip(from + part.len()));
    }
}

/// The number that some decimal numerals stand for: each counts ten to the
/// power of how many stand behind it.
pub open spec fn weight(numerals: Seq<char>) -> int
    decreases numerals.len(),
{
    if numerals.len() == 0 {
        0
    } else {
        (numerals[0] as int - '0' as int) * vstd::arithmetic::power::pow(10, (numerals.len() - 1) as nat) + weight(
            numerals.skip(1),
        )
    }
}

/// Whether a text is made of decimal numerals only.
pub open spec fn numerals_only(characters: Seq<char>) -> bool {
    forall|i: int| 0 <= i < characters.len() ==> '0' <= #[trigger] characters[i] <= '9'
}

proof fn lemma_weight_of_one_more(numerals: Seq<char>, last: char)
    ensures
        weight(numerals.push(last)) == 10 * weight(numerals) + (last as int - '0' as int),
    decreases numerals.len(),
{
    let all = numerals.push(last);
    vstd::arithmetic::power::lemma_pow0(10);
    if numerals.len() == 0 {
        reveal_with_fuel(weight, 2);
        assert(all.skip(1) =~= Seq::<char>::empty());
    } else {
        let first = numerals[0] as int - '0' as int;
        let places = (numerals.len() - 1) as nat;
        assert(all.skip(1) =~= numerals.skip(1).push(last));
        lemma_weight_of_one_more(numerals.skip(1), last);
        vstd::arithmetic::power::lemma_pow_adds(10, 1, places);
        vstd::arithmetic::power::lemma_pow1(10);
        assert(first * (10 * vstd::arithmetic::power::pow(10, places)) == 10 * (first * vstd::arithmetic::power::pow(10, places)))
            by (nonlinear_arith);
    }
}

/// A number is written in decimal: in numerals that stand for it, without a
/// needless zero in front.
pub proof fn law_a_number_is_written_in_decimal(number: nat)
    ensures
        numerals_only(text::digits(number)),
        weight(text::digits(number)) == number,
        text::digits(number).len() > 0,
        text::digits(number)[0] == '0' ==> text::digits(number) == seq!['0'],
    decreases number,
{
    let written = text::digits(number);
    if number < 10 {
        let digit = written[0];
        assert(written =~= Seq::<char>::empty().push(digit));
        lemma_weight_of_one_more(Seq::<char>::empty(), digit);
    } else {
        let front = text::digits(number / 10);
        law_a_number_is_written_in_decimal(number / 10);
        assert(written == front.push(written.last()));
        lemma_weight_of_one_more(front, written.last());
        assert(written[0] == front[0]);
        if front[0] == '0' {
            reveal_with_fuel(weight, 2);
            vstd::arithmetic::power::lemma_pow0(10);
            assert(front.skip(1) =~= Seq::<char>::empty());
            assert(weight(front) == 0);
        }
    }
}

/// An index is read off decimal numerals, one plus before them or none, as the
/// number that they stand for; any other text, and a number that is too large,
/// is no index.
pub proof fn law_an_index_is_read_in_decimal(characters: Seq<char>)
    ensures
        ({
            let numerals = if characters.len() > 0 && characters[0] == '+' {
                characters.skip(1)
            } else {
                characters
            };
            text::written_index(characters) == (if numerals.len() > 0 && numerals_only(numerals)
                && weight(numerals) <= usize::MAX {
                Some(weight(numerals) as usize)
            } else {
                None
            })
        }),
{
    let numerals = text::without_plus(characters);
    if characters.len() > 0 && characters[0] == '+' {
        assert(numerals =~= characters.skip(1));
    }
    lemma_same_value(numerals);
}

proof fn lemma_same_value(numerals: Seq<char>)
    ensures
        numerals_only(numerals) ==> text::value_of(numerals) == weight(numerals),
    decreases numerals.len(),
{
    if numerals_only(numerals) && numerals.len() > 0 {
        let front = numerals.drop_last();
        lemma_same_value(front);
        lemma_weight_of_one_more(front, numerals.last());
        assert(front.push(numerals.last()) =~= numerals);
        assert('0' <= numerals[numerals.len() - 1] <= '9');
    }
}

}
