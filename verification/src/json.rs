//! JSON values as the library reads and builds them.
//!
//! `Json` is the value itself, `Tree` is what it means. Text becomes a value
//! and a value becomes text through `serde_json`; the way in and out is one
//! level at a time, so that everything below the level is plain code.

use vstd::prelude::*;

use crate::table::Table;

verus! {

/// What a JSON value means: an object is a map from names to values, so the
/// order in which members were written does not count.
#[verifier::ext_equal]
pub enum Tree {
    Null,
    Bool(bool),
    Integer(int),
    Float(serde_json::Number),
    Text(Seq<char>),
    List(Seq<Tree>),
    Object(Map<Seq<char>, Tree>),
}

impl Tree {
    /// The member of that name; none where there is none, or this is no object.
    pub open spec fn get(self, key: Seq<char>) -> Option<Tree> {
        match self {
            Tree::Object(members) => if members.contains_key(key) {
                Some(members[key])
            } else {
                None
            },
            _ => None,
        }
    }

    /// The characters, if this is text.
    pub open spec fn as_text(self) -> Option<Seq<char>> {
        match self {
            Tree::Text(text) => Some(text),
            _ => None,
        }
    }

    /// The number, if this is an integer that fits a `u64`.
    pub open spec fn as_unsigned(self) -> Option<u64> {
        match self {
            Tree::Integer(value) => if 0 <= value <= u64::MAX {
                Some(value as u64)
            } else {
                None
            },
            _ => None,
        }
    }

    /// The items, if this is a list.
    pub open spec fn as_list(self) -> Option<Seq<Tree>> {
        match self {
            Tree::List(items) => Some(items),
            _ => None,
        }
    }

    /// The characters of the member of that name, if it is text.
    pub open spec fn text_at(self, key: Seq<char>) -> Option<Seq<char>> {
        match self.get(key) {
            Some(member) => member.as_text(),
            None => None,
        }
    }

    /// The number in the member of that name, if it is an unsigned integer.
    pub open spec fn unsigned_at(self, key: Seq<char>) -> Option<u64> {
        match self.get(key) {
            Some(member) => member.as_unsigned(),
            None => None,
        }
    }

    /// The items of the member of that name, if it is a list.
    pub open spec fn list_at(self, key: Seq<char>) -> Option<Seq<Tree>> {
        match self.get(key) {
            Some(member) => member.as_list(),
            None => None,
        }
    }

    /// The member of that name, or null.
    pub open spec fn member_or_null(self, key: Seq<char>) -> Tree {
        match self.get(key) {
            Some(member) => member,
            None => Tree::Null,
        }
    }

    /// Whether the value survives being written and read again: it nests no
    /// deeper than the given number of containers and holds no floating-point
    /// number.
    pub open spec fn survives(self, depth: nat) -> bool
        decreases depth,
    {
        match self {
            Tree::Float(_) => false,
            Tree::List(items) => {
                &&& depth > 0
                &&& forall|i: int|
                    0 <= i < items.len() ==> (#[trigger] items[i]).survives((depth - 1) as nat)
            },
            Tree::Object(members) => {
                &&& depth > 0
                &&& forall|key: Seq<char>| #[trigger]
                    members.contains_key(key) ==> members[key].survives((depth - 1) as nat)
            },
            _ => true,
        }
    }
}

/// How many containers may be nested in one another in text that is to be
/// read.
pub const MAX_DEPTH: u8 = 127;

/// A JSON value.
#[derive(Debug, PartialEq)]
pub enum Json {
    Null,
    Bool(bool),
    /// An integer that is not below zero.
    Unsigned(u64),
    /// An integer below zero.
    Signed(i64),
    Float(Float),
    Text(String),
    List(Vec<Json>),
    Object(Table<Json>),
}

/// A number that is not an integer. Nothing here computes with it; it is
/// carried from where it was read to where it is written.
#[derive(Debug, PartialEq)]
pub struct Float {
    number: serde_json::Number,
}

impl Float {
    #[verifier::type_invariant]
    spec fn holds_no_integer(self) -> bool {
        integer_of(self.number) is None
    }

    pub closed spec fn number(self) -> serde_json::Number {
        self.number
    }
}

/// The members of an object, each taken for what it means.
pub open spec fn members(table: Map<Seq<char>, Json>) -> Map<Seq<char>, Tree> {
    Map::new(|key: Seq<char>| table.contains_key(key), |key: Seq<char>| tree_of(table[key]))
}

/// What `json` means.
pub open spec fn tree_of(json: Json) -> Tree
    decreases json,
    via tree_of_decreases
{
    match json {
        Json::Null => Tree::Null,
        Json::Bool(value) => Tree::Bool(value),
        Json::Unsigned(value) => Tree::Integer(value as int),
        Json::Signed(value) => Tree::Integer(value as int),
        Json::Float(value) => Tree::Float(value.number()),
        Json::Text(value) => Tree::Text(value@),
        Json::List(items) => Tree::List(
            Seq::new(
                items@.len(),
                |i: int|
                    if 0 <= i < items@.len() {
                        tree_of(items@[i])
                    } else {
                        Tree::Null
                    },
            ),
        ),
        Json::Object(table) => Tree::Object(
            Map::new(
                |key: Seq<char>| table@.contains_key(key),
                |key: Seq<char>|
                    if table@.contains_key(key) {
                        tree_of(table@[key])
                    } else {
                        Tree::Null
                    },
            ),
        ),
    }
}

#[via_fn]
proof fn tree_of_decreases(json: Json) {
    match json {
        Json::Object(table) => {
            assert forall|key: Seq<char>| #[trigger] table@.contains_key(key) implies decreases_to!(json => table@[key]) by {
                table.lemma_smaller(key);
            }
        },
        _ => {},
    }
}

/// What a list means, item by item.
pub open spec fn trees(items: Seq<Json>) -> Seq<Tree> {
    items.map_values(|item: Json| tree_of(item))
}

/// A list means its items, an object its members.
pub broadcast proof fn lemma_containers(json: Json)
    ensures
        match json {
            Json::List(items) => #[trigger] tree_of(json) == Tree::List(trees(items@)),
            Json::Object(table) => tree_of(json) == Tree::Object(members(table@)),
            _ => true,
        },
{
    match json {
        Json::List(items) => {
            let tree = tree_of(json)->List_0;
            assert forall|i: int| 0 <= i < items@.len() implies #[trigger] tree[i] == tree_of(items@[i]) by {
            }
            assert(tree =~= trees(items@));
        },
        Json::Object(table) => {
            assert(tree_of(json)->Object_0 =~= members(table@));
        },
        _ => {},
    }
}

/// An item of a list is a part of it.
proof fn lemma_item(json: Json, items: Vec<Json>, i: int)
    requires
        json == Json::List(items),
        0 <= i < items@.len(),
    ensures
        decreases_to!(json => items@[i]),
{
    assert(decreases_to!(json => json->List_0));
    assert(decreases_to!(items => items@));
    assert(decreases_to!(items@ => items@[i]));
}

/// A member of an object is a part of it.
proof fn lemma_member(json: Json, table: Table<Json>, key: Seq<char>)
    requires
        json == Json::Object(table),
        table@.contains_key(key),
    ensures
        decreases_to!(json => table@[key]),
{
    assert(decreases_to!(json => json->Object_0));
    table.lemma_smaller(key);
}

impl View for Json {
    type V = Tree;

    open spec fn view(&self) -> Tree {
        tree_of(*self)
    }
}

/// `serde_json::Value`, of which the library knows what it holds.
#[verifier::external_type_specification]
#[verifier::external_body]
pub struct ExSerdeValue(serde_json::Value);

/// `serde_json::Number`, of which the library knows whether it holds an
/// integer, and which.
#[verifier::external_type_specification]
#[verifier::external_body]
pub struct ExSerdeNumber(serde_json::Number);

/// `serde_json::Error`, of which the library knows its message.
#[verifier::external_type_specification]
#[verifier::external_body]
pub struct ExSerdeError(serde_json::Error);

/// What a `serde_json::Value` holds.
pub uninterp spec fn contents(value: serde_json::Value) -> Tree;

/// The integer that a `serde_json::Number` holds; none where it holds a
/// floating-point number.
pub uninterp spec fn integer_of(number: serde_json::Number) -> Option<int>;

/// One level of a `serde_json::Value`: what is nested below stays closed.
enum Level {
    Null,
    Bool(bool),
    Number(serde_json::Number),
    Text(String),
    List(Vec<serde_json::Value>),
    Object(Vec<(String, serde_json::Value)>),
}

/// No two of the members have the same name.
spec fn distinct(rows: Seq<(String, serde_json::Value)>) -> bool {
    forall|i: int, j: int|
        0 <= i < j < rows.len() ==> (#[trigger] rows[i]).0@ != (#[trigger] rows[j]).0@
}

spec fn has_row(rows: Seq<(String, serde_json::Value)>, key: Seq<char>) -> bool {
    exists|i: int| 0 <= i < rows.len() && (#[trigger] rows[i]).0@ == key
}

spec fn row_of(rows: Seq<(String, serde_json::Value)>, key: Seq<char>) -> int {
    choose|i: int| 0 <= i < rows.len() && (#[trigger] rows[i]).0@ == key
}

/// What a number means.
spec fn number_tree(number: serde_json::Number) -> Tree {
    match integer_of(number) {
        Some(value) => Tree::Integer(value),
        None => Tree::Float(number),
    }
}

/// What a level means.
spec fn level_tree(level: Level) -> Tree {
    match level {
        Level::Null => Tree::Null,
        Level::Bool(value) => Tree::Bool(value),
        Level::Number(number) => number_tree(number),
        Level::Text(text) => Tree::Text(text@),
        Level::List(items) => Tree::List(
            items@.map_values(|item: serde_json::Value| contents(item)),
        ),
        Level::Object(rows) => Tree::Object(
            Map::new(
                |key: Seq<char>| has_row(rows@, key),
                |key: Seq<char>| contents(rows@[row_of(rows@, key)].1),
            ),
        ),
    }
}

/// Takes a `serde_json::Value` apart by its variant: the level holds what the
/// value held, and an object gives each of its names once.
#[verifier::external_body]
fn open(value: serde_json::Value) -> (level: Level)
    ensures
        contents(value) == level_tree(level),
        level matches Level::Object(rows) ==> distinct(rows@),
{
    match value {
        serde_json::Value::Null => Level::Null,
        serde_json::Value::Bool(value) => Level::Bool(value),
        serde_json::Value::Number(number) => Level::Number(number),
        serde_json::Value::String(text) => Level::Text(text),
        serde_json::Value::Array(items) => Level::List(items),
        serde_json::Value::Object(rows) => Level::Object(rows.into_iter().collect()),
    }
}

/// Puts a `serde_json::Value` together from one level: the value holds what
/// the level held.
#[verifier::external_body]
fn close(level: Level) -> (value: serde_json::Value)
    requires
        level matches Level::Object(rows) ==> distinct(rows@),
    ensures
        contents(value) == level_tree(level),
{
    match level {
        Level::Null => serde_json::Value::Null,
        Level::Bool(value) => serde_json::Value::Bool(value),
        Level::Number(number) => serde_json::Value::Number(number),
        Level::Text(text) => serde_json::Value::String(text),
        Level::List(items) => serde_json::Value::Array(items),
        Level::Object(rows) => serde_json::Value::Object(rows.into_iter().collect()),
    }
}

/// `serde_json::Number::as_u64` gives the integer that the number holds, if
/// it is not below zero; every integer held below zero fits an `i64`.
pub assume_specification[ serde_json::Number::as_u64 ](number: &serde_json::Number) -> (value:
    Option<u64>)
    ensures
        match value {
            Some(value) => integer_of(*number) == Some(value as int),
            None => integer_of(*number) matches Some(held) ==> i64::MIN <= held < 0,
        },
;

/// `serde_json::Number::as_i64` gives the integer that the number holds, if
/// it fits an `i64`; every integer held above that fits a `u64`.
pub assume_specification[ serde_json::Number::as_i64 ](number: &serde_json::Number) -> (value:
    Option<i64>)
    ensures
        match value {
            Some(value) => integer_of(*number) == Some(value as int),
            None => integer_of(*number) matches Some(held) ==> i64::MAX < held <= u64::MAX,
        },
;

/// `serde_json::Number::clone` gives an equal number.
pub assume_specification[ <serde_json::Number as Clone>::clone ](number: &serde_json::Number) -> (copy:
    serde_json::Number)
    ensures
        copy == *number,
;

/// `serde_json::Number::from`, of an unsigned integer: the number holds it.
#[verifier::external_body]
fn unsigned_number(value: u64) -> (number: serde_json::Number)
    ensures
        integer_of(number) == Some(value as int),
{
    serde_json::Number::from(value)
}

/// `serde_json::Number::from`, of a signed integer: the number holds it.
#[verifier::external_body]
fn signed_number(value: i64) -> (number: serde_json::Number)
    ensures
        integer_of(number) == Some(value as int),
{
    serde_json::Number::from(value)
}

/// The members of an opened object: finitely many, each under its name.
proof fn lemma_level_object(rows: Seq<(String, serde_json::Value)>)
    requires
        distinct(rows),
    ensures
        ({
            let tree = Map::new(
                |key: Seq<char>| has_row(rows, key),
                |key: Seq<char>| contents(rows[row_of(rows, key)].1),
            );
            &&& tree.dom().finite()
            &&& forall|i: int| 0 <= i < rows.len() ==> {
                &&& tree.contains_key((#[trigger] rows[i]).0@)
                &&& tree[rows[i].0@] == contents(rows[i].1)
            }
        }),
{
    let tree = Map::new(
        |key: Seq<char>| has_row(rows, key),
        |key: Seq<char>| contents(rows[row_of(rows, key)].1),
    );
    let keys = rows.map_values(|row: (String, serde_json::Value)| row.0@);
    assert forall|key: Seq<char>| tree.dom().contains(key) implies keys.to_set().contains(key) by {
        assert(keys[row_of(rows, key)] == key);
    }
    vstd::seq_lib::seq_to_set_is_finite(keys);
    vstd::set_lib::lemma_set_subset_finite(keys.to_set(), tree.dom());
    assert forall|i: int| 0 <= i < rows.len() implies {
        &&& tree.contains_key((#[trigger] rows[i]).0@)
        &&& tree[rows[i].0@] == contents(rows[i].1)
    } by {
        let r = row_of(rows, rows[i].0@);
        assert(has_row(rows, rows[i].0@));
        if r < i {
            assert(rows[r].0@ != rows[i].0@);
        }
        if i < r {
            assert(rows[i].0@ != rows[r].0@);
        }
    }
}

impl Json {
    /// The same value, taken over from `serde_json`.
    pub fn from_serde(value: serde_json::Value) -> (json: Json)
        ensures
            json@ == contents(value),
        decreases contents(value),
    {
        match open(value) {
            Level::Null => Json::Null,
            Level::Bool(value) => Json::Bool(value),
            Level::Number(number) => match number.as_u64() {
                Some(value) => Json::Unsigned(value),
                None => match number.as_i64() {
                    Some(value) => Json::Signed(value),
                    None => Json::Float(Float { number }),
                },
            },
            Level::Text(text) => Json::Text(text),
            Level::List(items) => {
                let mut list: Vec<Json> = Vec::new();
                let ghost all = items@;
                for item in iter: items
                    invariant
                        iter.seq() == all,
                        list@.len() == iter.index(),
                        contents(value) == Tree::List(all.map_values(|item: serde_json::Value| contents(item))),
                        forall|i: int| 0 <= i < list@.len() ==> #[trigger] tree_of(list@[i]) == contents(all[i]),
                {
                    proof {
                        assert(contents(value)->List_0[iter.index() as int] == contents(item));
                    }
                    list.push(Json::from_serde(item));
                }
                let json = Json::List(list);
                proof { lemma_containers(json); }
                assert(json@->List_0 =~= contents(value)->List_0);
                json
            },
            Level::Object(rows) => {
                let mut table: Table<Json> = Table::new();
                let ghost all = rows@;
                let ghost tree = contents(value)->Object_0;
                proof {
                    lemma_level_object(all);
                }
                for row in iter: rows
                    invariant
                        iter.seq() == all,
                        distinct(all),
                        contents(value) == Tree::Object(tree),
                        tree.dom().finite(),
                        forall|i: int| 0 <= i < all.len() ==> {
                            &&& tree.contains_key((#[trigger] all[i]).0@)
                            &&& tree[all[i].0@] == contents(all[i].1)
                        },
                        forall|key: Seq<char>| #[trigger]
                            table@.contains_key(key) <==> has_row(all.take(iter.index() as int), key),
                        forall|i: int| 0 <= i < iter.index() ==> #[trigger] tree_of(table@[all[i].0@])
                            == contents(all[i].1),
                {
                    let (key, inner) = row;
                    let ghost n = iter.index() as int;
                    let ghost name = key@;
                    let ghost before = table@;
                    proof {
                        assert(all[n] == row);
                        assert(decreases_to!(contents(value) => contents(value)->Object_0));
                        assert(decreases_to!(tree => tree[key@]));
                        assert(tree[key@] == contents(inner));
                    }
                    table.insert(key, Json::from_serde(inner));
                    proof {
                        assert forall|k: Seq<char>| #[trigger]
                            table@.contains_key(k) <==> has_row(all.take(n + 1), k) by {
                            if has_row(all.take(n), k) {
                                let i = row_of(all.take(n), k);
                                assert(all.take(n + 1)[i].0@ == k);
                            }
                            if k == name {
                                assert(all.take(n + 1)[n].0@ == k);
                            }
                            if has_row(all.take(n + 1), k) && k != name {
                                let i = row_of(all.take(n + 1), k);
                                assert(all.take(n)[i].0@ == k);
                            }
                        }
                    }
                }
                proof {
                    assert(all.take(all.len() as int) =~= all);
                    assert forall|k: Seq<char>| has_row(all, k) implies tree_of(table@[k]) == tree[k] by {
                        let i = row_of(all, k);
                        assert(tree_of(table@[all[i].0@]) == contents(all[i].1));
                    }
                }
                let json = Json::Object(table);
                assert(json@->Object_0 =~= contents(value)->Object_0);
                json
            },
        }
    }

    /// The same value, handed over to `serde_json`.
    pub fn to_serde(&self) -> (value: serde_json::Value)
        ensures
            contents(value) == self@,
        decreases *self,
    {
        broadcast use lemma_containers;

        let level = match self {
            Json::Null => Level::Null,
            Json::Bool(value) => Level::Bool(*value),
            Json::Unsigned(value) => Level::Number(unsigned_number(*value)),
            Json::Signed(value) => Level::Number(signed_number(*value)),
            Json::Float(value) => {
                proof {
                    use_type_invariant(value);
                }
                Level::Number(value.number.clone())
            },
            Json::Text(text) => Level::Text(text.clone()),
            Json::List(items) => {
                let mut list: Vec<serde_json::Value> = Vec::new();
                let mut i: usize = 0;
                while i < items.len()
                    invariant
                        i <= items@.len(),
                        *self == Json::List(*items),
                        list@.len() == i,
                        forall|j: int|
                            0 <= j < i ==> #[trigger] contents(list@[j]) == tree_of(items@[j]),
                    decreases items@.len() - i,
                {
                    proof {
                        lemma_item(*self, *items, i as int);
                    }
                    list.push(items[i].to_serde());
                    i += 1;
                }
                let level = Level::List(list);
                assert(level_tree(level)->List_0 =~= trees(items@));
                level
            },
            Json::Object(table) => {
                let mut rows: Vec<(String, serde_json::Value)> = Vec::new();
                let count = table.len();
                let mut i: usize = 0;
                while i < count
                    invariant
                        i <= count,
                        count == table.keys().len(),
                        *self == Json::Object(*table),
                        rows@.len() == i,
                        table.keys().no_duplicates(),
                        forall|j: int|
                            0 <= j < i ==> {
                                &&& (#[trigger] rows@[j]).0@ == table.keys()[j]
                                &&& contents(rows@[j].1) == tree_of(table@[table.keys()[j]])
                            },
                    decreases count - i,
                {
                    let key = table.key_at(i).clone();
                    let value = table.value_at(i);
                    proof {
                        lemma_member(*self, *table, key@);
                    }
                    rows.push((key, value.to_serde()));
                    i += 1;
                }
                let level = Level::Object(rows);
                proof {
                    assert(distinct(rows@)) by {
                        assert forall|a: int, b: int| 0 <= a < b < rows@.len() implies (
                        #[trigger] rows@[a]).0@ != (#[trigger] rows@[b]).0@ by {
                            assert(table.keys()[a] != table.keys()[b]);
                        }
                    }
                    lemma_level_object(rows@);
                    let tree = level_tree(level)->Object_0;
                    assert forall|key: Seq<char>| tree.contains_key(key) == table@.contains_key(
                        key,
                    ) by {
                        if tree.contains_key(key) {
                            assert(table.keys()[row_of(rows@, key)] == key);
                        }
                        if table@.contains_key(key) {
                            let r = table.keys().index_of(key);
                            assert(rows@[r].0@ == key);
                        }
                    }
                    assert forall|key: Seq<char>| table@.contains_key(key) implies tree[key]
                        == tree_of(table@[key]) by {
                        let r = table.keys().index_of(key);
                        assert(rows@[r].0@ == key);
                    }
                    assert(tree =~= members(table@));
                }
                level
            },
        };
        close(level)
    }

    /// The member of that name, if this is an object that has it.
    pub fn get(&self, key: &str) -> (member: Option<&Json>)
        ensures
            match member {
                Some(member) => self@.get(key@) == Some(member@),
                None => self@.get(key@) is None,
            },
    {
        broadcast use lemma_containers;

        match self {
            Json::Object(table) => table.get(key),
            _ => None,
        }
    }

    /// The text, if this is text.
    pub fn as_str(&self) -> (text: Option<&str>)
        ensures
            match text {
                Some(text) => self@.as_text() == Some(text@),
                None => self@.as_text() is None,
            },
    {
        match self {
            Json::Text(text) => Some(text.as_str()),
            _ => None,
        }
    }

    /// The number, if this is an integer that fits a `u64`.
    pub fn as_u64(&self) -> (value: Option<u64>)
        ensures
            value == self@.as_unsigned(),
    {
        match self {
            Json::Unsigned(value) => Some(*value),
            Json::Signed(value) => if *value >= 0 {
                Some(*value as u64)
            } else {
                None
            },
            _ => None,
        }
    }

    /// The items, if this is a list.
    pub fn as_array(&self) -> (items: Option<&Vec<Json>>)
        ensures
            match items {
                Some(items) => self@.as_list() == Some(trees(items@)),
                None => self@.as_list() is None,
            },
    {
        broadcast use lemma_containers;

        match self {
            Json::List(items) => Some(items),
            _ => None,
        }
    }

    /// The text of the member of that name, if it is text.
    pub fn text_at(&self, key: &str) -> (text: Option<&str>)
        ensures
            match text {
                Some(text) => self@.text_at(key@) == Some(text@),
                None => self@.text_at(key@) is None,
            },
    {
        match self.get(key) {
            Some(member) => member.as_str(),
            None => None,
        }
    }

    /// The number in the member of that name, if it is an unsigned integer.
    pub fn unsigned_at(&self, key: &str) -> (value: Option<u64>)
        ensures
            value == self@.unsigned_at(key@),
    {
        match self.get(key) {
            Some(member) => member.as_u64(),
            None => None,
        }
    }

    /// A copy of the member of that name, or null.
    pub fn member_or_null(&self, key: &str) -> (member: Json)
        ensures
            member@ == self@.member_or_null(key@),
    {
        match self.get(key) {
            Some(member) => member.clone(),
            None => Json::Null,
        }
    }

    /// A text value.
    pub fn text(text: &str) -> (json: Json)
        ensures
            json@ == Tree::Text(text@),
    {
        Json::Text(text.to_owned())
    }
}

impl Clone for Json {
    fn clone(&self) -> (copy: Json)
        ensures
            copy@ == self@,
        decreases *self,
    {
        broadcast use lemma_containers;

        match self {
            Json::Null => Json::Null,
            Json::Bool(value) => Json::Bool(*value),
            Json::Unsigned(value) => Json::Unsigned(*value),
            Json::Signed(value) => Json::Signed(*value),
            Json::Float(value) => {
                proof {
                    use_type_invariant(value);
                }
                Json::Float(Float { number: value.number.clone() })
            },
            Json::Text(text) => Json::Text(text.clone()),
            Json::List(items) => {
                let mut list: Vec<Json> = Vec::new();
                let mut i: usize = 0;
                while i < items.len()
                    invariant
                        i <= items@.len(),
                        *self == Json::List(*items),
                        list@.len() == i,
                        forall|j: int|
                            0 <= j < i ==> #[trigger] tree_of(list@[j]) == tree_of(items@[j]),
                    decreases items@.len() - i,
                {
                    proof {
                        lemma_item(*self, *items, i as int);
                    }
                    list.push(items[i].clone());
                    i += 1;
                }
                assert(trees(list@) =~= trees(items@));
                Json::List(list)
            },
            Json::Object(table) => {
                let mut copy: Table<Json> = Table::new();
                let count = table.len();
                let mut i: usize = 0;
                while i < count
                    invariant
                        i <= count,
                        count == table.keys().len(),
                        *self == Json::Object(*table),
                        forall|key: Seq<char>| #[trigger]
                            copy@.contains_key(key) <==> table.keys().take(i as int).contains(key),
                        forall|key: Seq<char>| #[trigger]
                            copy@.contains_key(key) ==> tree_of(copy@[key]) == tree_of(table@[key]),
                    decreases count - i,
                {
                    let key = table.key_at(i).clone();
                    let value = table.value_at(i);
                    proof {
                        lemma_member(*self, *table, key@);
                    }
                    let ghost name = key@;
                    let ghost done = table.keys().take(i as int);
                    let ghost before = copy@;
                    copy.insert(key, value.clone());
                    proof {
                        assert(table.keys().take(i + 1) =~= done.push(name));
                        assert forall|k: Seq<char>| #[trigger]
                            copy@.contains_key(k) <==> done.push(name).contains(k) by {
                            assert(before.contains_key(k) <==> done.contains(k));
                            if done.contains(k) {
                                assert(done.push(name)[done.index_of(k)] == k);
                            }
                            assert(done.push(name)[i as int] == name);
                        }
                    }
                    i += 1;
                }
                assert(table.keys().take(count as int) =~= table.keys());
                assert(members(copy@) =~= members(table@));
                Json::Object(copy)
            },
        }
    }
}

/// An object under construction.
pub struct ObjectBuilder {
    table: Table<Json>,
}

impl ObjectBuilder {
    /// The members so far.
    pub closed spec fn view(self) -> Map<Seq<char>, Tree> {
        members(self.table@)
    }

    pub fn new() -> (builder: Self)
        ensures
            builder@ == Map::<Seq<char>, Tree>::empty(),
    {
        let builder = ObjectBuilder { table: Table::new() };
        assert(builder@ =~= Map::<Seq<char>, Tree>::empty());
        builder
    }

    /// Adds a member.
    pub fn with(self, key: &str, value: Json) -> (builder: Self)
        ensures
            builder@ == self@.insert(key@, value@),
    {
        let mut table = self.table;
        table.insert(key.to_owned(), value);
        let builder = ObjectBuilder { table };
        assert(builder@ =~= self@.insert(key@, value@));
        builder
    }

    pub fn build(self) -> (json: Json)
        ensures
            json@ == Tree::Object(self@),
    {
        broadcast use lemma_containers;

        Json::Object(self.table)
    }
}

/// The compact JSON text of a value, as `serde_json` writes it.
pub uninterp spec fn json_text(tree: Tree) -> Seq<char>;

/// What `serde_json` makes of some bytes: the value that they are the JSON
/// text of, or a message that says what is wrong with them.
pub uninterp spec fn parsed(bytes: Seq<u8>) -> Result<Tree, Seq<char>>;

/// What `serde_json` makes of a text: the value that it is the JSON text of,
/// or nothing.
pub uninterp spec fn parsed_text(text: Seq<char>) -> Option<Tree>;

/// The message of a `serde_json::Error`.
pub uninterp spec fn error_text(error: serde_json::Error) -> Seq<char>;

/// `serde_json::Value::to_string`: the compact text of what the value holds.
/// It is not empty, stays on one line, and is read back as the same value if
/// the value nests within the reader's limit and holds no floating-point
/// number.
#[verifier::external_body]
fn render(value: &serde_json::Value) -> (text: String)
    ensures
        text@ == json_text(contents(*value)),
        text@.len() > 0,
        !text@.contains('\n'),
        contents(*value).survives(MAX_DEPTH as nat) ==> {
            &&& parsed(vstd::utf8::encode_utf8(text@)) == Ok::<Tree, Seq<char>>(contents(*value))
            &&& parsed_text(text@) == Some(contents(*value))
        },
{
    value.to_string()
}

/// `serde_json::from_slice`: the value that the bytes are the JSON text of.
#[verifier::external_body]
fn read_bytes(bytes: &[u8]) -> (outcome: Result<serde_json::Value, serde_json::Error>)
    ensures
        match outcome {
            Ok(value) => parsed(bytes@) == Ok::<Tree, Seq<char>>(contents(value)),
            Err(error) => parsed(bytes@) == Err::<Tree, Seq<char>>(error_text(error)),
        },
{
    serde_json::from_slice(bytes)
}

/// `serde_json::from_str`: the value that the text is the JSON text of.
#[verifier::external_body]
fn read_text(text: &str) -> (outcome: Result<serde_json::Value, serde_json::Error>)
    ensures
        match outcome {
            Ok(value) => parsed_text(text@) == Some(contents(value)),
            Err(_) => parsed_text(text@) is None,
        },
{
    serde_json::from_str(text)
}

/// `serde_json::Error::to_string`: the message of the error.
#[verifier::external_body]
fn describe(error: &serde_json::Error) -> (message: String)
    ensures
        message@ == error_text(*error),
{
    error.to_string()
}

impl Json {
    /// The compact JSON text of the value.
    pub fn to_text(&self) -> (text: String)
        ensures
            text@ == json_text(self@),
            text@.len() > 0,
            !text@.contains('\n'),
            self@.survives(MAX_DEPTH as nat) ==> {
                &&& parsed(vstd::utf8::encode_utf8(text@)) == Ok::<Tree, Seq<char>>(self@)
                &&& parsed_text(text@) == Some(self@)
            },
    {
        render(&self.to_serde())
    }

    /// Reads the value that the bytes are the JSON text of.
    pub fn from_slice(bytes: &[u8]) -> (outcome: Result<Json, String>)
        ensures
            match outcome {
                Ok(json) => parsed(bytes@) == Ok::<Tree, Seq<char>>(json@),
                Err(message) => parsed(bytes@) == Err::<Tree, Seq<char>>(message@),
            },
    {
        match read_bytes(bytes) {
            Ok(value) => Ok(Json::from_serde(value)),
            Err(error) => Err(describe(&error)),
        }
    }

    /// Reads the value that the text is the JSON text of.
    pub fn from_text(text: &str) -> (outcome: Option<Json>)
        ensures
            match outcome {
                Some(json) => parsed_text(text@) == Some(json@),
                None => parsed_text(text@) is None,
            },
    {
        match read_text(text) {
            Ok(value) => Some(Json::from_serde(value)),
            Err(_) => None,
        }
    }
}

}
