//! A local copy of one conversation, kept current from the owner's stream.
//!
//! The desktop app keeps its conversation state in immer and publishes the
//! patches immer produces, so applying them here follows immer's rules:
//! paths are lists of object keys and array indices, `add` on an array
//! inserts, and a `replace` of an array's `length` truncates it.

use vstd::prelude::*;

use crate::json::{self, Json, Tree};
use crate::text::{self, decimal, parse_index, quote, same};

verus! {

broadcast use json::lemma_containers;

/// Why a change could not be applied.
#[derive(Debug, PartialEq, Eq)]
pub enum MirrorError {
    NoSnapshot,
    RevisionGap { expected: u64, got: u64 },
    BadPatch(String),
    Malformed(String),
}

/// What a `MirrorError` says.
pub enum Fault {
    NoSnapshot,
    RevisionGap { expected: u64, got: u64 },
    BadPatch(Seq<char>),
    Malformed(Seq<char>),
}

impl View for MirrorError {
    type V = Fault;

    open spec fn view(&self) -> Fault {
        match *self {
            MirrorError::NoSnapshot => Fault::NoSnapshot,
            MirrorError::RevisionGap { expected, got } => Fault::RevisionGap { expected, got },
            MirrorError::BadPatch(why) => Fault::BadPatch(why@),
            MirrorError::Malformed(why) => Fault::Malformed(why@),
        }
    }
}

impl Fault {
    /// The error in words.
    pub open spec fn message(self) -> Seq<char> {
        match self {
            Fault::NoSnapshot => "patches arrived before any snapshot"@,
            Fault::RevisionGap { expected, got } => "patches were based on revision "@ + text::digits(
                got as nat,
            ) + ", but the mirror is at "@ + text::digits(expected as nat),
            Fault::BadPatch(why) => "patch does not fit the mirrored state: "@ + why,
            Fault::Malformed(why) => "stream change is malformed: "@ + why,
        }
    }
}

impl MirrorError {
    /// The error in words.
    pub fn message(&self) -> (message: String)
        ensures
            message@ == self@.message(),
    {
        match self {
            MirrorError::NoSnapshot => "patches arrived before any snapshot".to_owned(),
            MirrorError::RevisionGap { expected, got } => {
                let mut message = "patches were based on revision ".to_owned();
                message.append(decimal(*got).as_str());
                message.append(", but the mirror is at ");
                message.append(decimal(*expected).as_str());
                message
            },
            MirrorError::BadPatch(why) => {
                let mut message = "patch does not fit the mirrored state: ".to_owned();
                message.append(why.as_str());
                message
            },
            MirrorError::Malformed(why) => {
                let mut message = "stream change is malformed: ".to_owned();
                message.append(why.as_str());
                message
            },
        }
    }
}

/// The place in an array that a path element gives. Immer writes array
/// indices as numbers, but a numeric string addresses the same element.
pub open spec fn index_of(key: Tree) -> Option<usize> {
    match key {
        Tree::Integer(value) => if 0 <= value <= u64::MAX && value <= usize::MAX {
            Some(value as usize)
        } else {
            None
        },
        Tree::Text(text) => text::written_index(text),
        _ => None,
    }
}

/// Immer writes array indices as numbers, but a numeric string addresses
/// the same element, so both are accepted.
fn index(key: &Json) -> (at: Option<usize>)
    ensures
        at == index_of(key@),
{
    match key {
        Json::Text(text) => parse_index(text.as_str()),
        _ => match key.as_u64() {
            Some(value) => if value <= usize::MAX as u64 {
                Some(value as usize)
            } else {
                None
            },
            None => None,
        },
    }
}

/// What a node holds under a path element.
pub open spec fn child_of(node: Tree, key: Tree) -> Option<Tree> {
    match node {
        Tree::Object(members) => match key.as_text() {
            Some(name) => if members.contains_key(name) {
                Some(members[name])
            } else {
                None
            },
            None => None,
        },
        Tree::List(items) => match index_of(key) {
            Some(at) => if at < items.len() {
                Some(items[at as int])
            } else {
                None
            },
            None => None,
        },
        _ => None,
    }
}

/// The node with another child under a path element that has one.
pub open spec fn with_child(node: Tree, key: Tree, child: Tree) -> Tree {
    match node {
        Tree::Object(members) => Tree::Object(members.insert(key.as_text()->0, child)),
        Tree::List(items) => Tree::List(items.update(index_of(key)->0 as int, child)),
        _ => node,
    }
}

/// An operation on the member `name` of an object.
pub open spec fn member_edited(
    members: Map<Seq<char>, Tree>,
    name: Seq<char>,
    op: Seq<char>,
    value: Option<Tree>,
) -> Result<Tree, Seq<char>> {
    if op == "add"@ || op == "replace"@ {
        match value {
            Some(value) => Ok(Tree::Object(members.insert(name, value))),
            None => Err("no value"@),
        }
    } else if op == "remove"@ {
        Ok(Tree::Object(members.remove(name)))
    } else {
        Err("unknown op"@)
    }
}

/// A new length for an array: it can only become shorter.
pub open spec fn length_set(items: Seq<Tree>, value: Option<Tree>) -> Result<Tree, Seq<char>> {
    match value {
        None => Err("no value"@),
        Some(value) => match value.as_unsigned() {
            None => Err("length is not a number"@),
            Some(length) => if length > usize::MAX {
                Err("length too large"@)
            } else if length > items.len() {
                Err("length grows the array"@)
            } else {
                Ok(Tree::List(items.take(length as int)))
            },
        },
    }
}

/// An operation on a place in an array.
pub open spec fn item_edited(
    items: Seq<Tree>,
    at: int,
    op: Seq<char>,
    value: Option<Tree>,
) -> Result<Tree, Seq<char>> {
    if op == "add"@ && at <= items.len() {
        match value {
            Some(value) => Ok(Tree::List(items.insert(at, value))),
            None => Err("no value"@),
        }
    } else if op == "replace"@ && at < items.len() {
        match value {
            Some(value) => Ok(Tree::List(items.update(at, value))),
            None => Err("no value"@),
        }
    } else if op == "remove"@ && at < items.len() {
        Ok(Tree::List(items.remove(at)))
    } else {
        Err("index out of range or unknown op"@)
    }
}

/// An operation on what a node holds under a path element; where it does not
/// fit, the reason.
pub open spec fn edited(node: Tree, key: Tree, op: Seq<char>, value: Option<Tree>) -> Result<
    Tree,
    Seq<char>,
> {
    match node {
        Tree::Object(members) => match key.as_text() {
            Some(name) => member_edited(members, name, op, value),
            None => Err("non-string key"@),
        },
        Tree::List(items) => if key.as_text() == Some("length"@) && op == "replace"@ {
            length_set(items, value)
        } else {
            match index_of(key) {
                Some(at) => item_edited(items, at as int, op, value),
                None => Err("non-index key"@),
            }
        },
        _ => Err("parent is not a container"@),
    }
}

/// An operation at the end of a path that is not empty.
pub open spec fn edited_at(
    node: Tree,
    path: Seq<Tree>,
    op: Seq<char>,
    value: Option<Tree>,
) -> Result<Tree, Seq<char>>
    decreases path.len(),
{
    if path.len() <= 1 {
        edited(node, path[0], op, value)
    } else {
        match child_of(node, path[0]) {
            Some(child) => match edited_at(child, path.drop_first(), op, value) {
                Ok(child) => Ok(with_child(node, path[0], child)),
                Err(why) => Err(why),
            },
            None => Err("missing parent"@),
        }
    }
}

/// The state after a patch; where the patch does not fit it, the reason.
pub open spec fn patched(state: Tree, patch: Tree) -> Result<Tree, Seq<char>> {
    match patch.text_at("op"@) {
        None => Err("no op"@),
        Some(op) => match patch.list_at("path"@) {
            None => Err("no path"@),
            Some(path) => if path.len() > 0 {
                edited_at(state, path, op, patch.get("value"@))
            } else if op == "replace"@ {
                match patch.get("value"@) {
                    Some(value) => Ok(value),
                    None => Err("no value"@),
                }
            } else {
                Err("empty path"@)
            },
        },
    }
}

/// The fault of a patch that does not fit.
pub open spec fn bad(why: Seq<char>, patch: Tree) -> Fault {
    Fault::BadPatch(why + ": "@ + json::json_text(patch))
}

spec fn tree_or_none(value: Option<&Json>) -> Option<Tree> {
    match value {
        Some(value) => Some(value@),
        None => None,
    }
}

fn edit_member(
    table: &mut crate::table::Table<Json>,
    name: &str,
    op: &str,
    value: Option<&Json>,
) -> (outcome: Result<(), &'static str>)
    ensures
        match member_edited(json::members(old(table)@), name@, op@, tree_or_none(value)) {
            Ok(next) => outcome is Ok && next == Tree::Object(json::members(final(table)@)),
            Err(why) => {
                &&& outcome matches Err(found) && found@ == why
                &&& *final(table) == *old(table)
            },
        },
{
    if same(op, "add") || same(op, "replace") {
        match value {
            Some(value) => {
                table.insert(name.to_owned(), value.clone());
                assert(json::members(table@) =~= json::members(old(table)@).insert(name@, value@));
                Ok(())
            },
            None => Err("no value"),
        }
    } else if same(op, "remove") {
        // Removing a key that is already gone leaves the same state
        // immer would have, so it is not worth a resync.
        let _ = table.remove(name);
        assert(json::members(table@) =~= json::members(old(table)@).remove(name@));
        Ok(())
    } else {
        Err("unknown op")
    }
}

fn set_length(items: &mut Vec<Json>, value: Option<&Json>) -> (outcome: Result<(), &'static str>)
    ensures
        match length_set(json::trees(old(items)@), tree_or_none(value)) {
            Ok(next) => outcome is Ok && next == Tree::List(json::trees(final(items)@)),
            Err(why) => {
                &&& outcome matches Err(found) && found@ == why
                &&& final(items)@ == old(items)@
            },
        },
{
    let value = match value {
        Some(value) => value,
        None => {
            return Err("no value");
        },
    };
    let length = match value.as_u64() {
        Some(length) => length,
        None => {
            return Err("length is not a number");
        },
    };
    if length > usize::MAX as u64 {
        return Err("length too large");
    }
    let length = length as usize;
    if length > items.len() {
        return Err("length grows the array");
    }
    items.truncate(length);
    assert(json::trees(items@) =~= json::trees(old(items)@).take(length as int));
    Ok(())
}

fn edit_item(
    items: &mut Vec<Json>,
    at: usize,
    op: &str,
    value: Option<&Json>,
) -> (outcome: Result<(), &'static str>)
    ensures
        match item_edited(json::trees(old(items)@), at as int, op@, tree_or_none(value)) {
            Ok(next) => outcome is Ok && next == Tree::List(json::trees(final(items)@)),
            Err(why) => {
                &&& outcome matches Err(found) && found@ == why
                &&& final(items)@ == old(items)@
            },
        },
{
    if same(op, "add") && at <= items.len() {
        match value {
            Some(value) => {
                items.insert(at, value.clone());
                assert(json::trees(items@) =~= json::trees(old(items)@).insert(at as int, value@));
                Ok(())
            },
            None => Err("no value"),
        }
    } else if same(op, "replace") && at < items.len() {
        match value {
            Some(value) => {
                items[at] = value.clone();
                assert(json::trees(items@) =~= json::trees(old(items)@).update(at as int, value@));
                Ok(())
            },
            None => Err("no value"),
        }
    } else if same(op, "remove") && at < items.len() {
        let _ = items.remove(at);
        assert(json::trees(items@) =~= json::trees(old(items)@).remove(at as int));
        Ok(())
    } else {
        Err("index out of range or unknown op")
    }
}

fn edit(node: &mut Json, key: &Json, op: &str, value: Option<&Json>) -> (outcome: Result<
    (),
    &'static str,
>)
    ensures
        match edited(old(node)@, key@, op@, tree_or_none(value)) {
            Ok(next) => outcome is Ok && final(node)@ == next,
            Err(why) => {
                &&& outcome matches Err(found) && found@ == why
                &&& final(node)@ == old(node)@
            },
        },
{
    match node {
        Json::Object(table) => match key.as_str() {
            Some(name) => edit_member(table, name, op, value),
            None => Err("non-string key"),
        },
        Json::List(items) => {
            let names_length = match key.as_str() {
                Some(name) => same(name, "length"),
                None => false,
            };
            if names_length && same(op, "replace") {
                set_length(items, value)
            } else {
                match index(key) {
                    Some(at) => edit_item(items, at, op, value),
                    None => Err("non-index key"),
                }
            }
        },
        _ => Err("parent is not a container"),
    }
}

/// Walks down the path from its element `from` on, and edits at its end.
fn edit_path(node: &mut Json, path: &Vec<Json>, from: usize, op: &str, value: Option<&Json>) -> (outcome:
    Result<(), &'static str>)
    requires
        from < path@.len(),
    ensures
        match edited_at(old(node)@, json::trees(path@).skip(from as int), op@, tree_or_none(value)) {
            Ok(next) => outcome is Ok && final(node)@ == next,
            Err(why) => {
                &&& outcome matches Err(found) && found@ == why
                &&& final(node)@ == old(node)@
            },
        },
    decreases path@.len() - from,
{
    let ghost rest = json::trees(path@).skip(from as int);
    assert(rest[0] == path@[from as int]@);
    if path.len() - from == 1 {
        return edit(node, &path[from], op, value);
    }
    assert(rest.drop_first() =~= json::trees(path@).skip(from + 1));
    match node {
        Json::Object(table) => match path[from].as_str() {
            Some(name) => {
                let ghost before = json::members(table@);
                let mut child = Json::Null;
                if table.swap(name, &mut child) {
                    let outcome = edit_path(&mut child, path, from + 1, op, value);
                    let ghost changed = child@;
                    let _ = table.swap(name, &mut child);
                    assert(json::members(table@) =~= before.insert(name@, changed));
                    assert(before.insert(name@, before[name@]) =~= before);
                    outcome
                } else {
                    Err("missing parent")
                }
            },
            None => Err("missing parent"),
        },
        Json::List(items) => match index(&path[from]) {
            Some(at) => if at < items.len() {
                let ghost before = json::trees(items@);
                let outcome = edit_path(&mut items[at], path, from + 1, op, value);
                assert(json::trees(items@) =~= before.update(at as int, items@[at as int]@));
                assert(before.update(at as int, before[at as int]) =~= before);
                outcome
            } else {
                Err("missing parent")
            },
            None => Err("missing parent"),
        },
        _ => Err("missing parent"),
    }
}

fn bad_patch(why: &str, patch: &Json) -> (error: MirrorError)
    ensures
        error@ == bad(why@, patch@),
{
    let mut message = why.to_owned();
    message.append(": ");
    message.append(patch.to_text().as_str());
    MirrorError::BadPatch(message)
}

/// Applies one patch; one that does not fit changes nothing.
pub fn apply_patch(state: &mut Json, patch: &Json) -> (outcome: Result<(), MirrorError>)
    ensures
        match patched(old(state)@, patch@) {
            Ok(next) => outcome is Ok && final(state)@ == next,
            Err(why) => {
                &&& outcome matches Err(error) && error@ == bad(why, patch@)
                &&& final(state)@ == old(state)@
            },
        },
{
    let op = match patch.text_at("op") {
        Some(op) => op,
        None => {
            return Err(bad_patch("no op", patch));
        },
    };
    let path = match patch.get("path") {
        Some(path) => path.as_array(),
        None => None,
    };
    let path = match path {
        Some(path) => path,
        None => {
            return Err(bad_patch("no path", patch));
        },
    };
    let value = patch.get("value");
    if path.len() == 0 {
        return if same(op, "replace") {
            match value {
                Some(value) => {
                    *state = value.clone();
                    Ok(())
                },
                None => Err(bad_patch("no value", patch)),
            }
        } else {
            Err(bad_patch("empty path", patch))
        };
    }
    assert(json::trees(path@).skip(0) =~= json::trees(path@));
    match edit_path(state, path, 0, op, value) {
        Ok(()) => Ok(()),
        Err(why) => Err(bad_patch(why, patch)),
    }
}

/// The state after some patches, one after the other.
pub open spec fn patched_all(state: Tree, patches: Seq<Tree>) -> Result<Tree, Fault>
    decreases patches.len(),
{
    if patches.len() == 0 {
        Ok(state)
    } else {
        match patched(state, patches[0]) {
            Ok(next) => patched_all(next, patches.drop_first()),
            Err(why) => Err(bad(why, patches[0])),
        }
    }
}

/// How a change that names its own type is called in an error.
pub open spec fn shown_type(kind: Option<Seq<char>>) -> Seq<char> {
    match kind {
        Some(kind) => "change type Some("@ + text::quoted(kind) + ")"@,
        None => "change type None"@,
    }
}

/// The revision and state after a change, or what is wrong with it.
pub open spec fn applied(current: Option<(u64, Tree)>, change: Tree) -> Result<(u64, Tree), Fault> {
    match change.unsigned_at("revision"@) {
        None => Err(Fault::Malformed("missing "@ + "revision"@)),
        Some(revision) => if change.text_at("type"@) == Some("snapshot"@) {
            match change.get("conversationState"@) {
                Some(state) => Ok((revision, state)),
                None => Err(Fault::Malformed("snapshot without state"@)),
            }
        } else if change.text_at("type"@) == Some("patches"@) {
            match change.unsigned_at("baseRevision"@) {
                None => Err(Fault::Malformed("missing "@ + "baseRevision"@)),
                Some(base) => match current {
                    None => Err(Fault::NoSnapshot),
                    Some((at, state)) => if base != at {
                        Err(Fault::RevisionGap { expected: at, got: base })
                    } else {
                        match change.list_at("patches"@) {
                            None => Err(Fault::Malformed("patches is not a list"@)),
                            Some(patches) => match patched_all(state, patches) {
                                Ok(next) => Ok((revision, next)),
                                Err(fault) => Err(fault),
                            },
                        }
                    },
                },
            }
        } else {
            Err(Fault::Malformed(shown_type(change.text_at("type"@))))
        },
    }
}

/// What a mirror holds after a change: what the change gives, and nothing
/// after one that it cannot take.
pub open spec fn held_after(current: Option<(u64, Tree)>, change: Tree) -> Option<(u64, Tree)> {
    match applied(current, change) {
        Ok(next) => Some(next),
        Err(_) => None,
    }
}

/// A member of a change that must be an unsigned integer.
fn number(change: &Json, key: &str) -> (value: Result<u64, MirrorError>)
    ensures
        match change@.unsigned_at(key@) {
            Some(found) => value == Ok::<u64, MirrorError>(found),
            None => value matches Err(error) && error@ == Fault::Malformed("missing "@ + key@),
        },
{
    match change.unsigned_at(key) {
        Some(value) => Ok(value),
        None => {
            let mut message = "missing ".to_owned();
            message.append(key);
            Err(MirrorError::Malformed(message))
        },
    }
}

/// The conversation as far as it is known.
#[derive(Debug)]
pub struct Mirror {
    current: Option<(u64, Json)>,
}

impl Default for Mirror {
    fn default() -> (mirror: Self)
        ensures
            mirror@ is None,
    {
        Mirror { current: None }
    }
}

impl Mirror {
    /// The revision and the state; none before a snapshot and after an error.
    pub closed spec fn view(self) -> Option<(u64, Tree)> {
        match self.current {
            Some((revision, state)) => Some((revision, state@)),
            None => None,
        }
    }

    pub fn state(&self) -> (state: Option<&Json>)
        ensures
            match state {
                Some(state) => self@ matches Some((_, held)) && held == state@,
                None => self@ is None,
            },
    {
        match &self.current {
            Some((_, state)) => Some(state),
            None => None,
        }
    }

    pub fn revision(&self) -> (revision: Option<u64>)
        ensures
            match revision {
                Some(revision) => self@ matches Some((held, _)) && held == revision,
                None => self@ is None,
            },
    {
        match &self.current {
            Some((revision, _)) => Some(*revision),
            None => None,
        }
    }

    /// Apply the `change` object of a `thread-stream-state-changed`
    /// broadcast.
    ///
    /// On any error the mirror is emptied rather than left half-patched.
    /// The only way back is a fresh snapshot, which the owner sends when a
    /// follower asks it for the thread's history again.
    pub fn apply(&mut self, change: &Json) -> (outcome: Result<(), MirrorError>)
        ensures
            match applied(old(self)@, change@) {
                Ok(next) => outcome is Ok && final(self)@ == Some(next),
                Err(fault) => (outcome matches Err(error) && error@ == fault) && final(self)@
                    is None,
            },
            final(self)@ == held_after(old(self)@, change@),
            outcome is Ok <==> held_after(old(self)@, change@) is Some,
    {
        let outcome = self.try_apply(change);
        if outcome.is_err() {
            self.current = None;
        }
        outcome
    }

    fn try_apply(&mut self, change: &Json) -> (outcome: Result<(), MirrorError>)
        ensures
            match applied(old(self)@, change@) {
                Ok(next) => outcome is Ok && final(self)@ == Some(next),
                Err(fault) => outcome matches Err(error) && error@ == fault,
            },
    {
        let revision = match number(change, "revision") {
            Ok(revision) => revision,
            Err(error) => {
                return Err(error);
            },
        };
        let kind = match change.text_at("type") {
            Some(kind) => kind,
            None => {
                return Err(MirrorError::Malformed("change type None".to_owned()));
            },
        };
        if same(kind, "snapshot") {
            match change.get("conversationState") {
                Some(state) => {
                    self.current = Some((revision, state.clone()));
                    Ok(())
                },
                None => Err(MirrorError::Malformed("snapshot without state".to_owned())),
            }
        } else if same(kind, "patches") {
            let base = match number(change, "baseRevision") {
                Ok(base) => base,
                Err(error) => {
                    return Err(error);
                },
            };
            match self.current.take() {
                Some((at, state)) => {
                    let mut state = state;
                    if base != at {
                        return Err(MirrorError::RevisionGap { expected: at, got: base });
                    }
                    let patches = match change.get("patches") {
                        Some(patches) => patches.as_array(),
                        None => None,
                    };
                    let patches = match patches {
                        Some(patches) => patches,
                        None => {
                            return Err(MirrorError::Malformed("patches is not a list".to_owned()));
                        },
                    };
                    apply_patches(&mut state, patches)?;
                    self.current = Some((revision, state));
                    Ok(())
                },
                None => Err(MirrorError::NoSnapshot),
            }
        } else {
            let mut message = "change type Some(".to_owned();
            message.append(quote(kind).as_str());
            message.append(")");
            Err(MirrorError::Malformed(message))
        }
    }
}

fn apply_patches(state: &mut Json, patches: &Vec<Json>) -> (outcome: Result<(), MirrorError>)
    ensures
        match patched_all(old(state)@, json::trees(patches@)) {
            Ok(next) => outcome is Ok && final(state)@ == next,
            Err(fault) => outcome matches Err(error) && error@ == fault,
        },
{
    let ghost all = json::trees(patches@);
    let ghost start = state@;
    let mut i: usize = 0;
    assert(all.skip(0) =~= all);
    while i < patches.len()
        invariant
            i <= patches@.len(),
            all == json::trees(patches@),
            start == old(state)@,
            patched_all(start, all) == patched_all(state@, all.skip(i as int)),
        decreases patches@.len() - i,
    {
        assert(all.skip(i as int)[0] == patches@[i as int]@);
        assert(all.skip(i as int).drop_first() =~= all.skip(i + 1));
        match apply_patch(state, &patches[i]) {
            Ok(()) => {},
            Err(error) => {
                return Err(error);
            },
        }
        i += 1;
    }
    Ok(())
}

/// What stands at the end of a path.
pub open spec fn at(tree: Tree, path: Seq<Tree>) -> Option<Tree>
    decreases path.len(),
{
    if path.len() == 0 {
        Some(tree)
    } else {
        match child_of(tree, path[0]) {
            Some(child) => at(child, path.drop_first()),
            None => None,
        }
    }
}

/// Two path elements lead from a node to different places.
pub open spec fn apart(node: Tree, left: Tree, right: Tree) -> bool {
    match node {
        Tree::Object(_) => left.as_text() != right.as_text(),
        Tree::List(_) => index_of(left) != index_of(right),
        _ => true,
    }
}

/// A snapshot replaces whatever was there.
pub proof fn law_snapshot_replaces(left: Option<(u64, Tree)>, right: Option<(u64, Tree)>, change: Tree)
    ensures
        change.text_at("type"@) == Some("snapshot"@) ==> applied(left, change) == applied(
            right,
            change,
        ),
{
}

/// An empty mirror comes back with a snapshot and with nothing else, and then
/// holds what the snapshot holds.
pub proof fn law_only_a_snapshot_recovers(change: Tree)
    ensures
        applied(None, change) matches Ok((revision, state)) ==> {
            &&& change.text_at("type"@) == Some("snapshot"@)
            &&& change.unsigned_at("revision"@) == Some(revision)
            &&& change.get("conversationState"@) == Some(state)
        },
{
}

/// The mirror is at the revision of the change it last took.
pub proof fn law_revision_follows_the_change(current: Option<(u64, Tree)>, change: Tree)
    ensures
        applied(current, change) matches Ok((revision, _)) ==> change.unsigned_at("revision"@)
            == Some(revision),
{
}

/// Patches are taken only on top of the revision that they were made from.
pub proof fn law_patches_fit_their_base(current: Option<(u64, Tree)>, change: Tree)
    ensures
        change.text_at("type"@) == Some("patches"@) && applied(current, change) is Ok ==> {
            &&& current matches Some((revision, _))
            &&& change.unsigned_at("baseRevision"@) == Some(revision)
        },
{
    assert("patches"@ != "snapshot"@) by {
        reveal_strlit("patches");
        reveal_strlit("snapshot");
        assert("patches"@.len() != "snapshot"@.len());
    }
}

/// Patches that come in two runs do what they do in one.
pub proof fn law_runs_of_patches_join(state: Tree, first: Seq<Tree>, second: Seq<Tree>)
    ensures
        patched_all(state, first + second) == (match patched_all(state, first) {
            Ok(middle) => patched_all(middle, second),
            Err(fault) => Err(fault),
        }),
    decreases first.len(),
{
    if first.len() == 0 {
        assert(first + second =~= second);
    } else {
        assert((first + second)[0] == first[0]);
        assert((first + second).drop_first() =~= first.drop_first() + second);
        if let Ok(next) = patched(state, first[0]) {
            law_runs_of_patches_join(next, first.drop_first(), second);
        }
    }
}

/// A numeric string addresses the same element of an array as the number.
pub proof fn law_numeric_strings_address_the_same_element(number: u64)
    ensures
        index_of(Tree::Text(text::digits(number as nat))) == index_of(Tree::Integer(number as int)),
{
    crate::text::lemma_digits_are_read_back(number as nat);
}

/// A patch changes nothing off its path: what another path leads to is the
/// same before and after, if the two part before the end of the patch's path,
/// or at its end in an object.
pub proof fn law_patches_stay_on_their_path(
    node: Tree,
    path: Seq<Tree>,
    other: Seq<Tree>,
    shared: nat,
    op: Seq<char>,
    value: Option<Tree>,
)
    requires
        shared < path.len(),
        shared < other.len(),
        path.take(shared as int) == other.take(shared as int),
        at(node, path.take(shared as int)) matches Some(fork) && apart(
            fork,
            path[shared as int],
            other[shared as int],
        ) && (shared == path.len() - 1 ==> fork is Object),
    ensures
        edited_at(node, path, op, value) matches Ok(next) ==> at(next, other) == at(node, other),
    decreases shared,
{
    if shared > 0 {
        let down = path.drop_first();
        let aside = other.drop_first();
        let deeper = (shared - 1) as nat;
        assert(path.take(shared as int)[0] == path[0]);
        assert(other.take(shared as int)[0] == other[0]);
        assert(path.take(shared as int).drop_first() =~= down.take(deeper as int));
        assert(other.take(shared as int).drop_first() =~= aside.take(deeper as int));
        let child = child_of(node, path[0])->0;
        law_patches_stay_on_their_path(child, down, aside, deeper, op, value);
    } else {
        assert(path.take(0) =~= Seq::<Tree>::empty());
    }
}

/// What a patch writes is there afterwards: `add` and `replace` of a member,
/// at whatever depth, leave their value at the path.
pub proof fn law_a_written_member_is_there(
    node: Tree,
    path: Seq<Tree>,
    op: Seq<char>,
    value: Tree,
)
    requires
        path.len() > 0,
        at(node, path.drop_last()) matches Some(parent) && parent is Object,
        path.last().as_text() is Some,
        op == "add"@ || op == "replace"@,
    ensures
        edited_at(node, path, op, Some(value)) matches Ok(next) && at(next, path) == Some(value),
    decreases path.len(),
{
    if path.len() == 1 {
        assert(path.drop_last() =~= Seq::<Tree>::empty());
        let next = edited_at(node, path, op, Some(value))->Ok_0;
        assert(child_of(next, path[0]) == Some(value));
        assert(path.drop_first() =~= Seq::<Tree>::empty());
        reveal_with_fuel(at, 2);
    } else {
        let child = child_of(node, path[0])->0;
        let down = path.drop_first();
        lemma_down(node, path);
        law_a_written_member_is_there(child, down, op, value);
    }
}

/// A removed member is gone, at whatever depth, and removing it again changes
/// nothing.
pub proof fn law_a_removed_member_is_gone(node: Tree, path: Seq<Tree>, value: Option<Tree>)
    requires
        path.len() > 0,
        at(node, path.drop_last()) matches Some(parent) && parent is Object,
        path.last().as_text() is Some,
    ensures
        edited_at(node, path, "remove"@, value) matches Ok(next) && at(next, path) is None
            && edited_at(next, path, "remove"@, value) == Ok::<Tree, Seq<char>>(next),
    decreases path.len(),
{
    lemma_ops_differ();
    let next = edited_at(node, path, "remove"@, value)->Ok_0;
    if path.len() == 1 {
        assert(path.drop_last() =~= Seq::<Tree>::empty());
        assert(next->Object_0.remove(path[0].as_text()->0) =~= next->Object_0);
    } else {
        let child = child_of(node, path[0])->0;
        let down = path.drop_first();
        lemma_down(node, path);
        law_a_removed_member_is_gone(child, down, value);
        let edited = edited_at(child, down, "remove"@, value)->Ok_0;
        lemma_child_again(node, path[0], edited, edited);
    }
}

/// On an array, at whatever depth, `remove` undoes `add`.
pub proof fn law_remove_undoes_add(node: Tree, path: Seq<Tree>, value: Tree)
    requires
        path.len() > 0,
        at(node, path.drop_last()) matches Some(Tree::List(items)) && index_of(
            path.last(),
        ) matches Some(place) && place <= items.len(),
    ensures
        edited_at(node, path, "add"@, Some(value)) matches Ok(next) && at(next, path) == Some(value)
            && edited_at(next, path, "remove"@, None) == Ok::<Tree, Seq<char>>(node),
    decreases path.len(),
{
    lemma_ops_differ();
    let next = edited_at(node, path, "add"@, Some(value))->Ok_0;
    if path.len() == 1 {
        let place = index_of(path[0])->0 as int;
        assert(path.drop_last() =~= Seq::<Tree>::empty());
        assert(path.drop_first() =~= Seq::<Tree>::empty());
        reveal_with_fuel(at, 2);
        assert(next->List_0.remove(place) =~= node->List_0);
    } else {
        let child = child_of(node, path[0])->0;
        let down = path.drop_first();
        lemma_down(node, path);
        law_remove_undoes_add(child, down, value);
        let edited = edited_at(child, down, "add"@, Some(value))->Ok_0;
        lemma_child_again(node, path[0], edited, child);
    }
}

/// On an array, at whatever depth, `add` of what was there undoes `remove`.
pub proof fn law_add_undoes_remove(node: Tree, path: Seq<Tree>)
    requires
        path.len() > 0,
        at(node, path.drop_last()) matches Some(Tree::List(items)) && index_of(
            path.last(),
        ) matches Some(place) && place < items.len(),
    ensures
        edited_at(node, path, "remove"@, None) matches Ok(next) && at(node, path) is Some
            && edited_at(next, path, "add"@, at(node, path)) == Ok::<Tree, Seq<char>>(node),
    decreases path.len(),
{
    lemma_ops_differ();
    let next = edited_at(node, path, "remove"@, None)->Ok_0;
    if path.len() == 1 {
        let place = index_of(path[0])->0 as int;
        assert(path.drop_last() =~= Seq::<Tree>::empty());
        assert(path.drop_first() =~= Seq::<Tree>::empty());
        reveal_with_fuel(at, 2);
        assert(next->List_0.insert(place, node->List_0[place]) =~= node->List_0);
    } else {
        let child = child_of(node, path[0])->0;
        let down = path.drop_first();
        lemma_down(node, path);
        law_add_undoes_remove(child, down);
        let edited = edited_at(child, down, "remove"@, None)->Ok_0;
        lemma_child_again(node, path[0], edited, child);
    }
}

/// A path leads on from the child that its first element gives.
proof fn lemma_down(node: Tree, path: Seq<Tree>)
    requires
        path.len() > 1,
    ensures
        path.drop_first().last() == path.last(),
        at(node, path.drop_last()) == (match child_of(node, path[0]) {
            Some(child) => at(child, path.drop_first().drop_last()),
            None => None,
        }),
{
    assert(path.drop_last()[0] == path[0]);
    assert(path.drop_last().drop_first() =~= path.drop_first().drop_last());
}

/// A child that is put in place is there, and putting in another, or the first
/// one again, leaves no trace of it.
proof fn lemma_child_again(node: Tree, key: Tree, child: Tree, last: Tree)
    requires
        child_of(node, key) is Some,
    ensures
        child_of(with_child(node, key, child), key) == Some(child),
        with_child(with_child(node, key, child), key, last) == with_child(node, key, last),
        with_child(node, key, child_of(node, key)->0) == node,
{
    match node {
        Tree::Object(members) => {
            let name = key.as_text()->0;
            assert(members.insert(name, child).insert(name, last) =~= members.insert(name, last));
            assert(members.insert(name, members[name]) =~= members);
        },
        Tree::List(items) => {
            let place = index_of(key)->0 as int;
            assert(items.update(place, child).update(place, last) =~= items.update(place, last));
            assert(items.update(place, items[place]) =~= items);
        },
        _ => {},
    }
}

/// What a mirror holds after a run of changes.
pub open spec fn mirrored(current: Option<(u64, Tree)>, changes: Seq<Tree>) -> Option<(u64, Tree)>
    decreases changes.len(),
{
    if changes.len() == 0 {
        current
    } else {
        match applied(mirrored(current, changes.drop_last()), changes.last()) {
            Ok(next) => Some(next),
            Err(_) => None,
        }
    }
}

/// Whether a change is a snapshot of the owner's state at a revision.
pub open spec fn is_snapshot_of(change: Tree, owner: (u64, Tree)) -> bool {
    &&& change.text_at("type"@) == Some("snapshot"@)
    &&& change.unsigned_at("revision"@) == Some(owner.0)
    &&& change.get("conversationState"@) == Some(owner.1)
}

/// Whether a change holds patches that lead from one state of the owner to
/// another.
pub open spec fn are_patches_between(change: Tree, before: (u64, Tree), after: (u64, Tree)) -> bool {
    &&& change.text_at("type"@) == Some("patches"@)
    &&& change.unsigned_at("revision"@) == Some(after.0)
    &&& change.unsigned_at("baseRevision"@) == Some(before.0)
    &&& change.list_at("patches"@) matches Some(patches) && patched_all(before.1, patches) == Ok::<
        Tree,
        Fault,
    >(after.1)
}

/// A mirror keeps up with the owner: after a snapshot, and any number of
/// changes that each lead from one of the owner's states to its next, it is
/// at the owner's last revision and holds the owner's last state.
pub proof fn law_the_mirror_keeps_up(
    current: Option<(u64, Tree)>,
    changes: Seq<Tree>,
    owner: Seq<(u64, Tree)>,
)
    requires
        changes.len() == owner.len(),
        changes.len() > 0,
        is_snapshot_of(changes[0], owner[0]),
        forall|i: int|
            0 < i < changes.len() ==> is_snapshot_of(#[trigger] changes[i], owner[i])
                || are_patches_between(changes[i], owner[i - 1], owner[i]),
    ensures
        mirrored(current, changes) == Some(owner.last()),
    decreases changes.len(),
{
    reveal_strlit("snapshot");
    reveal_strlit("patches");
    assert("snapshot"@.len() != "patches"@.len());
    if changes.len() > 1 {
        let last = changes.len() - 1;
        assert(is_snapshot_of(changes[last], owner[last]) || are_patches_between(
            changes[last],
            owner[last - 1],
            owner[last],
        ));
        law_the_mirror_keeps_up(current, changes.drop_last(), owner.drop_last());
    }
}

/// A mirror that is empty stays empty until a snapshot comes.
pub proof fn law_without_a_snapshot_it_stays_empty(changes: Seq<Tree>)
    requires
        forall|i: int|
            0 <= i < changes.len() ==> (#[trigger] changes[i]).text_at("type"@) != Some(
                "snapshot"@,
            ),
    ensures
        mirrored(None, changes) is None,
    decreases changes.len(),
{
    if changes.len() > 0 {
        assert(changes.last() == changes[changes.len() - 1]);
        law_without_a_snapshot_it_stays_empty(changes.drop_last());
    }
}

/// The operations have different names.
proof fn lemma_ops_differ()
    ensures
        "add"@ != "remove"@,
        "add"@ != "replace"@,
        "remove"@ != "replace"@,
{
    reveal_strlit("add");
    reveal_strlit("remove");
    reveal_strlit("replace");
    assert("add"@.len() != "remove"@.len());
    assert("add"@.len() != "replace"@.len());
    assert("remove"@.len() != "replace"@.len());
}

}
