//! Patches and changes of a mirrored conversation.

use vstd::prelude::*;

use crate::json::{self, Tree};
use crate::mirror::{self, Fault};
use crate::text;

verus! {

/// Within an object a text leads to the member of that name, and nothing else
/// leads anywhere; within a list a place leads to the item there; nothing leads
/// on from any other value.
pub proof fn law_a_path_element_leads_to_what_it_names(
    members: Map<Seq<char>, Tree>,
    items: Seq<Tree>,
    leaf: Tree,
    key: Tree,
    name: Seq<char>,
    place: usize,
)
    ensures
        mirror::child_of(Tree::Object(members), Tree::Text(name)) == Tree::Object(members).get(name),
        !(key is Text) ==> mirror::child_of(Tree::Object(members), key) is None,
        mirror::index_of(key) == Some(place) && place < items.len() ==> mirror::child_of(
            Tree::List(items),
            key,
        ) == Some(items[place as int]),
        mirror::index_of(key) == Some(place) && place >= items.len() ==> mirror::child_of(
            Tree::List(items),
            key,
        ) is None,
        mirror::index_of(key) is None ==> mirror::child_of(Tree::List(items), key) is None,
        !(leaf is Object) && !(leaf is List) ==> mirror::child_of(leaf, key) is None,
{
}

/// A place in a list is given by an integer that is one, or by a text that
/// writes one, and by nothing else.
pub proof fn law_a_place_is_a_number_or_written_as_one(key: Tree, place: usize)
    ensures
        mirror::index_of(key) == Some(place) <==> (key == Tree::Integer(place as int) && place
            <= u64::MAX) || (key matches Tree::Text(written) && text::written_index(written)
            == Some(place)),
{
}

/// An edit happens at the end of its path, and what it gives stands there: it
/// fits exactly where the path up to its last element leads somewhere and the
/// edit fits there, and then that place holds what the edit gives there.
pub proof fn law_an_edit_happens_at_the_end_of_its_path(
    node: Tree,
    path: Seq<Tree>,
    op: Seq<char>,
    value: Option<Tree>,
)
    requires
        path.len() > 0,
    ensures
        ({
            let outcome = mirror::edited_at(node, path, op, value);
            match mirror::at(node, path.drop_last()) {
                None => outcome == Err::<Tree, Seq<char>>("missing parent"@),
                Some(parent) => match mirror::edited_at(parent, seq![path.last()], op, value) {
                    Ok(edited) => outcome matches Ok(next) && mirror::at(next, path.drop_last())
                        == Some(edited),
                    Err(why) => outcome == Err::<Tree, Seq<char>>(why),
                },
            }
        }),
    decreases path.len(),
{
    if path.len() == 1 {
        assert(path.drop_last() =~= Seq::<Tree>::empty());
        assert(path =~= seq![path.last()]);
    } else {
        let down = path.drop_first();
        let up = path.drop_last();
        assert(up[0] == path[0]);
        assert(up.drop_first() =~= down.drop_last());
        assert(down.last() == path.last());
        if let Some(child) = mirror::child_of(node, path[0]) {
            law_an_edit_happens_at_the_end_of_its_path(child, down, op, value);
            if let Ok(edited) = mirror::edited_at(child, down, op, value) {
                let next = mirror::with_child(node, path[0], edited);
                assert(mirror::child_of(next, path[0]) == Some(edited));
            }
        }
    }
}

/// A new length for a list, at whatever depth, leaves exactly that many items,
/// and they are the first ones that were there.
pub proof fn law_a_new_length_keeps_that_many_items(
    node: Tree,
    path: Seq<Tree>,
    items: Seq<Tree>,
    length: int,
)
    requires
        path.len() > 0,
        path.last() == Tree::Text("length"@),
        mirror::at(node, path.drop_last()) == Some(Tree::List(items)),
        0 <= length <= items.len(),
        length <= usize::MAX,
        length <= u64::MAX,
    ensures
        ({
            let outcome = mirror::edited_at(
                node,
                path,
                "replace"@,
                Some(Tree::Integer(length)),
            );
            outcome matches Ok(next) && mirror::at(next, path.drop_last()) matches Some(
                Tree::List(kept),
            ) && kept.len() == length && forall|i: int|
                0 <= i < length ==> #[trigger] kept[i] == items[i]
        }),
{
    law_an_edit_happens_at_the_end_of_its_path(
        node,
        path,
        "replace"@,
        Some(Tree::Integer(length)),
    );
}

/// A new length is refused where there is none, where it is no unsigned
/// number, and where it would make the list longer.
pub proof fn law_a_length_is_refused_for_a_reason(items: Seq<Tree>, value: Option<Tree>)
    ensures
        ({
            let outcome = mirror::edited_at(
                Tree::List(items),
                seq![Tree::Text("length"@)],
                "replace"@,
                value,
            );
            &&& value is None ==> outcome == Err::<Tree, Seq<char>>("no value"@)
            &&& value matches Some(given) ==> (given.as_unsigned() is None ==> outcome == Err::<
                Tree,
                Seq<char>,
            >("length is not a number"@))
            &&& value matches Some(given) ==> (given.as_unsigned() matches Some(length) ==> {
                &&& length > usize::MAX ==> outcome == Err::<Tree, Seq<char>>("length too large"@)
                &&& items.len() < length <= usize::MAX ==> outcome == Err::<Tree, Seq<char>>(
                    "length grows the array"@,
                )
            })
        }),
{
}

/// An item that is added to a list, at whatever depth, stands at its place; the
/// items before it stay where they were, and those from there on move one
/// place on.
pub proof fn law_an_added_item_moves_the_later_ones_on(
    node: Tree,
    path: Seq<Tree>,
    items: Seq<Tree>,
    place: usize,
    value: Tree,
)
    requires
        path.len() > 0,
        mirror::index_of(path.last()) == Some(place),
        mirror::at(node, path.drop_last()) == Some(Tree::List(items)),
        place <= items.len(),
    ensures
        mirror::edited_at(node, path, "add"@, Some(value)) matches Ok(next) && mirror::at(
            next,
            path.drop_last(),
        ) matches Some(Tree::List(now)) && {
            &&& now.len() == items.len() + 1
            &&& now[place as int] == value
            &&& forall|i: int| 0 <= i < place ==> #[trigger] now[i] == items[i]
            &&& forall|i: int| place < i < now.len() ==> #[trigger] now[i] == items[i - 1]
        },
{
    lemma_ops_differ();
    law_an_edit_happens_at_the_end_of_its_path(node, path, "add"@, Some(value));
}

/// An item of a list that is replaced, at whatever depth, is the new value; all
/// the others stay as and where they were.
pub proof fn law_a_replaced_item_leaves_the_others(
    node: Tree,
    path: Seq<Tree>,
    items: Seq<Tree>,
    place: usize,
    value: Tree,
)
    requires
        path.len() > 0,
        mirror::index_of(path.last()) == Some(place),
        mirror::at(node, path.drop_last()) == Some(Tree::List(items)),
        place < items.len(),
    ensures
        mirror::edited_at(node, path, "replace"@, Some(value)) matches Ok(next) && mirror::at(
            next,
            path.drop_last(),
        ) matches Some(Tree::List(now)) && {
            &&& now.len() == items.len()
            &&& now[place as int] == value
            &&& forall|i: int| 0 <= i < now.len() && i != place ==> #[trigger] now[i] == items[i]
        },
{
    lemma_ops_differ();
    lemma_length_is_no_place(path.last());
    law_an_edit_happens_at_the_end_of_its_path(node, path, "replace"@, Some(value));
}

/// An item of a list that is removed, at whatever depth, is the only one that
/// goes: the items before it stay where they were, and those behind it move
/// one place up.
pub proof fn law_a_removed_item_moves_the_later_ones_up(
    node: Tree,
    path: Seq<Tree>,
    items: Seq<Tree>,
    place: usize,
    value: Option<Tree>,
)
    requires
        path.len() > 0,
        mirror::index_of(path.last()) == Some(place),
        mirror::at(node, path.drop_last()) == Some(Tree::List(items)),
        place < items.len(),
    ensures
        mirror::edited_at(node, path, "remove"@, value) matches Ok(next) && mirror::at(
            next,
            path.drop_last(),
        ) matches Some(Tree::List(now)) && {
            &&& now.len() == items.len() - 1
            &&& forall|i: int| 0 <= i < place ==> #[trigger] now[i] == items[i]
            &&& forall|i: int| place <= i < now.len() ==> #[trigger] now[i] == items[i + 1]
        },
{
    lemma_ops_differ();
    law_an_edit_happens_at_the_end_of_its_path(node, path, "remove"@, value);
}

/// An edit of a list is refused where its path element is no place, where it
/// adds behind the end, where it replaces or removes what is not there, where
/// what it is to write is missing, and where it is none of the three.
pub proof fn law_a_list_refuses_what_does_not_fit(
    items: Seq<Tree>,
    key: Tree,
    op: Seq<char>,
    value: Option<Tree>,
)
    ensures
        ({
            let outcome = mirror::edited_at(Tree::List(items), seq![key], op, value);
            let length = key == Tree::Text("length"@) && op == "replace"@;
            &&& !length && mirror::index_of(key) is None ==> outcome == Err::<Tree, Seq<char>>(
                "non-index key"@,
            )
            &&& mirror::index_of(key) matches Some(place) ==> !length ==> {
                let fits = (op == "add"@ && place <= items.len()) || (op == "replace"@ && place
                    < items.len()) || (op == "remove"@ && place < items.len());
                &&& !fits ==> outcome == Err::<Tree, Seq<char>>(
                    "index out of range or unknown op"@,
                )
                &&& fits && op != "remove"@ && value is None ==> outcome == Err::<Tree, Seq<char>>(
                    "no value"@,
                )
                &&& fits && (op == "remove"@ || value is Some) ==> outcome is Ok
            }
        }),
{
    lemma_ops_differ();
}

/// A member that is added or replaced, at whatever depth, is the new value; one
/// that is removed is gone; all the others stay as they were. Nothing else can
/// be done to an object, and only by names.
pub proof fn law_a_member_is_edited_alone(
    node: Tree,
    path: Seq<Tree>,
    members: Map<Seq<char>, Tree>,
    op: Seq<char>,
    value: Option<Tree>,
    other: Seq<char>,
)
    requires
        path.len() > 0,
        mirror::at(node, path.drop_last()) == Some(Tree::Object(members)),
    ensures
        ({
            let outcome = mirror::edited_at(node, path, op, value);
            let writes = op == "add"@ || op == "replace"@;
            &&& !(path.last() is Text) ==> outcome == Err::<Tree, Seq<char>>("non-string key"@)
            &&& path.last() matches Tree::Text(name) ==> {
                &&& writes && value is None ==> outcome == Err::<Tree, Seq<char>>("no value"@)
                &&& !writes && op != "remove"@ ==> outcome == Err::<Tree, Seq<char>>("unknown op"@)
                &&& writes && value is Some || op == "remove"@ ==> (outcome matches Ok(next)
                    && mirror::at(next, path.drop_last()) matches Some(Tree::Object(now)) && {
                    &&& op == "remove"@ ==> !now.contains_key(name)
                    &&& writes ==> now.contains_key(name) && now[name] == value->0
                    &&& other != name ==> now.contains_key(other) == members.contains_key(other)
                    &&& other != name && members.contains_key(other) ==> now[other]
                        == members[other]
                })
            }
        }),
{
    lemma_ops_differ();
    law_an_edit_happens_at_the_end_of_its_path(node, path, op, value);
}

/// What is neither an object nor a list cannot be edited.
pub proof fn law_only_containers_are_edited(
    leaf: Tree,
    key: Tree,
    op: Seq<char>,
    value: Option<Tree>,
)
    requires
        !(leaf is Object),
        !(leaf is List),
    ensures
        mirror::edited_at(leaf, seq![key], op, value) == Err::<Tree, Seq<char>>(
            "parent is not a container"@,
        ),
{
}

/// A patch edits at its `path` by its `op` with its `value`; with an empty path
/// it replaces everything, and nothing else; without an operation or a path it
/// is refused.
pub proof fn law_a_patch_does_what_it_says(
    state: Tree,
    patch: Tree,
    op: Seq<char>,
    path: Seq<Tree>,
)
    ensures
        !(patch.get("op"@) matches Some(Tree::Text(_))) ==> mirror::patched(state, patch) == Err::<
            Tree,
            Seq<char>,
        >("no op"@),
        patch.get("op"@) == Some(Tree::Text(op)) ==> {
            &&& !(patch.get("path"@) matches Some(Tree::List(_))) ==> mirror::patched(state, patch)
                == Err::<Tree, Seq<char>>("no path"@)
            &&& patch.get("path"@) == Some(Tree::List(path)) && path.len() > 0 ==> mirror::patched(
                state,
                patch,
            ) == mirror::edited_at(state, path, op, patch.get("value"@))
            &&& patch.get("path"@) == Some(Tree::List(path)) && path.len() == 0 ==> {
                &&& op != "replace"@ ==> mirror::patched(state, patch) == Err::<Tree, Seq<char>>(
                    "empty path"@,
                )
                &&& op == "replace"@ ==> mirror::patched(state, patch) == (match patch.get(
                    "value"@,
                ) {
                    Some(value) => Ok::<Tree, Seq<char>>(value),
                    None => Err("no value"@),
                })
            }
        },
{
}

/// Patches are applied in their order, each to what the ones before it gave,
/// and the first that does not fit is the fault, quoted with its reason.
pub proof fn law_patches_are_applied_in_their_order(
    state: Tree,
    patches: Seq<Tree>,
    last: Tree,
)
    ensures
        mirror::patched_all(state, seq![]) == Ok::<Tree, Fault>(state),
        mirror::patched_all(state, patches.push(last)) == (match mirror::patched_all(
            state,
            patches,
        ) {
            Ok(middle) => match mirror::patched(middle, last) {
                Ok(next) => Ok(next),
                Err(why) => Err(Fault::BadPatch(why + ": "@ + json::json_text(last))),
            },
            Err(fault) => Err(fault),
        }),
{
    mirror::law_runs_of_patches_join(state, patches, seq![last]);
    assert(patches + seq![last] =~= patches.push(last));
    reveal_with_fuel(mirror::patched_all, 2);
    assert(seq![last].drop_first() =~= Seq::<Tree>::empty());
}

/// A snapshot is taken as it is, whatever was there: its revision and its
/// state. Without either it is malformed.
pub proof fn law_a_snapshot_is_taken_as_it_is(
    current: Option<(u64, Tree)>,
    change: Tree,
    revision: u64,
    state: Tree,
)
    requires
        change.get("type"@) == Some(Tree::Text("snapshot"@)),
    ensures
        change.get("revision"@) == Some(Tree::Integer(revision as int)) && change.get(
            "conversationState"@,
        ) == Some(state) ==> mirror::applied(current, change) == Ok::<(u64, Tree), Fault>(
            (revision, state),
        ),
        change.get("conversationState"@) is None || change.unsigned_at("revision"@) is None
            ==> mirror::applied(current, change) matches Err(Fault::Malformed(_)),
{
}

/// Patches are taken onto the state that they were made from, and give the
/// state that they lead to at the revision that they name.
pub proof fn law_patches_lead_from_their_base_to_their_revision(
    change: Tree,
    base: u64,
    state: Tree,
    revision: u64,
    patches: Seq<Tree>,
)
    requires
        change.get("type"@) == Some(Tree::Text("patches"@)),
        change.get("revision"@) == Some(Tree::Integer(revision as int)),
        change.get("baseRevision"@) == Some(Tree::Integer(base as int)),
        change.get("patches"@) == Some(Tree::List(patches)),
    ensures
        mirror::applied(Some((base, state)), change) == (match mirror::patched_all(
            state,
            patches,
        ) {
            Ok(next) => Ok::<(u64, Tree), Fault>((revision, next)),
            Err(fault) => Err(fault),
        }),
{
    lemma_changes_differ();
}

/// Patches on top of nothing, and patches made from another revision than the
/// mirror is at, are refused as that; a change that lacks a part, or is of no
/// known type, is malformed.
pub proof fn law_a_change_is_refused_for_a_reason(
    current: Option<(u64, Tree)>,
    change: Tree,
    base: u64,
)
    ensures
        change.unsigned_at("revision"@) is None ==> mirror::applied(current, change) == Err::<
            (u64, Tree),
            Fault,
        >(Fault::Malformed("missing "@ + "revision"@)),
        change.unsigned_at("revision"@) is Some && change.get("type"@) == Some(
            Tree::Text("patches"@),
        ) ==> {
            &&& change.unsigned_at("baseRevision"@) is None ==> mirror::applied(current, change)
                == Err::<(u64, Tree), Fault>(Fault::Malformed("missing "@ + "baseRevision"@))
            &&& change.unsigned_at("baseRevision"@) == Some(base) ==> {
                &&& current is None ==> mirror::applied(current, change) == Err::<
                    (u64, Tree),
                    Fault,
                >(Fault::NoSnapshot)
                &&& current matches Some((at, _)) ==> {
                    &&& at != base ==> mirror::applied(current, change) == Err::<
                        (u64, Tree),
                        Fault,
                    >(Fault::RevisionGap { expected: at, got: base })
                    &&& at == base && change.list_at("patches"@) is None ==> mirror::applied(
                        current,
                        change,
                    ) == Err::<(u64, Tree), Fault>(Fault::Malformed("patches is not a list"@))
                }
            }
        },
        change.unsigned_at("revision"@) is Some && change.text_at("type"@) != Some("snapshot"@)
            && change.text_at("type"@) != Some("patches"@) ==> mirror::applied(current, change)
            == Err::<(u64, Tree), Fault>(
            Fault::Malformed(
                match change.text_at("type"@) {
                    Some(kind) => "change type Some("@ + text::quoted(kind) + ")"@,
                    None => "change type None"@,
                },
            ),
        ),
        change.unsigned_at("revision"@) is Some && change.text_at("type"@) == Some("snapshot"@)
            && change.get("conversationState"@) is None ==> mirror::applied(current, change)
            == Err::<(u64, Tree), Fault>(Fault::Malformed("snapshot without state"@)),
{
    lemma_changes_differ();
}

/// A mirror holds what a change that it takes gives, and nothing after one that
/// it cannot take, so that the next patches find no snapshot.
pub proof fn law_a_mirror_is_emptied_by_what_it_cannot_take(
    current: Option<(u64, Tree)>,
    change: Tree,
    next: (u64, Tree),
    later: Tree,
)
    ensures
        mirror::applied(current, change) == Ok::<(u64, Tree), Fault>(next) ==> mirror::held_after(
            current,
            change,
        ) == Some(next),
        mirror::applied(current, change) is Err ==> mirror::held_after(current, change) is None,
        mirror::applied(current, change) is Err && later.get("type"@) == Some(
            Tree::Text("patches"@),
        ) && later.unsigned_at("revision"@) is Some && later.unsigned_at("baseRevision"@) is Some
            ==> mirror::applied(mirror::held_after(current, change), later) == Err::<
            (u64, Tree),
            Fault,
        >(Fault::NoSnapshot),
{
    lemma_changes_differ();
}

/// A fault in words tells its kind, and holds what it is about: the two
/// revisions each in its place, or the reason.
pub proof fn law_a_fault_says_what_is_wrong(expected: u64, got: u64, why: Seq<char>)
    ensures
        Fault::NoSnapshot.message() == "patches arrived before any snapshot"@,
        (Fault::RevisionGap { expected, got }).message() == "patches were based on revision "@
            + text::digits(got as nat) + ", but the mirror is at "@ + text::digits(expected as nat),
        Fault::BadPatch(why).message() == "patch does not fit the mirrored state: "@ + why,
        Fault::Malformed(why).message() == "stream change is malformed: "@ + why,
{
}

proof fn lemma_ops_differ()
    ensures
        "add"@ != "replace"@,
        "add"@ != "remove"@,
        "replace"@ != "remove"@,
{
    reveal_strlit("add");
    reveal_strlit("replace");
    reveal_strlit("remove");
    assert("add"@.len() == 3 && "replace"@.len() == 7 && "remove"@.len() == 6);
}

proof fn lemma_changes_differ()
    ensures
        "patches"@ != "snapshot"@,
{
    reveal_strlit("patches");
    reveal_strlit("snapshot");
    assert("patches"@.len() == 7 && "snapshot"@.len() == 8);
}

proof fn lemma_length_is_no_place(key: Tree)
    requires
        mirror::index_of(key) is Some,
    ensures
        key != Tree::Text("length"@),
{
    reveal_strlit("length");
    if key == Tree::Text("length"@) {
        assert("length"@[0] == 'l');
        assert(text::without_plus("length"@) == "length"@);
        assert(!text::is_digit("length"@[0]));
    }
}

}
