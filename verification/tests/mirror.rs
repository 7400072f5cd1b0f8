//! The local copy of a conversation.

use overterm_codex::json::Json;
use overterm_codex::mirror::{apply_patch, Mirror, MirrorError};

fn json(text: &str) -> Json {
    Json::from_text(text).expect("JSON")
}

fn snapshot(revision: u64, state: &str) -> Json {
    json(&format!(
        r#"{{"type": "snapshot", "revision": {revision}, "conversationState": {state}}}"#
    ))
}

fn patches(base: u64, revision: u64, patches: &str) -> Json {
    json(&format!(
        r#"{{"type": "patches", "baseRevision": {base}, "revision": {revision}, "patches": {patches}}}"#
    ))
}

fn mirrored(state: &str) -> Mirror {
    let mut mirror = Mirror::default();
    mirror.apply(&snapshot(1, state)).unwrap();
    mirror
}

#[test]
fn snapshot_replaces_whatever_was_there() {
    let mut mirror = mirrored(r#"{"a": 1}"#);
    mirror.apply(&snapshot(7, r#"{"b": 2}"#)).unwrap();
    assert_eq!(mirror.state(), Some(&json(r#"{"b": 2}"#)));
    assert_eq!(mirror.revision(), Some(7));
}

#[test]
fn object_patches_add_replace_and_remove_keys() {
    let mut mirror = mirrored(r#"{"status": {"type": "idle"}, "old": true}"#);
    mirror
        .apply(&patches(
            1,
            2,
            r#"[
                {"op": "replace", "path": ["status"], "value": {"type": "active"}},
                {"op": "add", "path": ["title"], "value": "New"},
                {"op": "remove", "path": ["old"]}
            ]"#,
        ))
        .unwrap();
    assert_eq!(
        mirror.state(),
        Some(&json(r#"{"status": {"type": "active"}, "title": "New"}"#))
    );
    assert_eq!(mirror.revision(), Some(2));
}

#[test]
fn array_patches_insert_set_remove_and_truncate() {
    let mut mirror = mirrored(r#"{"items": ["a", "c", "d", "e"]}"#);
    mirror
        .apply(&patches(
            1,
            2,
            r#"[
                {"op": "add", "path": ["items", 1], "value": "b"},
                {"op": "replace", "path": ["items", 0], "value": "A"},
                {"op": "remove", "path": ["items", 4]},
                {"op": "replace", "path": ["items", "length"], "value": 3}
            ]"#,
        ))
        .unwrap();
    assert_eq!(
        mirror.state(),
        Some(&json(r#"{"items": ["A", "b", "c"]}"#))
    );
}

#[test]
fn patches_before_a_snapshot_are_refused() {
    let mut mirror = Mirror::default();
    assert_eq!(
        mirror.apply(&patches(0, 1, "[]")),
        Err(MirrorError::NoSnapshot)
    );
}

#[test]
fn a_revision_gap_empties_the_mirror() {
    let mut mirror = mirrored(r#"{"a": 1}"#);
    assert_eq!(
        mirror.apply(&patches(4, 5, "[]")),
        Err(MirrorError::RevisionGap {
            expected: 1,
            got: 4
        })
    );
    assert_eq!(mirror.state(), None);
}

#[test]
fn a_patch_into_a_missing_parent_empties_the_mirror() {
    let mut mirror = mirrored(r#"{"a": 1}"#);
    let result = mirror.apply(&patches(
        1,
        2,
        r#"[{"op": "replace", "path": ["missing", "x"], "value": 1}]"#,
    ));
    assert!(matches!(result, Err(MirrorError::BadPatch(_))));
    assert_eq!(mirror.state(), None);
}

#[test]
fn unknown_change_types_are_malformed() {
    let mut mirror = mirrored("{}");
    assert!(matches!(
        mirror.apply(&json(r#"{"type": "rewind"}"#)),
        Err(MirrorError::Malformed(_))
    ));
}

fn bad(state: &str, patch: &str) -> String {
    let mut state = json(state);
    match apply_patch(&mut state, &json(patch)) {
        Err(MirrorError::BadPatch(why)) => why,
        other => panic!("not a bad patch: {other:?}"),
    }
}

#[test]
fn every_bad_patch_says_why_and_quotes_the_patch() {
    assert_eq!(bad("{}", r#"{"path":[]}"#), r#"no op: {"path":[]}"#);
    assert_eq!(bad("{}", r#"{"op":"add"}"#), r#"no path: {"op":"add"}"#);
    assert_eq!(
        bad("{}", r#"{"op":"add","path":["a"]}"#),
        r#"no value: {"op":"add","path":["a"]}"#
    );
    assert_eq!(
        bad("{}", r#"{"op":"remove","path":[]}"#),
        r#"empty path: {"op":"remove","path":[]}"#
    );
    assert_eq!(
        bad("{}", r#"{"op":"remove","path":["a","b"]}"#),
        r#"missing parent: {"op":"remove","path":["a","b"]}"#
    );
    assert_eq!(
        bad("{}", r#"{"op":"remove","path":[1]}"#),
        r#"non-string key: {"op":"remove","path":[1]}"#
    );
    assert_eq!(
        bad("{}", r#"{"op":"move","path":["a"]}"#),
        r#"unknown op: {"op":"move","path":["a"]}"#
    );
    assert_eq!(
        bad("[]", r#"{"op":"replace","path":["length"],"value":"x"}"#),
        r#"length is not a number: {"op":"replace","path":["length"],"value":"x"}"#
    );
    assert_eq!(
        bad("[]", r#"{"op":"replace","path":["length"],"value":1}"#),
        r#"length grows the array: {"op":"replace","path":["length"],"value":1}"#
    );
    assert_eq!(
        bad("[]", r#"{"op":"remove","path":["x"]}"#),
        r#"non-index key: {"op":"remove","path":["x"]}"#
    );
    assert_eq!(
        bad("[]", r#"{"op":"remove","path":[0]}"#),
        r#"index out of range or unknown op: {"op":"remove","path":[0]}"#
    );
    assert_eq!(
        bad("1", r#"{"op":"remove","path":["a"]}"#),
        r#"parent is not a container: {"op":"remove","path":["a"]}"#
    );
}

#[test]
fn an_empty_path_replaces_the_whole_state() {
    let mut state = json(r#"{"a": 1}"#);
    apply_patch(&mut state, &json(r#"{"op":"replace","path":[],"value":[1,2]}"#)).unwrap();
    assert_eq!(state, json("[1, 2]"));
}

#[test]
fn numeric_strings_address_the_same_element() {
    for key in ["1", "\"1\"", "\"+1\"", "\"01\""] {
        let mut state = json(r#"["a", "b", "c"]"#);
        apply_patch(&mut state, &json(&format!(r#"{{"op":"remove","path":[{key}]}}"#))).unwrap();
        assert_eq!(state, json(r#"["a", "c"]"#));
    }
}

#[test]
fn removing_a_key_that_is_gone_changes_nothing() {
    let mut state = json(r#"{"a": 1}"#);
    apply_patch(&mut state, &json(r#"{"op":"remove","path":["b"]}"#)).unwrap();
    assert_eq!(state, json(r#"{"a": 1}"#));
}

#[test]
fn a_patch_leaves_the_rest_of_the_state_alone() {
    let mut state = json(r#"{"a": {"b": [1, {"c": 2}]}, "d": 3.25}"#);
    apply_patch(
        &mut state,
        &json(r#"{"op":"add","path":["a","b",1,"e"],"value":null}"#),
    )
    .unwrap();
    assert_eq!(
        state,
        json(r#"{"a": {"b": [1, {"c": 2, "e": null}]}, "d": 3.25}"#)
    );
}

#[test]
fn adding_and_removing_an_element_undo_each_other() {
    let mut state = json("[1, 2, 3]");
    apply_patch(&mut state, &json(r#"{"op":"add","path":[1],"value":9}"#)).unwrap();
    assert_eq!(state, json("[1, 9, 2, 3]"));
    apply_patch(&mut state, &json(r#"{"op":"remove","path":[1]}"#)).unwrap();
    assert_eq!(state, json("[1, 2, 3]"));
    apply_patch(&mut state, &json(r#"{"op":"remove","path":[1]}"#)).unwrap();
    apply_patch(&mut state, &json(r#"{"op":"add","path":[1],"value":2}"#)).unwrap();
    assert_eq!(state, json("[1, 2, 3]"));
}

#[test]
fn adding_and_removing_undo_each_other_deep_inside() {
    let before = r#"{"turns": [{"items": ["a", "c"]}], "n": 1}"#;
    let mut state = json(before);
    apply_patch(
        &mut state,
        &json(r#"{"op":"add","path":["turns",0,"items","1"],"value":"b"}"#),
    )
    .unwrap();
    assert_eq!(
        state,
        json(r#"{"turns": [{"items": ["a", "b", "c"]}], "n": 1}"#)
    );
    apply_patch(&mut state, &json(r#"{"op":"remove","path":["turns",0,"items",1]}"#)).unwrap();
    assert_eq!(state, json(before));
    apply_patch(&mut state, &json(r#"{"op":"remove","path":["turns",0,"items",0]}"#)).unwrap();
    apply_patch(
        &mut state,
        &json(r#"{"op":"add","path":["turns",0,"items",0],"value":"a"}"#),
    )
    .unwrap();
    assert_eq!(state, json(before));
}

#[test]
fn the_mirror_keeps_up_with_its_owner() {
    let mut mirror = Mirror::default();
    mirror.apply(&snapshot(3, r#"{"turns": []}"#)).unwrap();
    mirror
        .apply(&patches(
            3,
            4,
            r#"[{"op":"add","path":["turns",0],"value":{"id":"t"}}]"#,
        ))
        .unwrap();
    mirror
        .apply(&patches(
            4,
            9,
            r#"[{"op":"replace","path":["turns",0,"id"],"value":"u"}]"#,
        ))
        .unwrap();
    assert_eq!(mirror.revision(), Some(9));
    assert_eq!(mirror.state(), Some(&json(r#"{"turns": [{"id": "u"}]}"#)));
}

#[test]
fn an_emptied_mirror_comes_back_with_a_snapshot_only() {
    let mut mirror = mirrored("{}");
    assert!(mirror.apply(&json("{}")).is_err());
    assert_eq!(mirror.revision(), None);
    assert_eq!(
        mirror.apply(&patches(1, 2, "[]")),
        Err(MirrorError::NoSnapshot)
    );
    mirror.apply(&snapshot(5, "[1]")).unwrap();
    assert_eq!(mirror.state(), Some(&json("[1]")));
}

#[test]
fn malformed_changes_say_what_is_missing() {
    let mut mirror = mirrored("{}");
    assert_eq!(
        mirror.apply(&json("{}")),
        Err(MirrorError::Malformed("missing revision".into()))
    );
    assert_eq!(
        mirror.apply(&json(r#"{"revision": 1, "type": "snapshot"}"#)),
        Err(MirrorError::Malformed("snapshot without state".into()))
    );
    assert_eq!(
        mirror.apply(&json(r#"{"revision": 1, "type": "patches"}"#)),
        Err(MirrorError::Malformed("missing baseRevision".into()))
    );
    assert_eq!(
        mirror.apply(&json(r#"{"revision": 1}"#)),
        Err(MirrorError::Malformed("change type None".into()))
    );
    assert_eq!(
        mirror.apply(&json(r#"{"revision": 1, "type": "re\"wind\n"}"#)),
        Err(MirrorError::Malformed(
            r#"change type Some("re\"wind\n")"#.into()
        ))
    );
    let mut mirror = mirrored("{}");
    assert_eq!(
        mirror.apply(&patches(1, 2, "{}")),
        Err(MirrorError::Malformed("patches is not a list".into()))
    );
}

#[test]
fn mirror_errors_read_as_sentences() {
    assert_eq!(
        MirrorError::NoSnapshot.message(),
        "patches arrived before any snapshot"
    );
    assert_eq!(
        MirrorError::RevisionGap {
            expected: 1,
            got: 40
        }
        .message(),
        "patches were based on revision 40, but the mirror is at 1"
    );
    assert_eq!(
        MirrorError::BadPatch("no op: 1".into()).message(),
        "patch does not fit the mirrored state: no op: 1"
    );
    assert_eq!(
        MirrorError::Malformed("missing revision".into()).message(),
        "stream change is malformed: missing revision"
    );
}
