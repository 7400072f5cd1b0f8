//! What is shown of a thread: a few bounded metadata, never its contents.

use vstd::prelude::*;

use crate::json::{self, Json, Tree};
use crate::rpc::{self, bounded_method};
use crate::text::{chars_of, slice_text};

verus! {

broadcast use json::lemma_containers;

/// How many threads are asked for and shown.
pub const THREAD_LIMIT: u64 = 20;

/// How many characters of a title are shown.
pub const TITLE_LIMIT: usize = 120;

/// How many characters of a workspace name are shown.
pub const WORKSPACE_LIMIT: usize = 80;

#[derive(Debug)]
pub struct ThreadSummary {
    pub id: String,
    pub title: String,
    pub workspace: Option<String>,
    pub updated_at: Option<u64>,
    pub status: String,
}

/// What a `ThreadSummary` says.
pub struct Summary {
    pub id: Seq<char>,
    pub title: Seq<char>,
    pub workspace: Option<Seq<char>>,
    pub updated_at: Option<u64>,
    pub status: Seq<char>,
}

impl Clone for ThreadSummary {
    fn clone(&self) -> (copy: ThreadSummary)
        ensures
            copy@ == self@,
    {
        ThreadSummary {
            id: self.id.clone(),
            title: self.title.clone(),
            workspace: self.workspace.clone(),
            updated_at: self.updated_at,
            status: self.status.clone(),
        }
    }
}

impl View for ThreadSummary {
    type V = Summary;

    open spec fn view(&self) -> Summary {
        Summary {
            id: self.id@,
            title: self.title@,
            workspace: match self.workspace {
                Some(workspace) => Some(workspace@),
                None => None,
            },
            updated_at: self.updated_at,
            status: self.status@,
        }
    }
}

/// What follows the last slash of a path.
pub open spec fn last_segment(path: Seq<char>) -> Seq<char>
    decreases path.len(),
{
    if path.len() == 0 || path.last() == '/' {
        seq![]
    } else {
        last_segment(path.drop_last()).push(path.last())
    }
}

/// The text at `type` in the member `status`.
pub open spec fn status_type(value: Tree) -> Option<Seq<char>> {
    match value.get("status"@) {
        Some(status) => status.text_at("type"@),
        None => None,
    }
}

/// The last segment of the path at `cwd`; none where there is no path, or
/// where nothing follows its last slash.
pub open spec fn folder(value: Tree) -> Option<Seq<char>> {
    match value.text_at("cwd"@) {
        Some(path) => if last_segment(path).len() > 0 {
            Some(last_segment(path))
        } else {
            None
        },
        None => None,
    }
}

/// What is shown of a thread; nothing of one without an id.
pub open spec fn summarized(value: Tree) -> Option<Summary> {
    match value.text_at("id"@) {
        None => None,
        Some(id) => Some(
            Summary {
                id,
                title: rpc::clipped(
                    match value.text_at("name"@) {
                        Some(name) => name,
                        None => "Untitled thread"@,
                    },
                    TITLE_LIMIT as nat,
                ),
                workspace: match folder(value) {
                    Some(name) => Some(rpc::clipped(name, WORKSPACE_LIMIT as nat)),
                    None => None,
                },
                updated_at: value.unsigned_at("updatedAt"@),
                status: match status_type(value) {
                    Some(status) => rpc::bounded(status),
                    None => "unknown"@,
                },
            },
        ),
    }
}

/// The first characters of a text.
fn clip(text: &str, limit: usize) -> (short: String)
    ensures
        short@ == rpc::clipped(text@, limit as nat),
{
    let chars = chars_of(text);
    if chars.len() <= limit {
        text.to_owned()
    } else {
        let short = slice_text(&chars, 0, limit);
        assert(short@ =~= text@.take(limit as int));
        short
    }
}

/// The part of a path behind its last slash.
fn segment(path: &str) -> (name: String)
    ensures
        name@ == last_segment(path@),
{
    let chars = chars_of(path);
    let mut start: usize = chars.len();
    while start > 0 && chars[start - 1] != '/'
        invariant
            start <= chars@.len(),
            chars@ == path@,
            forall|i: int| start <= i < chars@.len() ==> chars@[i] != '/',
        decreases start,
    {
        start -= 1;
    }
    proof {
        lemma_segment(path@, start as int);
    }
    slice_text(&chars, start, chars.len())
}

proof fn lemma_segment(path: Seq<char>, start: int)
    requires
        0 <= start <= path.len(),
        start > 0 ==> path[start - 1] == '/',
        forall|i: int| start <= i < path.len() ==> path[i] != '/',
    ensures
        last_segment(path) == path.subrange(start, path.len() as int),
    decreases path.len(),
{
    if start == path.len() {
        assert(path.subrange(start, path.len() as int) =~= seq![]);
    } else {
        lemma_segment(path.drop_last(), start);
        assert(path.drop_last().subrange(start, path.len() - 1).push(path.last()) =~= path.subrange(
            start,
            path.len() as int,
        ));
    }
}

/// What is shown of a thread.
pub fn thread_summary(value: &Json) -> (summary: Option<ThreadSummary>)
    ensures
        match summary {
            Some(summary) => summarized(value@) == Some(summary@),
            None => summarized(value@) is None,
        },
{
    let id = match value.text_at("id") {
        Some(id) => id.to_owned(),
        None => {
            return None;
        },
    };
    let title = match value.text_at("name") {
        Some(name) => clip(name, TITLE_LIMIT),
        None => clip("Untitled thread", TITLE_LIMIT),
    };
    let workspace = match value.text_at("cwd") {
        Some(path) => {
            let name = segment(path);
            if name.as_str().is_empty() {
                None
            } else {
                Some(clip(name.as_str(), WORKSPACE_LIMIT))
            }
        },
        None => None,
    };
    let status = match value.get("status") {
        Some(status) => status.text_at("type"),
        None => None,
    };
    let status = match status {
        Some(status) => bounded_method(status),
        None => "unknown".to_owned(),
    };
    Some(ThreadSummary { id, title, workspace, updated_at: value.unsigned_at("updatedAt"), status })
}

/// What is shown of the threads in an answer: of the first ones, as many as
/// are asked for, those that can be shown.
pub open spec fn listed(answer: Tree) -> Seq<Summary> {
    match answer.list_at("data"@) {
        Some(items) => summaries(
            if items.len() <= THREAD_LIMIT {
                items
            } else {
                items.take(THREAD_LIMIT as int)
            },
        ),
        None => seq![],
    }
}

/// What is shown of some threads.
pub open spec fn summaries(items: Seq<Tree>) -> Seq<Summary>
    decreases items.len(),
{
    if items.len() == 0 {
        seq![]
    } else {
        match summarized(items.last()) {
            Some(summary) => summaries(items.drop_last()).push(summary),
            None => summaries(items.drop_last()),
        }
    }
}

/// The views of some summaries.
pub open spec fn shown(list: Seq<ThreadSummary>) -> Seq<Summary> {
    list.map_values(|summary: ThreadSummary| summary@)
}

/// What is shown of the threads in an answer to `thread/list`.
pub fn thread_summaries(answer: &Json) -> (list: Vec<ThreadSummary>)
    ensures
        shown(list@) == listed(answer@),
{
    let mut list: Vec<ThreadSummary> = Vec::new();
    let data = match answer.get("data") {
        Some(data) => data.as_array(),
        None => None,
    };
    let items = match data {
        Some(items) => items,
        None => {
            assert(shown(list@) =~= seq![]);
            return list;
        },
    };
    let count: usize = if items.len() <= THREAD_LIMIT as usize {
        items.len()
    } else {
        THREAD_LIMIT as usize
    };
    let ghost all = json::trees(items@);
    let mut i: usize = 0;
    assert(all.take(0) =~= seq![]);
    assert(shown(list@) =~= seq![]);
    while i < count
        invariant
            i <= count <= items@.len(),
            all == json::trees(items@),
            shown(list@) == summaries(all.take(i as int)),
        decreases count - i,
    {
        let ghost before = shown(list@);
        assert(all.take(i + 1).drop_last() =~= all.take(i as int));
        assert(all.take(i + 1).last() == items@[i as int]@);
        match thread_summary(&items[i]) {
            Some(summary) => {
                list.push(summary);
                assert(shown(list@) =~= before.push(summary@));
            },
            None => {},
        }
        i += 1;
    }
    assert(all.take(all.len() as int) =~= all);
    list
}

/// What is shown of a thread is bounded, and names no directory above its
/// workspace.
pub proof fn law_shown_metadata_are_bounded(value: Tree)
    ensures
        summarized(value) matches Some(summary) ==> {
            &&& summary.title.len() <= TITLE_LIMIT
            &&& summary.status.len() <= crate::rpc::NAME_LIMIT
            &&& summary.workspace matches Some(workspace) ==> {
                &&& 0 < workspace.len() <= WORKSPACE_LIMIT
                &&& !workspace.contains('/')
            }
        },
{
    if let Some(summary) = summarized(value) {
        if let Some(status) = status_type(value) {
            crate::rpc::law_kept_names_are_bounded(status);
        } else {
            reveal_strlit("unknown");
        }
        if let Some(path) = value.text_at("cwd"@) {
            lemma_segment_has_no_slash(path);
        }
    }
}

proof fn lemma_segment_has_no_slash(path: Seq<char>)
    ensures
        forall|i: int| 0 <= i < last_segment(path).len() ==> last_segment(path)[i] != '/',
    decreases path.len(),
{
    if path.len() > 0 && path.last() != '/' {
        let shorter = last_segment(path.drop_last());
        lemma_segment_has_no_slash(path.drop_last());
        assert forall|i: int| 0 <= i < last_segment(path).len() implies last_segment(path)[i]
            != '/' by {
            assert(last_segment(path) == shorter.push(path.last()));
            if i < shorter.len() {
                assert(shorter[i] != '/');
            }
        }
    }
}

/// What is shown depends on nothing but the id, the name, the time, the type
/// of the status and the last segment of the path: two threads that agree on
/// these are shown alike, whatever else they hold and wherever they lie.
pub proof fn law_nothing_else_is_shown(left: Tree, right: Tree)
    requires
        left.text_at("id"@) == right.text_at("id"@),
        left.text_at("name"@) == right.text_at("name"@),
        left.unsigned_at("updatedAt"@) == right.unsigned_at("updatedAt"@),
        status_type(left) == status_type(right),
        folder(left) == folder(right),
    ensures
        summarized(left) == summarized(right),
{
}

/// No more threads are shown than are asked for.
pub proof fn law_the_list_is_bounded(answer: Tree)
    ensures
        listed(answer).len() <= THREAD_LIMIT,
{
    if let Some(items) = answer.list_at("data"@) {
        if items.len() <= THREAD_LIMIT {
            lemma_summaries_len(items);
        } else {
            lemma_summaries_len(items.take(THREAD_LIMIT as int));
        }
    }
}

proof fn lemma_summaries_len(items: Seq<Tree>)
    ensures
        summaries(items).len() <= items.len(),
    decreases items.len(),
{
    if items.len() > 0 {
        lemma_summaries_len(items.drop_last());
    }
}

}
