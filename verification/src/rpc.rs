//! What a `codex app-server --stdio` child says, line by line.
//!
//! Each line is one JSON message. What a message calls itself is kept only in
//! a bounded form, so that text from the other end never travels further as
//! it came.

use vstd::prelude::*;

use crate::json::{self, Json, Tree};
use crate::text::{chars_of, slice_text};

verus! {

/// How many characters of a name are kept.
pub const NAME_LIMIT: usize = 80;

/// The characters that a name may be made of.
pub open spec fn is_name_char(c: char) -> bool {
    ||| 'a' <= c <= 'z'
    ||| 'A' <= c <= 'Z'
    ||| '0' <= c <= '9'
    ||| c == '/'
    ||| c == '_'
    ||| c == '-'
}

/// The first characters of a text, as many as the limit allows.
pub open spec fn clipped(text: Seq<char>, limit: nat) -> Seq<char> {
    if text.len() <= limit {
        text
    } else {
        text.take(limit as int)
    }
}

/// The name characters of a text, as many as are kept.
pub open spec fn bounded(text: Seq<char>) -> Seq<char> {
    clipped(text.filter(|c: char| is_name_char(c)), NAME_LIMIT as nat)
}

/// Keeps of a name what a name may be made of, and no more than the limit.
pub fn bounded_method(method: &str) -> (name: String)
    ensures
        name@ == bounded(method@),
{
    let ghost keep = |c: char| is_name_char(c);
    let chars = chars_of(method);
    let mut name = String::new();
    let mut kept: usize = 0;
    let mut i: usize = 0;
    assert(chars@.take(0) =~= Seq::<char>::empty());
    while i < chars.len()
        invariant
            i <= chars@.len(),
            keep == |c: char| is_name_char(c),
            kept == name@.len(),
            kept <= NAME_LIMIT,
            name@ == clipped(chars@.take(i as int).filter(keep), NAME_LIMIT as nat),
        decreases chars@.len() - i,
    {
        let c = chars[i];
        proof {
            reveal(Seq::filter);
            assert(chars@.take(i + 1).drop_last() =~= chars@.take(i as int));
        }
        let ghost before = chars@.take(i as int).filter(keep);
        let plain = ('a' <= c && c <= 'z') || ('A' <= c && c <= 'Z') || ('0' <= c && c <= '9') || c
            == '/' || c == '_' || c == '-';
        if plain && kept < NAME_LIMIT {
            name.push(c);
            kept += 1;
        } else if plain {
            assert(before.push(c).take(NAME_LIMIT as int) =~= before.take(NAME_LIMIT as int));
        }
        i += 1;
    }
    assert(chars@.take(chars@.len() as int) =~= chars@);
    name
}

/// A message from the other end, sorted by what it is.
#[derive(Debug)]
pub enum Incoming {
    Response { id: u64, result: Option<Json>, error: Option<Json> },
    Notification { method: String, params: Json },
    ServerRequest { method: String },
    Malformed,
    Eof,
}

/// What an `Incoming` means.
pub enum Heard {
    Response { id: u64, result: Option<Tree>, error: Option<Tree> },
    Notification { method: Seq<char>, params: Tree },
    ServerRequest { method: Seq<char> },
    Malformed,
    Eof,
}

/// What an optional value means.
pub open spec fn tree_if_any(json: Option<Json>) -> Option<Tree> {
    match json {
        Some(json) => Some(json@),
        None => None,
    }
}

impl View for Incoming {
    type V = Heard;

    open spec fn view(&self) -> Heard {
        match *self {
            Incoming::Response { id, result, error } => Heard::Response {
                id,
                result: tree_if_any(result),
                error: tree_if_any(error),
            },
            Incoming::Notification { method, params } => Heard::Notification {
                method: method@,
                params: params@,
            },
            Incoming::ServerRequest { method } => Heard::ServerRequest { method: method@ },
            Incoming::Malformed => Heard::Malformed,
            Incoming::Eof => Heard::Eof,
        }
    }
}

/// What a message is, by whether it has an `id` and a `method`.
pub open spec fn heard(message: Tree) -> Heard {
    match (message.unsigned_at("id"@), message.text_at("method"@)) {
        (Some(id), None) => Heard::Response {
            id,
            result: message.get("result"@),
            error: message.get("error"@),
        },
        (Some(_), Some(method)) => Heard::ServerRequest { method: bounded(method) },
        (None, Some(method)) => Heard::Notification {
            method: bounded(method),
            params: message.member_or_null("params"@),
        },
        (None, None) => Heard::Malformed,
    }
}

fn copy_of(value: Option<&Json>) -> (copy: Option<Json>)
    ensures
        tree_if_any(copy) == (match value {
            Some(value) => Some(value@),
            None => None,
        }),
{
    match value {
        Some(value) => Some(value.clone()),
        None => None,
    }
}

/// Sorts a message by what it is.
pub fn classify(value: Json) -> (incoming: Incoming)
    ensures
        incoming@ == heard(value@),
{
    match (value.unsigned_at("id"), value.text_at("method")) {
        (Some(id), None) => Incoming::Response {
            id,
            result: copy_of(value.get("result")),
            error: copy_of(value.get("error")),
        },
        (Some(_), Some(method)) => Incoming::ServerRequest { method: bounded_method(method) },
        (None, Some(method)) => Incoming::Notification {
            method: bounded_method(method),
            params: value.member_or_null("params"),
        },
        (None, None) => Incoming::Malformed,
    }
}

/// What a line says.
pub open spec fn line_heard(line: Seq<char>) -> Heard {
    match json::parsed_text(line) {
        Some(message) => heard(message),
        None => Heard::Malformed,
    }
}

/// Sorts a line by what it says; one that is not JSON is malformed.
pub fn classify_line(line: &str) -> (incoming: Incoming)
    ensures
        incoming@ == line_heard(line@),
{
    match Json::from_text(line) {
        Some(message) => classify(message),
        None => Incoming::Malformed,
    }
}

/// What some text says: the messages on its whole lines, and the text behind
/// the last line break.
pub struct Lines {
    pub messages: Seq<Heard>,
    pub rest: Seq<char>,
}

/// Whether a place in a text is its first line break.
pub open spec fn first_break(text: Seq<char>, end: int) -> bool {
    &&& 0 <= end < text.len()
    &&& text[end] == '\n'
    &&& forall|i: int| 0 <= i < end ==> text[i] != '\n'
}

/// What the text says from the start of a line on. Empty lines say nothing.
pub open spec fn lines_heard(text: Seq<char>) -> Lines
    decreases text.len(),
{
    if text.contains('\n') {
        let end = choose|end: int| first_break(text, end);
        if 0 <= end < text.len() {
            let later = lines_heard(text.skip(end + 1));
            if end == 0 {
                later
            } else {
                Lines {
                    messages: seq![line_heard(text.take(end))] + later.messages,
                    rest: later.rest,
                }
            }
        } else {
            Lines { messages: seq![], rest: text }
        }
    } else {
        Lines { messages: seq![], rest: text }
    }
}

/// The views of some messages.
pub open spec fn heard_all(messages: Seq<Incoming>) -> Seq<Heard> {
    messages.map_values(|incoming: Incoming| incoming@)
}

/// Reassembles lines from reads that split or join them arbitrarily.
pub struct FrameDecoder {
    pending: String,
}

impl Default for FrameDecoder {
    fn default() -> (decoder: Self)
        ensures
            decoder@ == Seq::<char>::empty(),
    {
        FrameDecoder { pending: String::new() }
    }
}

impl FrameDecoder {
    /// The text behind the last line break.
    pub closed spec fn view(self) -> Seq<char> {
        self.pending@
    }

    /// Takes in what was read and gives out the messages that it completes.
    pub fn push(&mut self, chunk: &str) -> (messages: Vec<Incoming>)
        ensures
            heard_all(messages@) == lines_heard(old(self)@ + chunk@).messages,
            final(self)@ == lines_heard(old(self)@ + chunk@).rest,
    {
        self.pending.append(chunk);
        let ghost text = self.pending@;
        let chars = chars_of(self.pending.as_str());
        let mut messages: Vec<Incoming> = Vec::new();
        let mut start: usize = 0;
        let mut i: usize = 0;
        assert(text.skip(0) =~= text);
        assert(heard_all(messages@) + lines_heard(text).messages =~= lines_heard(text).messages);
        while i < chars.len()
            invariant
                start <= i <= chars@.len(),
                chars@ == text,
                forall|j: int| start <= j < i ==> text[j] != '\n',
                lines_heard(text).messages == heard_all(messages@) + lines_heard(
                    text.skip(start as int),
                ).messages,
                lines_heard(text).rest == lines_heard(text.skip(start as int)).rest,
            decreases chars@.len() - i,
        {
            if chars[i] == '\n' {
                let ghost line = text.skip(start as int);
                let ghost end = i - start;
                proof {
                    assert(line[end] == '\n');
                    lemma_line(line, end);
                    assert(line.skip(end + 1) =~= text.skip(i + 1));
                }
                if start < i {
                    let line_text = slice_text(&chars, start, i);
                    let ghost before = heard_all(messages@);
                    let incoming = classify_line(line_text.as_str());
                    let ghost later = lines_heard(text.skip(i + 1)).messages;
                    messages.push(incoming);
                    proof {
                        assert(line_text@ =~= line.take(end));
                        assert(heard_all(messages@) =~= before.push(incoming@));
                        assert(before + (seq![incoming@] + later) =~= before.push(incoming@)
                            + later);
                    }
                }
                start = i + 1;
            }
            i += 1;
        }
        proof {
            let tail = text.skip(start as int);
            assert forall|j: int| 0 <= j < tail.len() implies tail[j] != '\n' by {
                assert(text[start + j] != '\n');
            }
            assert(!tail.contains('\n'));
            assert(heard_all(messages@) + lines_heard(tail).messages =~= heard_all(messages@));
            assert(chars@.subrange(start as int, chars@.len() as int) =~= tail);
        }
        self.pending = slice_text(&chars, start, chars.len());
        messages
    }
}

/// A text that begins with a line of the given length.
proof fn lemma_line(text: Seq<char>, end: int)
    requires
        first_break(text, end),
    ensures
        ({
            let later = lines_heard(text.skip(end + 1));
            lines_heard(text) == (if end == 0 {
                later
            } else {
                Lines {
                    messages: seq![line_heard(text.take(end))] + later.messages,
                    rest: later.rest,
                }
            })
        }),
{
    assert(text.contains('\n'));
    let chosen = choose|end: int| first_break(text, end);
    assert(first_break(text, chosen));
    assert(chosen == end) by {
        if chosen < end {
            assert(text[chosen] != '\n');
        }
        if end < chosen {
            assert(text[end] != '\n');
        }
    }
}

/// The text of a message with the line break behind it.
pub fn line_of(message: &Json) -> (line: String)
    ensures
        line@ == json::json_text(message@).push('\n'),
        json::json_text(message@).len() > 0,
        !json::json_text(message@).contains('\n'),
        message@.survives(crate::json::MAX_DEPTH as nat) ==> json::parsed_text(json::json_text(message@))
            == Some(message@),
{
    let mut line = message.to_text();
    line.push('\n');
    line
}

/// Reading on: text that follows is read as if the reading had stopped behind
/// the last line break, and never changes what came before.
pub proof fn law_reading_on(text: Seq<char>, more: Seq<char>)
    ensures
        lines_heard(text + more).messages == lines_heard(text).messages + lines_heard(
            lines_heard(text).rest + more,
        ).messages,
        lines_heard(text + more).rest == lines_heard(lines_heard(text).rest + more).rest,
    decreases text.len(),
{
    if text.contains('\n') {
        text.index_of_first_ensures('\n');
        let end = text.index_of_first('\n')->0;
        assert(first_break(text, end));
        assert(first_break(text + more, end));
        lemma_line(text, end);
        lemma_line(text + more, end);
        let tail = text.skip(end + 1);
        assert((text + more).skip(end + 1) =~= tail + more);
        assert((text + more).take(end) =~= text.take(end));
        law_reading_on(tail, more);
        let first = seq![line_heard(text.take(end))];
        let next = lines_heard(lines_heard(text).rest + more).messages;
        assert(first + (lines_heard(tail).messages + next) =~= (first + lines_heard(tail).messages)
            + next);
    } else {
        assert(lines_heard(text).messages + lines_heard(text + more).messages =~= lines_heard(
            text + more,
        ).messages);
    }
}

/// What a decoder that holds `pending` gives out over a run of reads.
pub open spec fn fed(pending: Seq<char>, reads: Seq<Seq<char>>) -> Lines
    decreases reads.len(),
{
    if reads.len() == 0 {
        Lines { messages: seq![], rest: pending }
    } else {
        let first = lines_heard(pending + reads[0]);
        let later = fed(first.rest, reads.drop_first());
        Lines { messages: first.messages + later.messages, rest: later.rest }
    }
}

/// However a text is split over reads, the same messages come out in the same
/// order, and the same text is left waiting for the rest of its line.
pub proof fn law_splits_do_not_matter(reads: Seq<Seq<char>>)
    ensures
        fed(seq![], reads) == lines_heard(reads.flatten()),
{
    let none: Seq<char> = seq![];
    lemma_fed(none, reads);
    assert(none + reads.flatten() =~= reads.flatten());
}

proof fn lemma_fed(pending: Seq<char>, reads: Seq<Seq<char>>)
    requires
        !pending.contains('\n'),
    ensures
        fed(pending, reads) == lines_heard(pending + reads.flatten()),
    decreases reads.len(),
{
    if reads.len() == 0 {
        assert(pending + reads.flatten() =~= pending);
    } else {
        let held = pending + reads[0];
        let later = reads.drop_first().flatten();
        assert(pending + reads.flatten() =~= held + later);
        law_reading_on(held, later);
        lemma_rest_is_one_line(held);
        lemma_fed(lines_heard(held).rest, reads.drop_first());
    }
}

/// What is left over holds no line break.
proof fn lemma_rest_is_one_line(text: Seq<char>)
    ensures
        !lines_heard(text).rest.contains('\n'),
    decreases text.len(),
{
    if text.contains('\n') {
        text.index_of_first_ensures('\n');
        let end = text.index_of_first('\n')->0;
        assert(first_break(text, end));
        lemma_line(text, end);
        lemma_rest_is_one_line(text.skip(end + 1));
    }
}

/// A written line is read back as the one message it holds, whatever was
/// written behind it.
pub proof fn law_a_line_is_read_back(message: Tree, more: Seq<char>)
    ensures
        json::json_text(message).len() > 0 && !json::json_text(message).contains('\n') && json::parsed_text(
            json::json_text(message),
        ) == Some(message) ==> {
            let text = json::json_text(message).push('\n') + more;
            &&& lines_heard(text).messages == seq![heard(message)] + lines_heard(more).messages
            &&& lines_heard(text).rest == lines_heard(more).rest
        },
{
    if json::json_text(message).len() > 0 && !json::json_text(message).contains('\n') {
        let end = json::json_text(message).len() as int;
        let text = json::json_text(message).push('\n') + more;
        assert forall|i: int| 0 <= i < end implies text[i] != '\n' by {
            assert(text[i] == json::json_text(message)[i]);
        }
        assert(first_break(text, end));
        lemma_line(text, end);
        assert(text.take(end) =~= json::json_text(message));
        assert(text.skip(end + 1) =~= more);
    }
}

/// A kept name is short and made of name characters only.
pub proof fn law_kept_names_are_bounded(text: Seq<char>)
    ensures
        bounded(text).len() <= NAME_LIMIT,
        forall|i: int| 0 <= i < bounded(text).len() ==> is_name_char(#[trigger] bounded(text)[i]),
{
    let keep = |c: char| is_name_char(c);
    let all = text.filter(keep);
    assert forall|i: int| 0 <= i < bounded(text).len() implies is_name_char(
        #[trigger] bounded(text)[i],
    ) by {
        assert(bounded(text)[i] == all[i]);
        text.lemma_filter_pred(keep, i);
    }
}

}
