//! Names and lines of the app-server child.

use vstd::prelude::*;

use crate::json::{self, Tree};
use crate::rpc::{self, Heard, Incoming};

verus! {

/// Whether a character is an ASCII letter or digit, a slash, an underscore or a
/// hyphen.
pub open spec fn plain(c: char) -> bool {
    ||| 'a' <= c && c <= 'z'
    ||| 'A' <= c && c <= 'Z'
    ||| '0' <= c && c <= '9'
    ||| c == '/'
    ||| c == '_'
    ||| c == '-'
}

/// Whether a text is made of such characters only.
pub open spec fn all_plain(name: Seq<char>) -> bool {
    forall|i: int| 0 <= i < name.len() ==> plain(#[trigger] name[i])
}

/// A name that is made of plain characters is kept: all of it up to 80
/// characters, and the first 80 of a longer one.
pub proof fn law_a_plain_name_is_kept(name: Seq<char>)
    requires
        all_plain(name),
    ensures
        name.len() <= 80 ==> rpc::bounded(name) == name,
        name.len() > 80 ==> rpc::bounded(name) == name.take(80),
{
    lemma_plain_is_unfiltered(name);
}

/// A character that is not plain leaves no trace, wherever it stands.
pub proof fn law_any_other_character_leaves_no_trace(
    before: Seq<char>,
    c: char,
    after: Seq<char>,
)
    requires
        !plain(c),
    ensures
        rpc::bounded(before.push(c) + after) == rpc::bounded(before + after),
{
    let keep = |x: char| rpc::is_name_char(x);
    Seq::<char>::filter_distributes_over_add(before.push(c), after, keep);
    Seq::<char>::filter_distributes_over_add(before, after, keep);
    reveal(Seq::filter);
    assert(before.push(c).drop_last() =~= before);
}

proof fn lemma_plain_is_unfiltered(name: Seq<char>)
    requires
        all_plain(name),
    ensures
        name.filter(|x: char| rpc::is_name_char(x)) == name,
    decreases name.len(),
{
    reveal(Seq::filter);
    if name.len() > 0 {
        let front = name.drop_last();
        assert forall|i: int| 0 <= i < front.len() implies plain(#[trigger] front[i]) by {
            assert(plain(name[i]));
        }
        lemma_plain_is_unfiltered(front);
        assert(plain(name[name.len() - 1]));
        assert(front.push(name.last()) =~= name);
    }
}

/// What a message is goes by its id and its method: with an id alone it is the
/// answer to that request, with its result and its error as they are; with
/// both it is a request of the server; with a method alone it is a
/// notification, with its parameters or null; with neither it is malformed.
pub proof fn law_a_message_goes_by_its_id_and_method(
    message: Tree,
    id: u64,
    method: Seq<char>,
)
    ensures
        message.unsigned_at("id"@) == Some(id) && message.text_at("method"@) is None ==> rpc::heard(
            message,
        ) == (Heard::Response {
            id,
            result: message.get("result"@),
            error: message.get("error"@),
        }),
        message.unsigned_at("id"@) == Some(id) && message.text_at("method"@) == Some(method)
            ==> rpc::heard(message) == (Heard::ServerRequest { method: rpc::bounded(method) }),
        message.unsigned_at("id"@) is None && message.text_at("method"@) == Some(method)
            ==> rpc::heard(message) == (Heard::Notification {
            method: rpc::bounded(method),
            params: message.member_or_null("params"@),
        }),
        message.unsigned_at("id"@) is None && message.text_at("method"@) is None ==> rpc::heard(
            message,
        ) == Heard::Malformed,
{
}

/// A line is its message, or malformed where it is no JSON.
pub proof fn law_a_line_is_its_message(line: Seq<char>, message: Tree)
    ensures
        json::parsed_text(line) == Some(message) ==> rpc::line_heard(line) == rpc::heard(message),
        json::parsed_text(line) is None ==> rpc::line_heard(line) == Heard::Malformed,
{
}

/// A line ends at its line break: what stands before it is one message, unless
/// it is empty, and what follows is read on its own. Text without a line break
/// waits for the rest of its line.
pub proof fn law_a_line_ends_at_its_break(line: Seq<char>, more: Seq<char>)
    requires
        !line.contains('\n'),
    ensures
        rpc::lines_heard(line).messages == Seq::<Heard>::empty(),
        rpc::lines_heard(line).rest == line,
        rpc::lines_heard(line.push('\n') + more).rest == rpc::lines_heard(more).rest,
        line.len() == 0 ==> rpc::lines_heard(line.push('\n') + more).messages == rpc::lines_heard(
            more,
        ).messages,
        line.len() > 0 ==> rpc::lines_heard(line.push('\n') + more).messages == seq![
            rpc::line_heard(line),
        ] + rpc::lines_heard(more).messages,
{
    let text = line.push('\n') + more;
    let end = line.len() as int;
    assert(text[end] == '\n');
    assert forall|i: int| 0 <= i < end implies text[i] != '\n' by {
        assert(line.contains(line[i]));
    }
    assert(rpc::first_break(text, end));
    assert(text.contains('\n'));
    let chosen = choose|place: int| rpc::first_break(text, place);
    assert(rpc::first_break(text, chosen));
    assert(chosen == end) by {
        if chosen < end {
            assert(text[chosen] != '\n');
        }
        if end < chosen {
            assert(text[end] != '\n');
        }
    }
    assert(text.take(end) =~= line);
    assert(text.skip(end + 1) =~= more);
}

/// Messages that were read mean what each of them means, in their order.
pub proof fn law_messages_mean_what_each_means(messages: Seq<Incoming>, place: int)
    ensures
        rpc::heard_all(messages).len() == messages.len(),
        0 <= place < messages.len() ==> rpc::heard_all(messages)[place] == messages[place]@,
{
}

}
