//! What is shown of threads.

use vstd::prelude::*;

use crate::json::Tree;
use crate::rpc;
use crate::threads::{self, Summary, ThreadSummary};

verus! {

/// The first characters of a text are all of it up to the limit, and no more
/// than the limit.
pub proof fn law_a_cut_text_is_its_beginning(characters: Seq<char>, limit: nat)
    ensures
        rpc::clipped(characters, limit).is_prefix_of(characters),
        characters.len() <= limit ==> rpc::clipped(characters, limit) == characters,
        characters.len() > limit ==> rpc::clipped(characters, limit).len() == limit,
{
    assert(characters.subrange(0, characters.len() as int) =~= characters);
}

/// The last segment of a path is what stands behind its last slash, and all of
/// a path that has none.
pub proof fn law_the_last_segment_stands_behind_the_last_slash(
    above: Seq<char>,
    segment: Seq<char>,
)
    requires
        !segment.contains('/'),
    ensures
        threads::last_segment(above.push('/') + segment) == segment,
        threads::last_segment(segment) == segment,
    decreases segment.len(),
{
    let path = above.push('/') + segment;
    if segment.len() == 0 {
        assert(path.last() == '/');
    } else {
        let front = segment.drop_last();
        assert(segment.contains(segment[segment.len() - 1]));
        assert forall|i: int| 0 <= i < front.len() implies front[i] != '/' by {
            assert(segment.contains(segment[i]));
        }
        law_the_last_segment_stands_behind_the_last_slash(above, front);
        assert(path.drop_last() =~= above.push('/') + front);
        assert(front.push(segment.last()) =~= segment);
    }
}

/// A thread is shown exactly if it has an id, and under that id: by the first
/// 120 characters of its name or a stand-in, by the first 80 of the last
/// segment of its path, if there is one, by the time it gives, and by the name
/// of its status or a stand-in.
pub proof fn law_a_thread_is_shown_by_its_metadata(thread: Tree, text: Seq<char>, time: u64)
    ensures
        threads::summarized(thread) is Some <==> thread.text_at("id"@) is Some,
        threads::summarized(thread) matches Some(shown) ==> {
            &&& thread.text_at("id"@) == Some(shown.id)
            &&& thread.text_at("name"@) == Some(text) ==> shown.title == rpc::clipped(text, 120)
            &&& thread.text_at("name"@) is None ==> shown.title == "Untitled thread"@
            &&& thread.text_at("cwd"@) is None ==> shown.workspace is None
            &&& thread.text_at("cwd"@) == Some(text) ==> if threads::last_segment(text).len() == 0 {
                shown.workspace is None
            } else {
                shown.workspace == Some(rpc::clipped(threads::last_segment(text), 80))
            }
            &&& thread.unsigned_at("updatedAt"@) == Some(time) ==> shown.updated_at == Some(time)
            &&& thread.unsigned_at("updatedAt"@) is None ==> shown.updated_at is None
            &&& threads::status_type(thread) == Some(text) ==> shown.status == rpc::bounded(text)
            &&& threads::status_type(thread) is None ==> shown.status == "unknown"@
        },
{
    reveal_strlit("Untitled thread");
    assert("Untitled thread"@.len() == 15);
}

/// The type of a status is the text at `type` in the member `status`.
pub proof fn law_the_type_of_a_status_stands_in_it(thread: Tree, status: Tree, text: Seq<char>)
    ensures
        thread.get("status"@) == Some(status) && status.get("type"@) == Some(Tree::Text(text))
            ==> threads::status_type(thread) == Some(text),
        thread.get("status"@) == Some(status) && status.text_at("type"@) is None
            ==> threads::status_type(thread) is None,
        thread.get("status"@) is None ==> threads::status_type(thread) is None,
{
}

/// The threads of an answer are shown in their order, one after the other, as
/// long as they are among the first 20, and each that can be shown; what comes
/// behind these changes nothing, and without a list nothing is shown.
pub proof fn law_threads_are_shown_in_their_order(
    answer: Tree,
    longer: Tree,
    items: Seq<Tree>,
    last: Tree,
)
    requires
        answer.get("data"@) == Some(Tree::List(items)),
        longer.get("data"@) == Some(Tree::List(items.push(last))),
    ensures
        items.len() == 0 ==> threads::listed(answer).len() == 0,
        items.len() >= 20 ==> threads::listed(longer) == threads::listed(answer),
        items.len() < 20 ==> threads::listed(longer) == (match threads::summarized(last) {
            Some(shown) => threads::listed(answer).push(shown),
            None => threads::listed(answer),
        }),
{
    let all = items.push(last);
    if items.len() >= 20 {
        assert(all.take(20) =~= items.take(20));
        if items.len() == 20 {
            assert(items.take(20) =~= items);
        }
    } else {
        assert(all.drop_last() =~= items);
        assert(all.last() == last);
    }
}

/// Without a list of threads an answer shows none.
pub proof fn law_an_answer_without_a_list_shows_nothing(answer: Tree)
    requires
        !(answer.get("data"@) matches Some(Tree::List(_))),
    ensures
        threads::listed(answer) == Seq::<Summary>::empty(),
{
}

/// A list of shown threads says what each of them says, in their order.
pub proof fn law_a_list_says_what_each_says(list: Seq<ThreadSummary>, place: int)
    ensures
        threads::shown(list).len() == list.len(),
        0 <= place < list.len() ==> threads::shown(list)[place] == list[place]@,
{
}

}
