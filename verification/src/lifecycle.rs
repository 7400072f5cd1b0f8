//! What holds of a client over runs of events: answers find their requests,
//! logs stay bounded, and the subscription it claims is the one that the
//! server holds.

use vstd::prelude::*;

use crate::client::{
    self, Asked, Failure, Occurrence, Plan, Session, Stage, NOTICE_LOG, READ_ONLY_METHODS,
    REQUEST_LOG,
};
use crate::json::Tree;
use crate::rpc::Heard;

verus! {

/// Whether an event ends the waiting for the answer to a request.
pub open spec fn ends(event: Occurrence, wanted: u64) -> bool {
    match event {
        Occurrence::Message(Heard::Response { id, .. }) => id == wanted,
        Occurrence::Message(Heard::Notification { .. }) => false,
        Occurrence::Message(Heard::ServerRequest { .. }) => false,
        _ => true,
    }
}

/// How an attachment went: the requests that were replied to, the outcome if
/// there is one, and the events that were not needed for it.
pub struct Attachment {
    pub session: Session,
    pub trail: Seq<(Stage, Result<Tree, Failure>)>,
    pub outcome: Option<Result<(), Failure>>,
    pub rest: Seq<Occurrence>,
}

/// How many replies an attachment still needs.
pub open spec fn replies_needed(plan: Result<Plan, Failure>) -> nat {
    match plan {
        Ok(Plan::Ask { stage: Stage::Release, .. }) => 3,
        Ok(Plan::Ask { stage: Stage::Read, .. }) => 2,
        Ok(Plan::Ask { stage: Stage::Resume, .. }) => 1,
        _ => 0,
    }
}

/// Carries an attachment on through a run of events.
pub open spec fn carried(
    session: Session,
    plan: Result<Plan, Failure>,
    thread: Seq<char>,
    events: Seq<Occurrence>,
    trail: Seq<(Stage, Result<Tree, Failure>)>,
) -> Attachment
    decreases replies_needed(plan),
{
    match plan {
        Err(failure) => Attachment { session, trail, outcome: Some(Err(failure)), rest: events },
        Ok(Plan::Done) => Attachment { session, trail, outcome: Some(Ok(())), rest: events },
        Ok(Plan::Ask { stage, request }) => {
            let wait = client::awaited(session, request.id, events);
            match wait.reply {
                None => Attachment { session: wait.session, trail, outcome: None, rest: wait.rest },
                Some(reply) => {
                    let (next, further) = wait.session.attached_on(thread, stage, reply);
                    carried(next, further, thread, wait.rest, trail.push((stage, reply)))
                },
            }
        },
    }
}

/// An attachment from its beginning, through a run of events.
pub open spec fn attachment(
    session: Session,
    thread: Seq<char>,
    events: Seq<Occurrence>,
) -> Attachment {
    let (next, plan) = session.attaching(thread);
    carried(next, Ok(plan), thread, events, seq![])
}

/// The subscription that the server holds for this client after it has
/// replied to the requests of an attachment. It changes only what it agrees
/// to.
pub open spec fn server_holds(
    held: Option<Seq<char>>,
    thread: Seq<char>,
    trail: Seq<(Stage, Result<Tree, Failure>)>,
) -> Option<Seq<char>>
    decreases trail.len(),
{
    if trail.len() == 0 {
        held
    } else {
        let before = server_holds(held, thread, trail.drop_last());
        let (stage, reply) = trail.last();
        if reply is Ok {
            match stage {
                Stage::Release => None,
                Stage::Read => before,
                Stage::Resume => Some(thread),
            }
        } else {
            before
        }
    }
}

/// Whether the server said of each request whether it was done.
pub open spec fn definite(trail: Seq<(Stage, Result<Tree, Failure>)>) -> bool {
    forall|i: int| 0 <= i < trail.len() ==> !((#[trigger] trail[i]).1 matches Err(
        Failure::Ambiguous(_),
    ))
}

/// Whether a request asks for a method of the allowlist.
pub open spec fn asks_read_only(request: Asked) -> bool {
    request.message.text_at("method"@) matches Some(method) && client::read_only(method)
}

/// Whether the client's logs keep to their limits.
pub open spec fn logs_are_bounded(session: Session) -> bool {
    &&& session.requests.len() <= REQUEST_LOG
    &&& session.notices.len() <= NOTICE_LOG
}

proof fn lemma_waiting_keeps(session: Session, wanted: u64, events: Seq<Occurrence>)
    ensures
        ({
            let after = client::awaited(session, wanted, events).session;
            &&& after.subscribed == session.subscribed
            &&& after.requests == session.requests
            &&& after.next_id == session.next_id
            &&& logs_are_bounded(session) ==> logs_are_bounded(after)
        }),
    decreases events.len(),
{
    if !session.pending.contains_key(wanted) && events.len() > 0 {
        let (next, reply) = session.heard(wanted, events.first());
        if reply is None {
            lemma_waiting_keeps(next, wanted, events.drop_first());
        }
    }
}

/// No method that starts or changes a turn, and none that archives, deletes,
/// rolls back or forks a thread, is on the allowlist.
pub proof fn law_no_write_method_is_allowed(method: Seq<char>)
    requires
        client::read_only(method),
    ensures
        !"turn/"@.is_prefix_of(method),
        method != "thread/archive"@,
        method != "thread/delete"@,
        method != "thread/rollback"@,
        method != "thread/fork"@,
{
    reveal_strlit("turn/");
    reveal_strlit("thread/archive");
    reveal_strlit("thread/delete");
    reveal_strlit("thread/rollback");
    reveal_strlit("thread/fork");
    reveal_strlit("initialize");
    reveal_strlit("thread/list");
    reveal_strlit("thread/read");
    reveal_strlit("thread/resume");
    reveal_strlit("thread/unsubscribe");
    let i = choose|i: int|
        0 <= i < READ_ONLY_METHODS@.len() && (#[trigger] READ_ONLY_METHODS@[i])@ == method;
    assert(method[1] != 'u');
    if "turn/"@.is_prefix_of(method) {
        assert(method.subrange(0, 5)[1] == 'u');
    }
    assert(method[7] != 'f' && method[7] != 'd' && method[8] != 'o' && method.len() != 14);
    assert("thread/fork"@[7] == 'f');
    assert("thread/delete"@[7] == 'd');
    assert("thread/rollback"@[8] == 'o');
}

/// Every request that the client makes of its own asks for a method of the
/// allowlist: to set up the connection, to list threads, to give up a
/// subscription, and at each step of an attachment.
pub proof fn law_only_read_only_methods_are_asked(
    session: Session,
    version: Seq<char>,
    thread: Seq<char>,
    stage: Stage,
    reply: Result<Tree, Failure>,
)
    ensures
        asks_read_only(session.request("initialize"@, client::initialize_params(version))),
        asks_read_only(session.request("thread/list"@, client::list_params())),
        asks_read_only(session.request("thread/unsubscribe"@, client::thread_params(thread))),
        session.attaching(thread).1 matches Plan::Ask { request, .. } ==> asks_read_only(request),
        session.attached_on(thread, stage, reply).1 matches Ok(Plan::Ask { request, .. })
            ==> asks_read_only(request),
{
    client::lemma_own_methods();
    reveal_strlit("method");
    reveal_strlit("params");
    assert("method"@[0] != "params"@[0]);
    assert forall|id: u64, name: Seq<char>, params: Tree| #[trigger]
        client::request_message(id, name, params).text_at("method"@) == Some(name) by {}
}

/// The logs never outgrow their limits, whatever happens.
pub proof fn law_logs_stay_bounded(
    session: Session,
    method: Seq<char>,
    params: Tree,
    wanted: u64,
    event: Occurrence,
    thread: Seq<char>,
    stage: Stage,
    reply: Result<Tree, Failure>,
)
    requires
        logs_are_bounded(session),
    ensures
        logs_are_bounded(Session::fresh()),
        logs_are_bounded(session.asked(method)),
        logs_are_bounded(session.notified(method, params)),
        logs_are_bounded(session.heard(wanted, event).0),
        logs_are_bounded(session.attaching(thread).0),
        logs_are_bounded(session.attached_on(thread, stage, reply).0),
        logs_are_bounded(session.released()),
{
}

/// A log keeps its latest entries: none is lost before the log is full, and
/// a full one loses only its oldest.
pub proof fn law_logs_keep_the_latest(log: Seq<Seq<char>>, entry: Seq<char>, limit: nat)
    requires
        0 < limit,
        log.len() <= limit,
    ensures
        ({
            let all = log.push(entry);
            let kept = client::logged(log, entry, limit);
            &&& kept.len() == if all.len() <= limit { all.len() } else { limit }
            &&& kept == all.skip(all.len() - kept.len())
        }),
{
    let all = log.push(entry);
    let kept = client::logged(log, entry, limit);
    assert(kept =~= all.skip(all.len() - kept.len()));
}

/// An answer reaches its request through any number of notifications, server
/// requests and answers to other requests that come before it.
pub proof fn law_an_answer_reaches_its_request(
    session: Session,
    wanted: u64,
    events: Seq<Occurrence>,
    at: int,
    result: Option<Tree>,
    error: Option<Tree>,
)
    requires
        !session.pending.contains_key(wanted),
        0 <= at < events.len(),
        events[at] == Occurrence::Message(Heard::Response { id: wanted, result, error }),
        forall|i: int| 0 <= i < at ==> !ends(#[trigger] events[i], wanted),
    ensures
        client::awaited(session, wanted, events).reply == Some(client::verdict(result, error)),
    decreases at,
{
    if at > 0 {
        assert(!ends(events[0], wanted));
        let (next, reply) = session.heard(wanted, events.first());
        let rest = events.drop_first();
        assert forall|i: int| 0 <= i < at - 1 implies !ends(#[trigger] rest[i], wanted) by {
            assert(rest[i] == events[i + 1]);
        }
        law_an_answer_reaches_its_request(next, wanted, rest, at - 1, result, error);
    }
}

/// A wait reads no further than it has to: not at all where its answer is
/// kept already, else up to the first event that ends it and no further.
pub proof fn law_a_wait_reads_no_further_than_it_has_to(
    session: Session,
    wanted: u64,
    events: Seq<Occurrence>,
)
    ensures
        ({
            let wait = client::awaited(session, wanted, events);
            let read = events.len() - wait.rest.len();
            &&& 0 <= read
            &&& wait.rest == events.skip(read)
            &&& session.pending.contains_key(wanted) ==> read == 0 && wait.reply == Some(
                session.pending[wanted],
            )
            &&& wait.reply is None ==> read == events.len() && forall|i: int|
                0 <= i < read ==> !ends(#[trigger] events[i], wanted)
            &&& wait.reply is Some && !session.pending.contains_key(wanted) ==> {
                &&& 0 < read
                &&& ends(events[read - 1], wanted)
                &&& forall|i: int| 0 <= i < read - 1 ==> !ends(#[trigger] events[i], wanted)
            }
        }),
    decreases events.len(),
{
    let wait = client::awaited(session, wanted, events);
    if session.pending.contains_key(wanted) || events.len() == 0 {
        assert(events.skip(0) =~= events);
    } else {
        let (next, reply) = session.heard(wanted, events.first());
        let tail = events.drop_first();
        assert(tail =~= events.skip(1));
        if reply is None {
            law_a_wait_reads_no_further_than_it_has_to(next, wanted, tail);
            let read = tail.len() - wait.rest.len();
            assert(tail.skip(read) =~= events.skip(read + 1));
            assert forall|i: int| 0 < i < events.len() implies #[trigger] events[i] == tail[i
                - 1] by {}
        }
    }
}

/// What the last answer to a request among some events says.
pub open spec fn last_answer(events: Seq<Occurrence>, id: u64) -> Option<Result<Tree, Failure>>
    decreases events.len(),
{
    if events.len() == 0 {
        None
    } else {
        match events.last() {
            Occurrence::Message(Heard::Response { id: found, result, error }) if found == id => Some(
                client::verdict(result, error),
            ),
            _ => last_answer(events.drop_last(), id),
        }
    }
}

/// What is kept for a request while another is awaited: the last answer to it
/// that was read, and where none was read, what was kept before.
pub proof fn law_the_last_answer_is_kept(
    session: Session,
    wanted: u64,
    events: Seq<Occurrence>,
    id: u64,
)
    requires
        id != wanted,
    ensures
        ({
            let wait = client::awaited(session, wanted, events);
            let read = events.take(events.len() - wait.rest.len());
            kept(wait.session, id) == (match last_answer(read, id) {
                Some(answer) => Some(answer),
                None => kept(session, id),
            })
        }),
    decreases events.len(),
{
    let wait = client::awaited(session, wanted, events);
    let read = events.take(events.len() - wait.rest.len());
    law_a_wait_reads_no_further_than_it_has_to(session, wanted, events);
    if session.pending.contains_key(wanted) || events.len() == 0 {
        assert(read =~= seq![]);
    } else {
        let (next, reply) = session.heard(wanted, events.first());
        let tail = events.drop_first();
        let first = seq![events.first()];
        let later = read.drop_first();
        reveal_with_fuel(last_answer, 2);
        assert(first.drop_last() =~= seq![]);
        assert(read =~= first + later);
        lemma_last_answer_behind_another(events.first(), later, id);
        if reply is None {
            law_the_last_answer_is_kept(next, wanted, tail, id);
            law_a_wait_reads_no_further_than_it_has_to(next, wanted, tail);
            assert(later =~= tail.take(tail.len() - wait.rest.len()));
        } else {
            assert(later =~= seq![]);
        }
    }
}

/// What a session keeps for a request.
pub open spec fn kept(session: Session, id: u64) -> Option<Result<Tree, Failure>> {
    if session.pending.contains_key(id) {
        Some(session.pending[id])
    } else {
        None
    }
}

/// The last answer among some events is the last one behind the first event,
/// or the first event itself.
proof fn lemma_last_answer_behind_another(first: Occurrence, later: Seq<Occurrence>, id: u64)
    ensures
        last_answer(seq![first] + later, id) == (match last_answer(later, id) {
            Some(answer) => Some(answer),
            None => last_answer(seq![first], id),
        }),
    decreases later.len(),
{
    let all = seq![first] + later;
    if later.len() == 0 {
        assert(all =~= seq![first]);
    } else {
        assert(all.drop_last() =~= seq![first] + later.drop_last());
        lemma_last_answer_behind_another(first, later.drop_last(), id);
    }
}

/// An answer with no other to the same request behind it is the last one.
proof fn lemma_is_last_answer(
    events: Seq<Occurrence>,
    at: int,
    id: u64,
    result: Option<Tree>,
    error: Option<Tree>,
)
    requires
        0 <= at < events.len(),
        events[at] == Occurrence::Message(Heard::Response { id, result, error }),
    ensures
        last_answer(events, id) is Some,
        (forall|i: int| at < i < events.len() ==> !is_answer(#[trigger] events[i], id))
            ==> last_answer(events, id) == Some(client::verdict(result, error)),
    decreases events.len(),
{
    if at < events.len() - 1 {
        let shorter = events.drop_last();
        lemma_is_last_answer(shorter, at, id, result, error);
        if forall|i: int| at < i < events.len() ==> !is_answer(#[trigger] events[i], id) {
            assert(!is_answer(events[events.len() - 1], id));
            assert forall|i: int| at < i < shorter.len() implies !is_answer(
                #[trigger] shorter[i],
                id,
            ) by {
                assert(shorter[i] == events[i]);
            }
        }
    }
}

/// Whether an event is an answer to a request.
pub open spec fn is_answer(event: Occurrence, id: u64) -> bool {
    event matches Occurrence::Message(Heard::Response { id: found, .. }) && found == id
}

/// An answer that comes while another is awaited is kept, and is the reply as
/// soon as somebody waits for it.
pub proof fn law_an_early_answer_is_kept(
    session: Session,
    wanted: u64,
    early: u64,
    events: Seq<Occurrence>,
    at: int,
    result: Option<Tree>,
    error: Option<Tree>,
    later: Seq<Occurrence>,
)
    requires
        early != wanted,
        !session.pending.contains_key(wanted),
        0 <= at < events.len(),
        events[at] == Occurrence::Message(Heard::Response { id: early, result, error }),
        forall|i: int| 0 <= i < at ==> !ends(#[trigger] events[i], wanted),
        forall|i: int| at < i < events.len() ==> !is_answer(#[trigger] events[i], early),
    ensures
        ({
            let after = client::awaited(session, wanted, events).session;
            &&& kept(after, early) == Some(client::verdict(result, error))
            &&& client::awaited(after, early, later).reply == Some(client::verdict(result, error))
        }),
{
    let wait = client::awaited(session, wanted, events);
    let count = events.len() - wait.rest.len();
    let read = events.take(count);
    law_a_wait_reads_no_further_than_it_has_to(session, wanted, events);
    law_the_last_answer_is_kept(session, wanted, events, early);
    assert(!ends(events[at], wanted));
    assert(at < count);
    assert(read[at] == events[at]);
    lemma_is_last_answer(read, at, early, result, error);
}

/// No answer is lost: after a wait, an answer among the events is the reply,
/// or it was read while another was awaited, and the last one of those that
/// were read for its request is kept, or it is still to be read.
pub proof fn law_no_answer_is_lost(
    session: Session,
    wanted: u64,
    events: Seq<Occurrence>,
    at: int,
    id: u64,
    result: Option<Tree>,
    error: Option<Tree>,
)
    requires
        0 <= at < events.len(),
        events[at] == Occurrence::Message(Heard::Response { id, result, error }),
    ensures
        ({
            let wait = client::awaited(session, wanted, events);
            let read = events.len() - wait.rest.len();
            if at >= read {
                wait.rest[at - read] == events[at]
            } else if id == wanted {
                wait.reply == Some(client::verdict(result, error))
            } else {
                &&& last_answer(events.take(read), id) is Some
                &&& kept(wait.session, id) == last_answer(events.take(read), id)
            }
        }),
{
    let wait = client::awaited(session, wanted, events);
    let read = events.len() - wait.rest.len();
    law_a_wait_reads_no_further_than_it_has_to(session, wanted, events);
    if at < read {
        if id == wanted {
            assert(ends(events[at], wanted));
            law_an_answer_reaches_its_request(session, wanted, events, at, result, error);
        } else {
            assert(events.take(read)[at] == events[at]);
            lemma_is_last_answer(events.take(read), at, id, result, error);
            law_the_last_answer_is_kept(session, wanted, events, id);
        }
    }
}

/// A notification other than a status change, and every request of the
/// server, is noticed by name and has no other effect.
pub proof fn law_what_is_unknown_is_only_noticed(
    session: Session,
    wanted: u64,
    method: Seq<char>,
    params: Tree,
)
    ensures
        method != "thread/status/changed"@ ==> session.heard(
            wanted,
            Occurrence::Message(Heard::Notification { method, params }),
        ) == (session.noticed(method), None::<Result<Tree, Failure>>),
        session.heard(wanted, Occurrence::Message(Heard::ServerRequest { method })) == (
            session.noticed("server request ignored: "@ + method),
            None::<Result<Tree, Failure>>,
        ),
{
}

/// An attachment that succeeds subscribes to the thread it is for.
pub proof fn law_attaching_subscribes(
    session: Session,
    thread: Seq<char>,
    events: Seq<Occurrence>,
)
    ensures
        attachment(session, thread, events).outcome == Some(Ok::<(), Failure>(())) ==> attachment(
            session,
            thread,
            events,
        ).session.subscribed == Some(thread),
{
    let (next, plan) = session.attaching(thread);
    lemma_carried(next, Ok(plan), thread, events, seq![], session.subscribed);
}

/// What holds all along an attachment: the subscription that the client
/// records is the one that the server holds.
proof fn lemma_carried(
    session: Session,
    plan: Result<Plan, Failure>,
    thread: Seq<char>,
    events: Seq<Occurrence>,
    trail: Seq<(Stage, Result<Tree, Failure>)>,
    held: Option<Seq<char>>,
)
    requires
        session.subscribed == server_holds(held, thread, trail),
        plan matches Ok(Plan::Done) ==> session.subscribed == Some(thread),
        plan matches Ok(Plan::Ask { stage, .. }) ==> stage == Stage::Release || session.subscribed
            is None,
    ensures
        ({
            let done = carried(session, plan, thread, events, trail);
            &&& done.session.subscribed == server_holds(held, thread, done.trail)
            &&& done.outcome == Some(Ok::<(), Failure>(())) ==> done.session.subscribed == Some(
                thread,
            )
        }),
    decreases replies_needed(plan),
{
    if plan is Ok && plan->Ok_0 is Ask {
        let request = plan->Ok_0->request;
        let stage = plan->Ok_0->stage;
        let wait = client::awaited(session, request.id, events);
        lemma_waiting_keeps(session, request.id, events);
        if let Some(reply) = wait.reply {
            let (next, further) = wait.session.attached_on(thread, stage, reply);
            let longer = trail.push((stage, reply));
            assert(longer.drop_last() =~= trail);
            lemma_carried(next, further, thread, wait.rest, longer, held);
        }
    }
}

/// The client never claims another subscription than the server holds: after
/// any number of replies to the requests of an attachment, each of which
/// agrees or refuses, the two are the same.
pub proof fn law_the_subscription_is_never_misstated(
    session: Session,
    thread: Seq<char>,
    events: Seq<Occurrence>,
)
    ensures
        ({
            let done = attachment(session, thread, events);
            definite(done.trail) ==> done.session.subscribed == server_holds(
                session.subscribed,
                thread,
                done.trail,
            )
        }),
{
    let (next, plan) = session.attaching(thread);
    lemma_carried(next, Ok(plan), thread, events, seq![], session.subscribed);
}

/// A refused release keeps the subscription that is held; once it is
/// released, a request that fails leaves none.
pub proof fn law_a_failed_switch_claims_nothing_new(
    session: Session,
    thread: Seq<char>,
    events: Seq<Occurrence>,
)
    requires
        session.subscribed is Some,
        session.subscribed != Some(thread),
    ensures
        ({
            let done = attachment(session, thread, events);
            done.outcome matches Some(Err(_)) ==> done.session.subscribed == (if done.trail.len()
                == 1 {
                session.subscribed
            } else {
                None
            })
        }),
{
    reveal_with_fuel(carried, 4);
    let (first, plan) = session.attaching(thread);
    let one = client::awaited(first, session.next_id, events);
    lemma_waiting_keeps(first, session.next_id, events);
    if one.reply matches Some(Ok(_)) {
        let (second, _) = one.session.attached_on(thread, Stage::Release, one.reply->0);
        let two = client::awaited(second, one.session.next_id, one.rest);
        lemma_waiting_keeps(second, one.session.next_id, one.rest);
        if two.reply matches Some(Ok(_)) {
            let (third, _) = two.session.attached_on(thread, Stage::Read, two.reply->0);
            lemma_waiting_keeps(third, two.session.next_id, two.rest);
        }
    }
}

/// A switch that succeeds asks for the release, the metadata and the
/// subscription, in that order, and for nothing else.
pub proof fn law_a_switch_balances_its_subscriptions(
    session: Session,
    thread: Seq<char>,
    events: Seq<Occurrence>,
)
    requires
        session.subscribed is Some,
        session.subscribed != Some(thread),
        attachment(session, thread, events).outcome == Some(Ok::<(), Failure>(())),
    ensures
        attachment(session, thread, events).session.requests == session.asked(
            "thread/unsubscribe"@,
        ).asked("thread/read"@).asked("thread/resume"@).requests,
{
    reveal_with_fuel(carried, 4);
    let (first, plan) = session.attaching(thread);
    let one = client::awaited(first, session.next_id, events);
    lemma_waiting_keeps(first, session.next_id, events);
    let (second, _) = one.session.attached_on(thread, Stage::Release, one.reply->0);
    let two = client::awaited(second, one.session.next_id, one.rest);
    lemma_waiting_keeps(second, one.session.next_id, one.rest);
    let (third, _) = two.session.attached_on(thread, Stage::Read, two.reply->0);
    lemma_waiting_keeps(third, two.session.next_id, two.rest);
}

}
