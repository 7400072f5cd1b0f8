//! The client of the app-server child: its requests, its answers, its
//! subscription and its status.

use vstd::prelude::*;

use crate::client::{self, Asked, Failure, Occurrence, Plan, Session, Stage};
use crate::json::Tree;
use crate::lifecycle;
use crate::rpc::{self, Heard};

verus! {

/// The methods that may be asked for are these five and no others.
pub proof fn law_the_allowlist_is_complete(method: Seq<char>)
    ensures
        client::read_only(method) <==> method == "initialize"@ || method == "thread/list"@ || method
            == "thread/read"@ || method == "thread/resume"@ || method == "thread/unsubscribe"@,
{
    client::lemma_own_methods();
}

proof fn lemma_names_differ()
    ensures
        "jsonrpc"@ != "id"@,
        "jsonrpc"@ != "method"@,
        "jsonrpc"@ != "params"@,
        "id"@ != "method"@,
        "id"@ != "params"@,
        "method"@ != "params"@,
        "threadId"@ != "includeTurns"@,
        "threadId"@ != "excludeTurns"@,
        "limit"@ != "archived"@,
        "limit"@ != "useStateDbOnly"@,
        "archived"@ != "useStateDbOnly"@,
        "clientInfo"@ != "capabilities"@,
        "name"@ != "version"@,
{
    reveal_strlit("jsonrpc");
    reveal_strlit("id");
    reveal_strlit("method");
    reveal_strlit("params");
    reveal_strlit("threadId");
    reveal_strlit("includeTurns");
    reveal_strlit("excludeTurns");
    reveal_strlit("limit");
    reveal_strlit("archived");
    reveal_strlit("useStateDbOnly");
    reveal_strlit("clientInfo");
    reveal_strlit("capabilities");
    reveal_strlit("name");
    reveal_strlit("version");
    assert("jsonrpc"@.len() == 7 && "id"@.len() == 2 && "method"@.len() == 6 && "params"@.len()
        == 6);
    assert("method"@[0] != "params"@[0]);
    assert("threadId"@.len() == 8 && "includeTurns"@.len() == 12 && "excludeTurns"@.len() == 12);
    assert("limit"@.len() == 5 && "archived"@.len() == 8 && "useStateDbOnly"@.len() == 14);
    assert("clientInfo"@.len() == 10 && "capabilities"@.len() == 12);
    assert("name"@.len() == 4 && "version"@.len() == 7);
}

proof fn lemma_methods_differ()
    ensures
        "thread/unsubscribe"@ != "thread/resume"@,
        "thread/unsubscribe"@ != "thread/read"@,
        "thread/read"@ != "thread/resume"@,
{
    reveal_strlit("thread/unsubscribe");
    reveal_strlit("thread/read");
    reveal_strlit("thread/resume");
    assert("thread/unsubscribe"@.len() == 18 && "thread/read"@.len() == 11
        && "thread/resume"@.len() == 13);
}

/// A request carries its own id, its method and its parameters as they are, in
/// a message of the protocol that holds nothing else; a notification carries
/// the same but for the id.
pub proof fn law_a_message_carries_what_it_is_for(
    id: u64,
    method: Seq<char>,
    params: Tree,
    other: Seq<char>,
)
    ensures
        ({
            let message = client::request_message(id, method, params);
            &&& message.get("jsonrpc"@) == Some(Tree::Text("2.0"@))
            &&& message.get("id"@) == Some(Tree::Integer(id as int))
            &&& message.get("method"@) == Some(Tree::Text(method))
            &&& message.get("params"@) == Some(params)
            &&& message.get(other) is Some ==> other == "jsonrpc"@ || other == "id"@ || other
                == "method"@ || other == "params"@
        }),
        ({
            let message = client::notification_message(method, params);
            &&& message.get("jsonrpc"@) == Some(Tree::Text("2.0"@))
            &&& message.get("method"@) == Some(Tree::Text(method))
            &&& message.get("params"@) == Some(params)
            &&& message.get(other) is Some ==> other == "jsonrpc"@ || other == "method"@ || other
                == "params"@
        }),
{
    lemma_names_differ();
}

/// Only `initialized` is notified; any other notification is rejected.
pub proof fn law_only_initialized_is_notified(method: Seq<char>, params: Tree)
    ensures
        client::notification(method, params) is Ok <==> method == "initialized"@,
        client::notification(method, params) matches Ok(message) ==> message.get("method"@) == Some(
            Tree::Text("initialized"@),
        ) && message.get("params"@) == Some(params),
        client::notification(method, params) matches Err(failure) ==> failure == Failure::Rejected(
            "Codex integration rejected a non-read-only notification"@,
        ),
{
    lemma_names_differ();
}

/// A request takes the next id and leaves the one after it as the next; it is
/// logged, and nothing else of the client changes.
pub proof fn law_a_request_takes_the_next_id(
    session: Session,
    method: Seq<char>,
    params: Tree,
)
    requires
        session.next_id < u64::MAX,
    ensures
        ({
            let request = session.request(method, params);
            let after = session.asked(method);
            &&& request.id == session.next_id
            &&& request.message.get("id"@) == Some(Tree::Integer(session.next_id as int))
            &&& request.message.get("method"@) == Some(Tree::Text(method))
            &&& request.message.get("params"@) == Some(params)
            &&& after.next_id == session.next_id + 1
            &&& session.requests.len() < 16 ==> after.requests == session.requests.push(method)
            &&& session.requests.len() == 16 ==> after.requests == session.requests.skip(1).push(
                method,
            )
            &&& after.pending == session.pending
            &&& after.notices == session.notices
            &&& after.subscribed == session.subscribed
            &&& after.status == session.status
        }),
{
    lemma_names_differ();
    if session.requests.len() == 16 {
        assert(session.requests.drop_first() =~= session.requests.skip(1));
    }
}

/// A request is made exactly for a method of the allowlist; any other is
/// rejected and changes nothing.
pub proof fn law_only_allowed_requests_are_made(
    session: Session,
    method: Seq<char>,
    params: Tree,
)
    ensures
        ({
            let (after, asked) = session.requested(method, params);
            &&& asked is Ok <==> client::read_only(method)
            &&& asked matches Ok(request) ==> request == session.request(method, params) && after
                == session.asked(method)
            &&& asked matches Err(failure) ==> after == session && failure == Failure::Rejected(
                "Codex integration rejected a write-capable method"@,
            )
        }),
{
}

/// A notice is logged, and nothing else changes.
pub proof fn law_a_notice_is_logged(session: Session, notice: Seq<char>)
    ensures
        ({
            let after = session.noticed(notice);
            &&& session.notices.len() < 12 ==> after.notices == session.notices.push(notice)
            &&& session.notices.len() == 12 ==> after.notices == session.notices.skip(1).push(
                notice,
            )
            &&& after.next_id == session.next_id
            &&& after.requests == session.requests
            &&& after.pending == session.pending
            &&& after.subscribed == session.subscribed
            &&& after.status == session.status
        }),
{
    if session.notices.len() == 12 {
        assert(session.notices.drop_first() =~= session.notices.skip(1));
    }
}

/// A client starts with the first id, with nothing kept, logged or subscribed
/// to, and as connected.
pub proof fn law_a_client_starts_with_nothing(id: u64)
    ensures
        Session::fresh().next_id == 1,
        !Session::fresh().pending.contains_key(id),
        Session::fresh().notices.len() == 0,
        Session::fresh().requests.len() == 0,
        Session::fresh().subscribed is None,
        Session::fresh().status == "connected"@,
{
}

/// The request for the threads asks for 20 that are not archived, out of the
/// state database only.
pub proof fn law_the_list_is_asked_for_in_its_bounds(session: Session, other: Seq<char>)
    ensures
        ({
            let (after, request) = session.listing();
            &&& after == session.asked("thread/list"@)
            &&& request.id == session.next_id
            &&& request.message.get("method"@) == Some(Tree::Text("thread/list"@))
            &&& request.message.get("params"@) matches Some(params) && {
                &&& params.get("limit"@) == Some(Tree::Integer(20))
                &&& params.get("archived"@) == Some(Tree::Bool(false))
                &&& params.get("useStateDbOnly"@) == Some(Tree::Bool(true))
                &&& params.get(other) is Some ==> other == "limit"@ || other == "archived"@ || other
                    == "useStateDbOnly"@
            }
        }),
{
    lemma_names_differ();
}

/// The request that sets up the connection names the client and its version,
/// and asks for no experimental interface.
pub proof fn law_the_handshake_names_the_client(
    session: Session,
    version: Seq<char>,
    other: Seq<char>,
)
    ensures
        ({
            let (after, request) = session.initializing(version);
            &&& after == session.asked("initialize"@)
            &&& request.id == session.next_id
            &&& request.message.get("method"@) == Some(Tree::Text("initialize"@))
            &&& request.message.get("params"@) matches Some(params) && {
                &&& params.get("clientInfo"@) matches Some(info) && {
                    &&& info.get("name"@) == Some(Tree::Text("overterm"@))
                    &&& info.get("version"@) == Some(Tree::Text(version))
                    &&& info.get(other) is Some ==> other == "name"@ || other == "version"@
                }
                &&& params.get("capabilities"@) matches Some(capabilities) && {
                    &&& capabilities.get("experimentalApi"@) == Some(Tree::Bool(false))
                    &&& capabilities.get(other) is Some ==> other == "experimentalApi"@
                }
                &&& params.get(other) is Some ==> other == "clientInfo"@ || other
                    == "capabilities"@
            }
        }),
{
    lemma_names_differ();
}

/// The handshake is completed by the notification `initialized`, without
/// parameters, exactly if the answer names the platform; any failure is told
/// in its own words.
pub proof fn law_the_handshake_needs_a_platform(
    answer: Tree,
    failure: Failure,
    other: Seq<char>,
)
    ensures
        client::handshake(Err(failure)) == Err::<Tree, Seq<char>>(failure.message()),
        client::handshake(Ok(answer)) is Ok <==> answer.text_at("platformOs"@) is Some,
        client::handshake(Ok(answer)) matches Ok(message) ==> {
            &&& message.get("method"@) == Some(Tree::Text("initialized"@))
            &&& message.get("id"@) is None
            &&& message.get("params"@) matches Some(params) && params is Object && params.get(other)
                is None
        },
        client::handshake(Ok(answer)) matches Err(error) ==> error
            == "Codex integration incompatible: invalid initialize response"@,
{
    lemma_names_differ();
}

/// A failure is told in its own words, and nothing is added to them.
pub proof fn law_a_failure_is_told_in_its_words(words: Seq<char>)
    ensures
        Failure::Rejected(words).message() == words,
        Failure::Ambiguous(words).message() == words,
{
}

/// An answer with an error is a rejection, whatever else it holds; one with a
/// result alone is that result; one with neither is ambiguous.
pub proof fn law_an_answer_is_judged_by_its_error_and_result(
    result: Option<Tree>,
    error: Option<Tree>,
    value: Tree,
)
    ensures
        error is Some ==> client::verdict(result, error) == Err::<Tree, Failure>(
            Failure::Rejected("Codex integration request was rejected"@),
        ),
        client::verdict(Some(value), None) == Ok::<Tree, Failure>(value),
        client::verdict(None, None) == Err::<Tree, Failure>(
            Failure::Ambiguous("Codex integration incompatible response"@),
        ),
{
}

/// Of an answer, the one that is awaited is the reply and changes nothing; any
/// other is kept under its own id, beside what is kept already, and ends no
/// waiting.
pub proof fn law_an_answer_is_for_its_own_request(
    session: Session,
    wanted: u64,
    id: u64,
    other: u64,
    result: Option<Tree>,
    error: Option<Tree>,
)
    requires
        other != id,
    ensures
        ({
            let (after, reply) = session.heard(
                wanted,
                Occurrence::Message(Heard::Response { id, result, error }),
            );
            &&& id == wanted ==> after == session && reply == Some(client::verdict(result, error))
            &&& id != wanted ==> {
                &&& reply is None
                &&& after.pending.contains_key(id)
                &&& after.pending[id] == client::verdict(result, error)
                &&& after.pending.contains_key(other) == session.pending.contains_key(other)
                &&& session.pending.contains_key(other) ==> after.pending[other]
                    == session.pending[other]
                &&& (Session { pending: session.pending, ..after }) == session
            }
        }),
{
}

/// A wait that nothing can come of any more ends as ambiguous, with the reason,
/// and changes nothing.
pub proof fn law_a_broken_wait_is_ambiguous(session: Session, wanted: u64)
    ensures
        session.heard(wanted, Occurrence::Message(Heard::Malformed)) == (
            session,
            Some(
                Err::<Tree, Failure>(
                    Failure::Ambiguous(
                        "Codex integration incompatible: malformed protocol frame"@,
                    ),
                ),
            ),
        ),
        session.heard(wanted, Occurrence::Message(Heard::Eof)) == (
            session,
            Some(
                Err::<Tree, Failure>(Failure::Ambiguous("Codex integration connection closed"@)),
            ),
        ),
        session.heard(wanted, Occurrence::Disconnected) == (
            session,
            Some(
                Err::<Tree, Failure>(Failure::Ambiguous("Codex integration connection closed"@)),
            ),
        ),
        session.heard(wanted, Occurrence::TimedOut) == (
            session,
            Some(
                Err::<Tree, Failure>(Failure::Ambiguous("Codex integration request timed out"@)),
            ),
        ),
{
}

/// A notification is noticed by its name and ends no waiting; it changes the
/// status exactly if it is a status change that says one, to the bounded form
/// of what it says.
pub proof fn law_a_notification_is_noticed_and_may_change_the_status(
    session: Session,
    wanted: u64,
    method: Seq<char>,
    params: Tree,
    status: Tree,
    kind: Seq<char>,
)
    ensures
        ({
            let (after, reply) = session.heard(
                wanted,
                Occurrence::Message(Heard::Notification { method, params }),
            );
            let changes = method == "thread/status/changed"@;
            &&& reply is None
            &&& after == session.notified(method, params)
            &&& after.notices == session.noticed(method).notices
            &&& after.pending == session.pending
            &&& after.next_id == session.next_id
            &&& after.requests == session.requests
            &&& after.subscribed == session.subscribed
            &&& changes && params.get("status"@) == Some(status) && status.get("type"@) == Some(
                Tree::Text(kind),
            ) ==> after.status == rpc::bounded(kind)
            &&& !changes ==> after.status == session.status
            &&& params.get("status"@) is None ==> after.status == session.status
            &&& params.get("status"@) == Some(status) && status.text_at("type"@) is None
                ==> after.status == session.status
        }),
{
}

/// A request of the server is noticed as ignored, and does nothing else.
pub proof fn law_a_server_request_is_ignored(session: Session, wanted: u64, method: Seq<char>)
    ensures
        session.heard(wanted, Occurrence::Message(Heard::ServerRequest { method })) == (
            session.noticed("server request ignored: "@ + method),
            None::<Result<Tree, Failure>>,
        ),
{
}

/// An answer that is kept is handed out once, under its own id, and what is
/// kept for others stays.
pub proof fn law_a_kept_answer_is_handed_out_once(session: Session, wanted: u64, other: u64)
    requires
        other != wanted,
    ensures
        ({
            let (after, reply) = session.claimed(wanted);
            &&& session.pending.contains_key(wanted) ==> reply == Some(session.pending[wanted])
            &&& !session.pending.contains_key(wanted) ==> reply is None && after == session
            &&& after.claimed(wanted).1 is None
            &&& after.claimed(other).1 == session.claimed(other).1
            &&& (Session { pending: session.pending, ..after }) == session
        }),
{
    let (after, reply) = session.claimed(wanted);
    if !session.pending.contains_key(wanted) {
        assert(after =~= session);
    }
}

/// Waiting takes events one by one: a wait that one event does not end goes on
/// with what that event left, and one that it ends leaves the others unread. A
/// kept answer ends it before any event.
pub proof fn law_waiting_takes_events_one_by_one(
    session: Session,
    wanted: u64,
    event: Occurrence,
    later: Seq<Occurrence>,
)
    ensures
        ({
            let wait = client::awaited(session, wanted, seq![event] + later);
            let (next, reply) = session.heard(wanted, event);
            if session.pending.contains_key(wanted) {
                &&& wait.session == session.claimed(wanted).0
                &&& wait.reply == session.claimed(wanted).1
                &&& wait.rest == seq![event] + later
            } else if reply is Some {
                &&& wait.session == next
                &&& wait.reply == reply
                &&& wait.rest == later
            } else {
                wait == client::awaited(next, wanted, later)
            }
        }),
        !session.pending.contains_key(wanted) ==> client::awaited(session, wanted, seq![]).reply
            is None && client::awaited(session, wanted, seq![]).session == session,
{
    let all = seq![event] + later;
    assert(all.drop_first() =~= later);
    assert(all.first() == event);
}

/// A client that holds another thread releases that one first: its first
/// request is to unsubscribe, and names the thread that is held. Until the
/// reply it holds what it held.
pub proof fn law_a_switch_first_releases_what_is_held(
    session: Session,
    held: Seq<char>,
    thread: Seq<char>,
    other: Seq<char>,
)
    requires
        session.subscribed == Some(held),
        held != thread,
    ensures
        ({
            let (after, plan) = session.attaching(thread);
            &&& plan matches Plan::Ask { stage, request } && {
                &&& stage == Stage::Release
                &&& request.id == session.next_id
                &&& request.message.get("method"@) == Some(Tree::Text("thread/unsubscribe"@))
                &&& request.message.get("params"@) matches Some(params) && {
                    &&& params.get("threadId"@) == Some(Tree::Text(held))
                    &&& params.get(other) is Some ==> other == "threadId"@
                }
            }
            &&& after == session.asked("thread/unsubscribe"@)
        }),
{
    lemma_names_differ();
}

/// A client that holds the thread already asks for nothing and changes
/// nothing; one that holds none begins with the thread's metadata, without its
/// turns.
pub proof fn law_an_attachment_begins_with_the_metadata(
    session: Session,
    thread: Seq<char>,
    other: Seq<char>,
)
    ensures
        session.subscribed == Some(thread) ==> session.attaching(thread) == (session, Plan::Done),
        session.subscribed is None ==> asks_for_metadata(
            session,
            session.attaching(thread),
            thread,
            other,
        ),
{
    lemma_names_differ();
}

/// Whether a session asks for the metadata of a thread, and for nothing else.
pub open spec fn asks_for_metadata(
    before: Session,
    step: (Session, Plan),
    thread: Seq<char>,
    other: Seq<char>,
) -> bool {
    &&& step.1 matches Plan::Ask { stage, request } && {
        &&& stage == Stage::Read
        &&& request.id == before.next_id
        &&& request.message.get("method"@) == Some(Tree::Text("thread/read"@))
        &&& request.message.get("params"@) matches Some(params) && {
            &&& params.get("threadId"@) == Some(Tree::Text(thread))
            &&& params.get("includeTurns"@) == Some(Tree::Bool(false))
            &&& params.get(other) is Some ==> other == "threadId"@ || other == "includeTurns"@
        }
    }
    &&& step.0 == before.asked("thread/read"@)
}

/// An attachment goes on as its requests are agreed to: a release leaves no
/// subscription and asks for the metadata; the metadata lead to the request to
/// resume that thread, without its turns; and that leaves the client subscribed
/// to it. A request that fails ends the attachment and changes nothing.
pub proof fn law_an_attachment_goes_on_as_it_is_agreed_to(
    session: Session,
    thread: Seq<char>,
    stage: Stage,
    answer: Tree,
    failure: Failure,
    other: Seq<char>,
)
    ensures
        session.attached_on(thread, stage, Err(failure)) == (session, Err::<Plan, Failure>(failure)),
        ({
            let (after, plan) = session.attached_on(thread, Stage::Release, Ok(answer));
            let free = Session { subscribed: None, status: "connected"@, ..session };
            plan matches Ok(plan) && asks_for_metadata(free, (after, plan), thread, other)
        }),
        ({
            let (after, plan) = session.attached_on(thread, Stage::Read, Ok(answer));
            &&& plan matches Ok(Plan::Ask { stage: next, request }) && {
                &&& next == Stage::Resume
                &&& request.id == session.next_id
                &&& request.message.get("method"@) == Some(Tree::Text("thread/resume"@))
                &&& request.message.get("params"@) matches Some(params) && {
                    &&& params.get("threadId"@) == Some(Tree::Text(thread))
                    &&& params.get("excludeTurns"@) == Some(Tree::Bool(true))
                    &&& params.get(other) is Some ==> other == "threadId"@ || other
                        == "excludeTurns"@
                }
            }
            &&& after == session.asked("thread/resume"@)
        }),
        session.attached_on(thread, Stage::Resume, Ok(answer)) == (
            Session { subscribed: Some(thread), status: "subscribed"@, ..session },
            Ok::<Plan, Failure>(Plan::Done),
        ),
{
    lemma_names_differ();
}

/// Giving up a subscription asks to unsubscribe from the thread that is held,
/// and from nothing where none is held; it is given up exactly if that is
/// agreed to.
pub proof fn law_a_detachment_names_what_is_held(
    session: Session,
    held: Seq<char>,
    answer: Tree,
    failure: Failure,
    other: Seq<char>,
)
    ensures
        session.subscribed is None ==> session.detaching() == (session, None::<Asked>),
        session.subscribed == Some(held) ==> {
            let (after, asked) = session.detaching();
            &&& after == session.asked("thread/unsubscribe"@)
            &&& asked matches Some(request) && {
                &&& request.id == session.next_id
                &&& request.message.get("method"@) == Some(Tree::Text("thread/unsubscribe"@))
                &&& request.message.get("params"@) matches Some(params) && {
                    &&& params.get("threadId"@) == Some(Tree::Text(held))
                    &&& params.get(other) is Some ==> other == "threadId"@
                }
            }
        },
        session.detached_on(Err(failure)) == (session, Err::<(), Failure>(failure)),
        session.detached_on(Ok(answer)) == (
            Session { subscribed: None, status: "connected"@, ..session },
            Ok::<(), Failure>(()),
        ),
{
    lemma_names_differ();
}

/// The subscription that a server holds after it has done what a message says:
/// it drops the thread that it is told to unsubscribe from, if that is the one
/// it holds, and holds the thread that it is told to resume.
pub open spec fn obeyed(held: Option<Seq<char>>, message: Tree) -> Option<Seq<char>> {
    match message.get("params"@) {
        Some(params) => match params.text_at("threadId"@) {
            Some(named) => if message.text_at("method"@) == Some("thread/unsubscribe"@) {
                if held == Some(named) {
                    None
                } else {
                    held
                }
            } else if message.text_at("method"@) == Some("thread/resume"@) {
                Some(named)
            } else {
                held
            },
            None => held,
        },
        None => held,
    }
}

/// An attachment with a server that does what each request says that it agrees
/// to: what the client knows in the end, what the server holds in the end, and
/// whether the server said of each request whether it was done.
pub open spec fn served(
    session: Session,
    plan: Result<Plan, Failure>,
    thread: Seq<char>,
    events: Seq<Occurrence>,
    held: Option<Seq<char>>,
) -> (Session, Option<Seq<char>>, bool)
    decreases lifecycle::replies_needed(plan),
{
    match plan {
        Ok(Plan::Ask { stage, request }) => {
            let wait = client::awaited(session, request.id, events);
            match wait.reply {
                None => (wait.session, held, true),
                Some(reply) => {
                    let now = if reply is Ok {
                        obeyed(held, request.message)
                    } else {
                        held
                    };
                    let (next, further) = wait.session.attached_on(thread, stage, reply);
                    let (last, held_last, definite) = served(
                        next,
                        further,
                        thread,
                        wait.rest,
                        now,
                    );
                    (last, held_last, definite && !(reply matches Err(Failure::Ambiguous(_))))
                },
            }
        },
        _ => (session, held, true),
    }
}

/// The client records what the server holds: if the server does what each
/// request that it agrees to says, by the request's own method and parameters,
/// then after any attachment the two agree, as long as the server says of each
/// request whether it was done.
pub proof fn law_the_client_records_what_the_server_holds(
    session: Session,
    thread: Seq<char>,
    events: Seq<Occurrence>,
)
    ensures
        ({
            let (first, plan) = session.attaching(thread);
            let (last, held, definite) = served(
                first,
                Ok(plan),
                thread,
                events,
                session.subscribed,
            );
            &&& last == lifecycle::attachment(session, thread, events).session
            &&& definite ==> last.subscribed == held
        }),
{
    let (first, plan) = session.attaching(thread);
    lemma_names_differ();
    lemma_methods_differ();
    lemma_served(first, Ok(plan), thread, events, session.subscribed, seq![]);
}

/// What a pending request will do to the server, by its stage.
spec fn in_step(
    session: Session,
    plan: Result<Plan, Failure>,
    thread: Seq<char>,
    held: Option<Seq<char>>,
) -> bool {
    &&& session.subscribed == held
    &&& plan matches Ok(Plan::Ask { stage, request }) ==> match stage {
        Stage::Release => obeyed(held, request.message) is None,
        Stage::Read => held is None && obeyed(held, request.message) is None,
        Stage::Resume => obeyed(held, request.message) == Some(thread),
    }
}

proof fn lemma_served(
    session: Session,
    plan: Result<Plan, Failure>,
    thread: Seq<char>,
    events: Seq<Occurrence>,
    held: Option<Seq<char>>,
    trail: Seq<(Stage, Result<Tree, Failure>)>,
)
    requires
        in_step(session, plan, thread, held),
    ensures
        ({
            let (last, held_last, definite) = served(session, plan, thread, events, held);
            &&& last == lifecycle::carried(session, plan, thread, events, trail).session
            &&& definite ==> last.subscribed == held_last
        }),
    decreases lifecycle::replies_needed(plan),
{
    lemma_names_differ();
    lemma_methods_differ();
    if plan is Ok && plan->Ok_0 is Ask {
        let request = plan->Ok_0->request;
        let stage = plan->Ok_0->stage;
        let wait = client::awaited(session, request.id, events);
        lemma_waiting_keeps_the_subscription(session, request.id, events);
        if let Some(reply) = wait.reply {
            let now = if reply is Ok {
                obeyed(held, request.message)
            } else {
                held
            };
            let (next, further) = wait.session.attached_on(thread, stage, reply);
            assert(in_step(next, further, thread, now));
            lemma_served(next, further, thread, wait.rest, now, trail.push((stage, reply)));
        }
    }
}

proof fn lemma_waiting_keeps_the_subscription(
    session: Session,
    wanted: u64,
    events: Seq<Occurrence>,
)
    ensures
        client::awaited(session, wanted, events).session.subscribed == session.subscribed,
    decreases events.len(),
{
    if !session.pending.contains_key(wanted) && events.len() > 0 {
        let (next, reply) = session.heard(wanted, events.first());
        if reply is None {
            lemma_waiting_keeps_the_subscription(next, wanted, events.drop_first());
        }
    }
}

/// What is shown of a client is what it knows: the thread that it is subscribed
/// to, its status as it is, its notices, and a sentence that goes by whether it
/// is subscribed.
pub proof fn law_a_report_shows_what_the_client_knows(session: Session)
    ensures
        client::shown(session).available,
        client::shown(session).connected,
        client::shown(session).subscribed == session.subscribed,
        client::shown(session).status == session.status,
        client::shown(session).notices == session.notices,
        session.subscribed is Some ==> client::shown(session).detail
            == "Read-only attachment active ("@ + session.status + ")"@,
        session.subscribed is None ==> client::shown(session).detail
            == "Connected; choose a thread"@,
        !client::off().available,
        !client::off().connected,
        client::off().subscribed is None,
        client::off().status == "disconnected"@,
        client::off().detail == "Codex is off"@,
        client::off().notices.len() == 0,
{
}

/// After a status change that says a type, the report shows the bounded form of
/// that type, with or without a subscription.
pub proof fn law_a_status_change_is_reported(
    session: Session,
    params: Tree,
    status: Tree,
    kind: Seq<char>,
)
    requires
        params.get("status"@) == Some(status),
        status.get("type"@) == Some(Tree::Text(kind)),
    ensures
        client::shown(session.notified("thread/status/changed"@, params)).status == rpc::bounded(
            kind,
        ),
{
}

/// Whether an event is a status change.
pub open spec fn is_status_change(event: Occurrence) -> bool {
    event matches Occurrence::Message(Heard::Notification { method, .. }) && method
        == "thread/status/changed"@
}

/// The reported status stays as it is through requests, through whatever comes
/// while an answer is awaited but for status changes, through the beginning of
/// an attachment and of a detachment, and through refusals; it becomes
/// "connected" when a subscription is released and "subscribed" when one is
/// made.
pub proof fn law_the_reported_status_stays_until_it_changes(
    session: Session,
    wanted: u64,
    events: Seq<Occurrence>,
    method: Seq<char>,
    thread: Seq<char>,
    stage: Stage,
    answer: Tree,
    failure: Failure,
)
    requires
        forall|i: int| 0 <= i < events.len() ==> !is_status_change(#[trigger] events[i]),
    ensures
        client::shown(client::awaited(session, wanted, events).session).status == client::shown(
            session,
        ).status,
        client::shown(session.asked(method)).status == client::shown(session).status,
        client::shown(session.attaching(thread).0).status == client::shown(session).status,
        client::shown(session.detaching().0).status == client::shown(session).status,
        client::shown(session.attached_on(thread, stage, Err(failure)).0).status == client::shown(
            session,
        ).status,
        client::shown(session.attached_on(thread, Stage::Read, Ok(answer)).0).status
            == client::shown(session).status,
        client::shown(session.detached_on(Err(failure)).0).status == client::shown(session).status,
        client::shown(session.attached_on(thread, Stage::Release, Ok(answer)).0).status
            == "connected"@,
        client::shown(session.detached_on(Ok(answer)).0).status == "connected"@,
        client::shown(session.attached_on(thread, Stage::Resume, Ok(answer)).0).status
            == "subscribed"@,
    decreases events.len(),
{
    if !session.pending.contains_key(wanted) && events.len() > 0 {
        let (next, reply) = session.heard(wanted, events.first());
        assert(!is_status_change(events[0]));
        if reply is None {
            let later = events.drop_first();
            assert forall|i: int| 0 <= i < later.len() implies !is_status_change(
                #[trigger] later[i],
            ) by {
                assert(later[i] == events[i + 1]);
            }
            law_the_reported_status_stays_until_it_changes(
                next,
                wanted,
                later,
                method,
                thread,
                stage,
                answer,
                failure,
            );
        }
    }
}

/// Events mean what each of them means, in their order.
pub proof fn law_events_mean_what_each_means(events: Seq<client::Event>, place: int)
    ensures
        client::occurrences(events).len() == events.len(),
        0 <= place < events.len() ==> client::occurrences(events)[place] == events[place]@,
{
}

}
