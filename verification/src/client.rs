//! Read-only client for a separately owned `codex app-server --stdio` child.
//!
//! This deliberately has no way to send an arbitrary request. The allowlist
//! below is the complete surface; a write-capable method cannot be emitted.
//!
//! The client decides and remembers. Starting the child, writing lines to it
//! and waiting for its lines is up to the caller, who hands in what happened.

use std::collections::{HashMap, VecDeque};

use vstd::prelude::*;

use crate::json::{Json, ObjectBuilder, Tree};
use crate::rpc::{self, bounded_method, Heard, Incoming};
use crate::text::{self, same};
use crate::threads::{self, thread_summaries, ThreadSummary, THREAD_LIMIT};

verus! {

/// There must never be a write method in this list. Keep it public to make
/// that privacy boundary mechanically testable.
pub const READ_ONLY_METHODS: [&'static str; 5] = [
    "initialize",
    "thread/list",
    "thread/read",
    "thread/resume",
    "thread/unsubscribe",
];

/// How many requests are remembered.
pub const REQUEST_LOG: usize = 16;

/// How many notices are remembered.
pub const NOTICE_LOG: usize = 12;

/// Whether a method may be asked for.
pub open spec fn read_only(method: Seq<char>) -> bool {
    exists|i: int| 0 <= i < READ_ONLY_METHODS@.len() && (#[trigger] READ_ONLY_METHODS@[i])@ == method
}

/// The methods that the client asks for are on the allowlist.
pub proof fn lemma_own_methods()
    ensures
        read_only("initialize"@),
        read_only("thread/list"@),
        read_only("thread/read"@),
        read_only("thread/resume"@),
        read_only("thread/unsubscribe"@),
{
    let methods = READ_ONLY_METHODS@;
    assert(methods[0]@ == "initialize"@);
    assert(methods[1]@ == "thread/list"@);
    assert(methods[2]@ == "thread/read"@);
    assert(methods[3]@ == "thread/resume"@);
    assert(methods[4]@ == "thread/unsubscribe"@);
}

fn is_read_only(method: &str) -> (allowed: bool)
    ensures
        allowed == read_only(method@),
{
    let methods = READ_ONLY_METHODS;
    let mut i: usize = 0;
    while i < methods.len()
        invariant
            i <= methods@.len(),
            methods == READ_ONLY_METHODS,
            forall|j: int| 0 <= j < i ==> (#[trigger] methods@[j])@ != method@,
        decreases methods@.len() - i,
    {
        if same(methods[i], method) {
            return true;
        }
        i += 1;
    }
    false
}

/// Why a request failed. A rejected one had no effect; of an ambiguous one
/// nobody here knows whether the server applied it.
#[derive(Debug, PartialEq, Eq)]
pub enum RequestFailure {
    Rejected(String),
    Ambiguous(String),
}

/// What a `RequestFailure` says.
pub enum Failure {
    Rejected(Seq<char>),
    Ambiguous(Seq<char>),
}

impl View for RequestFailure {
    type V = Failure;

    open spec fn view(&self) -> Failure {
        match *self {
            RequestFailure::Rejected(message) => Failure::Rejected(message@),
            RequestFailure::Ambiguous(message) => Failure::Ambiguous(message@),
        }
    }
}

impl Failure {
    pub open spec fn message(self) -> Seq<char> {
        match self {
            Failure::Rejected(message) => message,
            Failure::Ambiguous(message) => message,
        }
    }
}

impl RequestFailure {
    pub fn message(&self) -> (message: &str)
        ensures
            message@ == self@.message(),
    {
        match self {
            RequestFailure::Rejected(message) => message.as_str(),
            RequestFailure::Ambiguous(message) => message.as_str(),
        }
    }

    /// Whether the connection has to be closed: the server may already have
    /// applied the request, so closing is the only safe subscription reset.
    pub fn is_ambiguous(&self) -> (ambiguous: bool)
        ensures
            ambiguous == (self@ is Ambiguous),
    {
        match self {
            RequestFailure::Ambiguous(_) => true,
            RequestFailure::Rejected(_) => false,
        }
    }

    fn rejected(message: &str) -> (failure: RequestFailure)
        ensures
            failure@ == Failure::Rejected(message@),
    {
        RequestFailure::Rejected(message.to_owned())
    }

    fn ambiguous(message: &str) -> (failure: RequestFailure)
        ensures
            failure@ == Failure::Ambiguous(message@),
    {
        RequestFailure::Ambiguous(message.to_owned())
    }
}

/// The outcome of a request.
pub type Reply = Result<Json, RequestFailure>;

/// What a reply says.
pub open spec fn reply_view(reply: Reply) -> Result<Tree, Failure> {
    match reply {
        Ok(value) => Ok(value@),
        Err(failure) => Err(failure@),
    }
}

/// A request to be written, and the id that its answer will carry.
pub struct Outgoing {
    pub id: u64,
    pub message: Json,
}

/// What an `Outgoing` says.
pub struct Asked {
    pub id: u64,
    pub message: Tree,
}

impl View for Outgoing {
    type V = Asked;

    open spec fn view(&self) -> Asked {
        Asked { id: self.id, message: self.message@ }
    }
}

/// The message of a request.
pub open spec fn request_message(id: u64, method: Seq<char>, params: Tree) -> Tree {
    Tree::Object(
        map![
            "jsonrpc"@ => Tree::Text("2.0"@),
            "id"@ => Tree::Integer(id as int),
            "method"@ => Tree::Text(method),
            "params"@ => params,
        ],
    )
}

/// The message of a notification.
pub open spec fn notification_message(method: Seq<char>, params: Tree) -> Tree {
    Tree::Object(
        map![
            "jsonrpc"@ => Tree::Text("2.0"@),
            "method"@ => Tree::Text(method),
            "params"@ => params,
        ],
    )
}

/// The message of a notification for any method, or why it is refused.
pub open spec fn notification(method: Seq<char>, params: Tree) -> Result<Tree, Failure> {
    if method == "initialized"@ {
        Ok(notification_message(method, params))
    } else {
        Err(Failure::Rejected("Codex integration rejected a non-read-only notification"@))
    }
}

/// A log with one more entry; a full one drops its oldest.
pub open spec fn logged(log: Seq<Seq<char>>, entry: Seq<char>, limit: nat) -> Seq<Seq<char>> {
    if log.len() == limit {
        log.drop_first().push(entry)
    } else {
        log.push(entry)
    }
}

/// Which request of an attachment is under way.
#[derive(Clone, Copy, Debug, PartialEq, Eq, Structural)]
pub enum Stage {
    /// Giving up the subscription that is held.
    Release,
    Read,
    Resume,
}

/// How an attachment goes on.
pub enum Progress {
    Done,
    Ask { stage: Stage, request: Outgoing },
}

/// What a `Progress` says.
pub enum Plan {
    Done,
    Ask { stage: Stage, request: Asked },
}

impl View for Progress {
    type V = Plan;

    open spec fn view(&self) -> Plan {
        match *self {
            Progress::Done => Plan::Done,
            Progress::Ask { stage, request } => Plan::Ask { stage, request: request@ },
        }
    }
}

/// What came while an answer was awaited.
pub enum Event {
    Message(Incoming),
    TimedOut,
    Disconnected,
}

/// What an `Event` means.
pub enum Occurrence {
    Message(Heard),
    TimedOut,
    Disconnected,
}

impl View for Event {
    type V = Occurrence;

    open spec fn view(&self) -> Occurrence {
        match *self {
            Event::Message(incoming) => Occurrence::Message(incoming@),
            Event::TimedOut => Occurrence::TimedOut,
            Event::Disconnected => Occurrence::Disconnected,
        }
    }
}

/// What a response says about its request.
pub open spec fn verdict(result: Option<Tree>, error: Option<Tree>) -> Result<Tree, Failure> {
    match (result, error) {
        (Some(result), None) => Ok(result),
        (_, Some(_)) => Err(Failure::Rejected("Codex integration request was rejected"@)),
        (None, None) => Err(Failure::Ambiguous("Codex integration incompatible response"@)),
    }
}

/// The parameters that name a thread.
pub open spec fn thread_params(thread: Seq<char>) -> Tree {
    Tree::Object(map!["threadId"@ => Tree::Text(thread)])
}

/// The parameters that name a thread and keep its turns out of the answer.
pub open spec fn metadata_params(thread: Seq<char>, flag: Seq<char>, value: bool) -> Tree {
    Tree::Object(map!["threadId"@ => Tree::Text(thread), flag => Tree::Bool(value)])
}

/// The parameters of `thread/list`.
pub open spec fn list_params() -> Tree {
    Tree::Object(
        map![
            "limit"@ => Tree::Integer(THREAD_LIMIT as int),
            "archived"@ => Tree::Bool(false),
            "useStateDbOnly"@ => Tree::Bool(true),
        ],
    )
}

/// The parameters of `initialize`.
pub open spec fn initialize_params(version: Seq<char>) -> Tree {
    Tree::Object(
        map![
            "clientInfo"@ => Tree::Object(map![
                "name"@ => Tree::Text("overterm"@),
                "version"@ => Tree::Text(version),
            ]),
            "capabilities"@ => Tree::Object(map!["experimentalApi"@ => Tree::Bool(false)]),
        ],
    )
}

/// What a client knows.
#[verifier::ext_equal]
pub struct Session {
    pub next_id: u64,
    pub pending: Map<u64, Result<Tree, Failure>>,
    pub notices: Seq<Seq<char>>,
    pub requests: Seq<Seq<char>>,
    pub subscribed: Option<Seq<char>>,
    pub status: Seq<char>,
}

impl Session {
    pub open spec fn fresh() -> Session {
        Session {
            next_id: 1,
            pending: Map::empty(),
            notices: seq![],
            requests: seq![],
            subscribed: None,
            status: "connected"@,
        }
    }

    /// The request for a method, under the next id.
    pub open spec fn request(self, method: Seq<char>, params: Tree) -> Asked {
        Asked { id: self.next_id, message: request_message(self.next_id, method, params) }
    }

    /// After a request for a method.
    pub open spec fn asked(self, method: Seq<char>) -> Session {
        Session {
            next_id: (self.next_id + 1) as u64,
            requests: logged(self.requests, method, REQUEST_LOG as nat),
            ..self
        }
    }

    pub open spec fn noticed(self, notice: Seq<char>) -> Session {
        Session { notices: logged(self.notices, notice, NOTICE_LOG as nat), ..self }
    }

    /// After a notification: its name is noticed, and a status in it is kept.
    pub open spec fn notified(self, method: Seq<char>, params: Tree) -> Session {
        let seen = self.noticed(method);
        if method == "thread/status/changed"@ {
            match threads::status_type(params) {
                Some(status) => Session { status: rpc::bounded(status), ..seen },
                None => seen,
            }
        } else {
            seen
        }
    }

    /// After an event while the answer to a request is awaited, and the reply
    /// if the waiting is over.
    pub open spec fn heard(self, wanted: u64, event: Occurrence) -> (
        Session,
        Option<Result<Tree, Failure>>,
    ) {
        match event {
            Occurrence::Message(Heard::Response { id, result, error }) => if id == wanted {
                (self, Some(verdict(result, error)))
            } else {
                (
                    Session { pending: self.pending.insert(id, verdict(result, error)), ..self },
                    None,
                )
            },
            Occurrence::Message(Heard::Notification { method, params }) => (
                self.notified(method, params),
                None,
            ),
            Occurrence::Message(Heard::ServerRequest { method }) => (
                self.noticed("server request ignored: "@ + method),
                None,
            ),
            Occurrence::Message(Heard::Malformed) => (
                self,
                Some(
                    Err(
                        Failure::Ambiguous(
                            "Codex integration incompatible: malformed protocol frame"@,
                        ),
                    ),
                ),
            ),
            Occurrence::Message(Heard::Eof) => (
                self,
                Some(Err(Failure::Ambiguous("Codex integration connection closed"@))),
            ),
            Occurrence::TimedOut => (
                self,
                Some(Err(Failure::Ambiguous("Codex integration request timed out"@))),
            ),
            Occurrence::Disconnected => (
                self,
                Some(Err(Failure::Ambiguous("Codex integration connection closed"@))),
            ),
        }
    }

    /// Asks for a thread's metadata.
    pub open spec fn reading(self, thread: Seq<char>) -> (Session, Plan) {
        (
            self.asked("thread/read"@),
            Plan::Ask {
                stage: Stage::Read,
                request: self.request(
                    "thread/read"@,
                    metadata_params(thread, "includeTurns"@, false),
                ),
            },
        )
    }

    /// How an attachment to a thread begins. The subscription that is held is
    /// released first.
    pub open spec fn attaching(self, thread: Seq<char>) -> (Session, Plan) {
        match self.subscribed {
            Some(current) => if current == thread {
                (self, Plan::Done)
            } else {
                (
                    self.asked("thread/unsubscribe"@),
                    Plan::Ask {
                        stage: Stage::Release,
                        request: self.request("thread/unsubscribe"@, thread_params(current)),
                    },
                )
            },
            None => self.reading(thread),
        }
    }

    /// A request for any method: what the client makes of it, or why it is
    /// refused.
    pub open spec fn requested(self, method: Seq<char>, params: Tree) -> (
        Session,
        Result<Asked, Failure>,
    ) {
        if read_only(method) {
            (self.asked(method), Ok(self.request(method, params)))
        } else {
            (
                self,
                Err(Failure::Rejected("Codex integration rejected a write-capable method"@)),
            )
        }
    }

    /// The request that sets up the connection.
    pub open spec fn initializing(self, version: Seq<char>) -> (Session, Asked) {
        (self.asked("initialize"@), self.request("initialize"@, initialize_params(version)))
    }

    /// The request for the threads.
    pub open spec fn listing(self) -> (Session, Asked) {
        (self.asked("thread/list"@), self.request("thread/list"@, list_params()))
    }

    /// The request that gives up the subscription, if one is held.
    pub open spec fn detaching(self) -> (Session, Option<Asked>) {
        match self.subscribed {
            Some(thread) => (
                self.asked("thread/unsubscribe"@),
                Some(self.request("thread/unsubscribe"@, thread_params(thread))),
            ),
            None => (self, None),
        }
    }

    /// After the reply to the request to give the subscription up.
    pub open spec fn detached_on(self, reply: Result<Tree, Failure>) -> (
        Session,
        Result<(), Failure>,
    ) {
        match reply {
            Ok(_) => (self.released(), Ok(())),
            Err(failure) => (self, Err(failure)),
        }
    }

    /// An answer that is kept is taken by whoever waits for it.
    pub open spec fn claimed(self, wanted: u64) -> (Session, Option<Result<Tree, Failure>>) {
        (
            Session { pending: self.pending.remove(wanted), ..self },
            if self.pending.contains_key(wanted) {
                Some(self.pending[wanted])
            } else {
                None
            },
        )
    }

    /// After a subscription is given up.
    pub open spec fn released(self) -> Session {
        Session { subscribed: None, status: "connected"@, ..self }
    }

    /// How an attachment goes on after the reply to one of its requests.
    pub open spec fn attached_on(
        self,
        thread: Seq<char>,
        stage: Stage,
        reply: Result<Tree, Failure>,
    ) -> (Session, Result<Plan, Failure>) {
        match reply {
            Err(failure) => (self, Err(failure)),
            Ok(_) => match stage {
                Stage::Release => {
                    let (session, plan) = self.released().reading(thread);
                    (session, Ok(plan))
                },
                Stage::Read => (
                    self.asked("thread/resume"@),
                    Ok(
                        Plan::Ask {
                            stage: Stage::Resume,
                            request: self.request(
                                "thread/resume"@,
                                metadata_params(thread, "excludeTurns"@, true),
                            ),
                        },
                    ),
                ),
                Stage::Resume => (
                    Session { subscribed: Some(thread), status: "subscribed"@, ..self },
                    Ok(Plan::Done),
                ),
            },
        }
    }
}

/// How a wait for the answer to a request went: the reply, if there is one,
/// and the events that were not needed for it.
#[verifier::ext_equal]
pub struct Wait {
    pub session: Session,
    pub reply: Option<Result<Tree, Failure>>,
    pub rest: Seq<Occurrence>,
}

/// What comes of waiting for the answer to a request through a run of events:
/// an answer that is kept already is taken, else the events are taken in one
/// by one until one of them ends the waiting. There is no reply if none does.
/// Events behind the one that ends the waiting stay for whoever waits next.
pub open spec fn awaited(session: Session, wanted: u64, events: Seq<Occurrence>) -> Wait
    decreases events.len(),
{
    if session.pending.contains_key(wanted) {
        Wait {
            session: Session { pending: session.pending.remove(wanted), ..session },
            reply: Some(session.pending[wanted]),
            rest: events,
        }
    } else if events.len() == 0 {
        Wait { session, reply: None, rest: events }
    } else {
        let (next, reply) = session.heard(wanted, events.first());
        if reply is Some {
            Wait { session: next, reply, rest: events.drop_first() }
        } else {
            awaited(next, wanted, events.drop_first())
        }
    }
}

/// What some events mean.
pub open spec fn occurrences(events: Seq<Event>) -> Seq<Occurrence> {
    events.map_values(|event: Event| event@)
}

/// What the pending answers say.
pub open spec fn replies(pending: Map<u64, Reply>) -> Map<u64, Result<Tree, Failure>> {
    Map::new(|id: u64| pending.contains_key(id), |id: u64| reply_view(pending[id]))
}

/// A client of one child process.
pub struct Client {
    next_id: u64,
    pending: HashMap<u64, Reply>,
    notifications: VecDeque<String>,
    requests: VecDeque<String>,
    subscribed: Option<String>,
    status: String,
}

/// Adds an entry to a log that keeps a number of them.
fn push_bounded(log: &mut VecDeque<String>, entry: String, limit: usize)
    requires
        limit > 0,
    ensures
        text::entries(final(log)@) == logged(text::entries(old(log)@), entry@, limit as nat),
{
    let ghost before = text::entries(log@);
    if log.len() == limit {
        let _ = log.pop_front();
        assert(text::entries(log@) =~= before.drop_first());
    }
    let ghost middle = text::entries(log@);
    log.push_back(entry);
    assert(text::entries(log@) =~= middle.push(entry@));
}

impl Client {
    /// What the client knows.
    pub closed spec fn view(self) -> Session {
        Session {
            next_id: self.next_id,
            pending: replies(self.pending@),
            notices: text::entries(self.notifications@),
            requests: text::entries(self.requests@),
            subscribed: match self.subscribed {
                Some(thread) => Some(thread@),
                None => None,
            },
            status: self.status@,
        }
    }

    /// A client of a child that has just been started.
    pub fn new() -> (client: Client)
        ensures
            client@ == Session::fresh(),
    {
        let client = Client {
            next_id: 1,
            pending: HashMap::new(),
            notifications: VecDeque::new(),
            requests: VecDeque::new(),
            subscribed: None,
            status: "connected".to_owned(),
        };
        assert(client@ =~= Session::fresh());
        client
    }

    /// Whether there is an id left for another request.
    pub fn has_ids(&self) -> (left: bool)
        ensures
            left == (self@.next_id < u64::MAX),
    {
        self.next_id < u64::MAX
    }

    /// The message of a notification. `initialized` is the only one that this
    /// client may emit.
    pub fn notify(&self, method: &str, params: Json) -> (message: Reply)
        ensures
            reply_view(message) == (if method@ == "initialized"@ {
                Ok(notification_message(method@, params@))
            } else {
                Err(
                    Failure::Rejected(
                        "Codex integration rejected a non-read-only notification"@,
                    ),
                )
            }),
            reply_view(message) == notification(method@, params@),
    {
        if !same(method, "initialized") {
            return Err(
                RequestFailure::rejected("Codex integration rejected a non-read-only notification"),
            );
        }
        Ok(
            ObjectBuilder::new().with("jsonrpc", Json::text("2.0")).with(
                "method",
                Json::text(method),
            ).with("params", params).build(),
        )
    }

    /// Asks for a method, under the next id. Every request comes from here, so
    /// none asks for a method that is not on the allowlist.
    fn ask(&mut self, method: &str, params: Json) -> (request: Outgoing)
        requires
            read_only(method@),
            old(self)@.next_id < u64::MAX,
        ensures
            request@ == old(self)@.request(method@, params@),
            final(self)@ == old(self)@.asked(method@),
    {
        push_bounded(&mut self.requests, method.to_owned(), REQUEST_LOG);
        let id = self.next_id;
        self.next_id = id + 1;
        let message = ObjectBuilder::new().with("jsonrpc", Json::text("2.0")).with(
            "id",
            Json::Unsigned(id),
        ).with("method", Json::text(method)).with("params", params).build();
        assert(self@ =~= old(self)@.asked(method@));
        Outgoing { id, message }
    }

    /// Asks for a method of the allowlist; any other is refused.
    pub fn request(&mut self, method: &str, params: Json) -> (request: Result<
        Outgoing,
        RequestFailure,
    >)
        requires
            read_only(method@) ==> old(self)@.next_id < u64::MAX,
        ensures
            match request {
                Ok(request) => {
                    &&& read_only(method@)
                    &&& request@ == old(self)@.request(method@, params@)
                    &&& final(self)@ == old(self)@.asked(method@)
                },
                Err(failure) => {
                    &&& !read_only(method@)
                    &&& failure@ == Failure::Rejected(
                        "Codex integration rejected a write-capable method"@,
                    )
                    &&& final(self)@ == old(self)@
                },
            },
            ({
                let (session, asked) = old(self)@.requested(method@, params@);
                &&& final(self)@ == session
                &&& match request {
                    Ok(request) => asked == Ok::<Asked, Failure>(request@),
                    Err(failure) => asked == Err::<Asked, Failure>(failure@),
                }
            }),
    {
        if !is_read_only(method) {
            return Err(
                RequestFailure::rejected("Codex integration rejected a write-capable method"),
            );
        }
        Ok(self.ask(method, params))
    }

    /// Takes an answer that came before it was awaited.
    pub fn claim(&mut self, wanted: u64) -> (reply: Option<Reply>)
        ensures
            match reply {
                Some(reply) => {
                    &&& old(self)@.pending.contains_key(wanted)
                    &&& reply_view(reply) == old(self)@.pending[wanted]
                },
                None => !old(self)@.pending.contains_key(wanted),
            },
            final(self)@ == (Session {
                pending: old(self)@.pending.remove(wanted),
                ..old(self)@
            }),
            ({
                let (session, kept) = old(self)@.claimed(wanted);
                &&& final(self)@ == session
                &&& match reply {
                    Some(reply) => kept == Some(reply_view(reply)),
                    None => kept is None,
                }
            }),
    {
        broadcast use vstd::std_specs::hash::group_hash_axioms;

        let reply = self.pending.remove(&wanted);
        assert(self@.pending =~= old(self)@.pending.remove(wanted));
        reply
    }

    /// Takes in what came while the answer to `wanted` is awaited, and gives
    /// the reply if the waiting is over.
    pub fn receive(&mut self, wanted: u64, event: Event) -> (reply: Option<Reply>)
        ensures
            ({
                let (session, verdict) = old(self)@.heard(wanted, event@);
                &&& final(self)@ == session
                &&& match reply {
                    Some(reply) => verdict == Some(reply_view(reply)),
                    None => verdict is None,
                }
            }),
    {
        broadcast use vstd::std_specs::hash::group_hash_axioms;

        match event {
            Event::Message(Incoming::Response { id, result, error }) => {
                let reply = match (result, error) {
                    (Some(result), None) => Ok(result),
                    (_, Some(_)) => Err(
                        RequestFailure::rejected("Codex integration request was rejected"),
                    ),
                    (None, None) => Err(
                        RequestFailure::ambiguous("Codex integration incompatible response"),
                    ),
                };
                if id == wanted {
                    return Some(reply);
                }
                self.pending.insert(id, reply);
                assert(self@.pending =~= old(self)@.pending.insert(id, reply_view(reply)));
                None
            },
            Event::Message(Incoming::Notification { method, params }) => {
                self.observe_notification(method, params);
                None
            },
            Event::Message(Incoming::ServerRequest { method }) => {
                let mut notice = "server request ignored: ".to_owned();
                notice.append(method.as_str());
                self.push_notice(notice);
                None
            },
            Event::Message(Incoming::Malformed) => Some(
                Err(
                    RequestFailure::ambiguous(
                        "Codex integration incompatible: malformed protocol frame",
                    ),
                ),
            ),
            Event::Message(Incoming::Eof) => Some(
                Err(RequestFailure::ambiguous("Codex integration connection closed")),
            ),
            Event::TimedOut => Some(
                Err(RequestFailure::ambiguous("Codex integration request timed out")),
            ),
            Event::Disconnected => Some(
                Err(RequestFailure::ambiguous("Codex integration connection closed")),
            ),
        }
    }

    /// Waits for the answer to `wanted` through the events that are queued,
    /// and gives the reply if there is one by then. What is queued behind the
    /// event that ends the waiting stays queued.
    pub fn await_response(&mut self, wanted: u64, events: &mut VecDeque<Event>) -> (reply: Option<
        Reply,
    >)
        ensures
            ({
                let wait = awaited(old(self)@, wanted, occurrences(old(events)@));
                &&& final(self)@ == wait.session
                &&& occurrences(final(events)@) == wait.rest
                &&& match reply {
                    Some(reply) => wait.reply == Some(reply_view(reply)),
                    None => wait.reply is None,
                }
            }),
    {
        let ghost wait = awaited(self@, wanted, occurrences(events@));
        let ghost start = self@;
        let claimed = self.claim(wanted);
        if claimed.is_some() {
            return claimed;
        }
        assert(self@ =~= start);
        while events.len() > 0
            invariant
                wait == awaited(old(self)@, wanted, occurrences(old(events)@)),
                wait == awaited(self@, wanted, occurrences(events@)),
                !self@.pending.contains_key(wanted),
            decreases events@.len(),
        {
            let ghost queued = occurrences(events@);
            match events.pop_front() {
                Some(event) => {
                    assert(queued.first() == event@);
                    assert(queued.drop_first() =~= occurrences(events@));
                    let reply = self.receive(wanted, event);
                    if reply.is_some() {
                        return reply;
                    }
                },
                None => {},
            }
        }
        None
    }

    /// Takes in a notification.
    pub fn observe_notification(&mut self, method: String, params: Json)
        ensures
            final(self)@ == old(self)@.notified(method@, params@),
    {
        if same(method.as_str(), "thread/status/changed") {
            let status = match params.get("status") {
                Some(status) => status.text_at("type"),
                None => None,
            };
            match status {
                Some(status) => {
                    self.status = bounded_method(status);
                },
                None => {},
            }
        }
        self.push_notice(method);
    }

    fn push_notice(&mut self, value: String)
        ensures
            final(self)@ == old(self)@.noticed(value@),
    {
        push_bounded(&mut self.notifications, value, NOTICE_LOG);
    }

    /// Asks for the threads.
    pub fn list(&mut self) -> (request: Outgoing)
        requires
            old(self)@.next_id < u64::MAX,
        ensures
            request@ == old(self)@.request("thread/list"@, list_params()),
            final(self)@ == old(self)@.asked("thread/list"@),
            (final(self)@, request@) == old(self)@.listing(),
    {
        proof {
            lemma_own_methods();
        }
        let params = ObjectBuilder::new().with("limit", Json::Unsigned(THREAD_LIMIT)).with(
            "archived",
            Json::Bool(false),
        ).with("useStateDbOnly", Json::Bool(true)).build();
        self.ask("thread/list", params)
    }

    fn read(&mut self, id: &str) -> (progress: Progress)
        requires
            old(self)@.next_id < u64::MAX,
        ensures
            (final(self)@, progress@) == old(self)@.reading(id@),
    {
        proof {
            lemma_own_methods();
        }
        let params = ObjectBuilder::new().with("threadId", Json::text(id)).with(
            "includeTurns",
            Json::Bool(false),
        ).build();
        Progress::Ask { stage: Stage::Read, request: self.ask("thread/read", params) }
    }

    /// Begins an attachment. The current subscription is released first. A
    /// failed unsubscribe leaves the old id recorded and aborts the
    /// replacement, so the client never claims a different
    /// single-subscription state than the server knows.
    pub fn attach(&mut self, id: &str) -> (progress: Progress)
        requires
            old(self)@.subscribed != Some(id@) ==> old(self)@.next_id < u64::MAX,
        ensures
            (final(self)@, progress@) == old(self)@.attaching(id@),
    {
        proof {
            lemma_own_methods();
        }
        let current = match &self.subscribed {
            Some(current) => current.clone(),
            None => {
                return self.read(id);
            },
        };
        if same(current.as_str(), id) {
            return Progress::Done;
        }
        let params = ObjectBuilder::new().with("threadId", Json::text(current.as_str())).build();
        Progress::Ask { stage: Stage::Release, request: self.ask("thread/unsubscribe", params) }
    }

    /// Goes on with an attachment after the reply to the request of a stage.
    pub fn attach_on(&mut self, id: &str, stage: Stage, reply: Reply) -> (progress: Result<
        Progress,
        RequestFailure,
    >)
        requires
            reply is Ok && stage != Stage::Resume ==> old(self)@.next_id < u64::MAX,
        ensures
            ({
                let (session, plan) = old(self)@.attached_on(id@, stage, reply_view(reply));
                &&& final(self)@ == session
                &&& match progress {
                    Ok(progress) => plan == Ok::<Plan, Failure>(progress@),
                    Err(failure) => plan == Err::<Plan, Failure>(failure@),
                }
            }),
    {
        proof {
            lemma_own_methods();
        }
        match reply {
            Ok(_) => {},
            Err(failure) => {
                return Err(failure);
            },
        }
        match stage {
            Stage::Release => {
                self.subscribed = None;
                self.status = "connected".to_owned();
                Ok(self.read(id))
            },
            Stage::Read => {
                let params = ObjectBuilder::new().with("threadId", Json::text(id)).with(
                    "excludeTurns",
                    Json::Bool(true),
                ).build();
                Ok(
                    Progress::Ask {
                        stage: Stage::Resume,
                        request: self.ask("thread/resume", params),
                    },
                )
            },
            Stage::Resume => {
                self.subscribed = Some(id.to_owned());
                self.status = "subscribed".to_owned();
                Ok(Progress::Done)
            },
        }
    }

    /// Begins to give up the subscription; none is held where there is
    /// nothing to ask.
    pub fn detach(&mut self) -> (request: Option<Outgoing>)
        requires
            old(self)@.subscribed is Some ==> old(self)@.next_id < u64::MAX,
        ensures
            match old(self)@.subscribed {
                Some(thread) => {
                    &&& request matches Some(request) && request@ == old(self)@.request(
                        "thread/unsubscribe"@,
                        thread_params(thread),
                    )
                    &&& final(self)@ == old(self)@.asked("thread/unsubscribe"@)
                },
                None => request is None && final(self)@ == old(self)@,
            },
            ({
                let (session, asked) = old(self)@.detaching();
                &&& final(self)@ == session
                &&& match request {
                    Some(request) => asked == Some(request@),
                    None => asked is None,
                }
            }),
    {
        proof {
            lemma_own_methods();
        }
        let thread = match &self.subscribed {
            Some(thread) => thread.clone(),
            None => {
                return None;
            },
        };
        let params = ObjectBuilder::new().with("threadId", Json::text(thread.as_str())).build();
        Some(self.ask("thread/unsubscribe", params))
    }

    /// Goes on after the reply to the request to unsubscribe.
    pub fn detach_on(&mut self, reply: Reply) -> (outcome: Result<(), RequestFailure>)
        ensures
            match reply_view(reply) {
                Ok(_) => outcome is Ok && final(self)@ == old(self)@.released(),
                Err(failure) => {
                    &&& outcome matches Err(found) && found@ == failure
                    &&& final(self)@ == old(self)@
                },
            },
            ({
                let (session, detached) = old(self)@.detached_on(reply_view(reply));
                &&& final(self)@ == session
                &&& match outcome {
                    Ok(_) => detached is Ok,
                    Err(failure) => detached == Err::<(), Failure>(failure@),
                }
            }),
    {
        match reply {
            Ok(_) => {
                self.subscribed = None;
                self.status = "connected".to_owned();
                Ok(())
            },
            Err(failure) => Err(failure),
        }
    }

    /// Asks for the connection to be set up.
    pub fn initialize(&mut self, version: &str) -> (request: Outgoing)
        requires
            old(self)@.next_id < u64::MAX,
        ensures
            request@ == old(self)@.request("initialize"@, initialize_params(version@)),
            final(self)@ == old(self)@.asked("initialize"@),
            (final(self)@, request@) == old(self)@.initializing(version@),
    {
        proof {
            lemma_own_methods();
        }
        let info = ObjectBuilder::new().with("name", Json::text("overterm")).with(
            "version",
            Json::text(version),
        ).build();
        let capabilities = ObjectBuilder::new().with("experimentalApi", Json::Bool(false)).build();
        let params = ObjectBuilder::new().with("clientInfo", info).with(
            "capabilities",
            capabilities,
        ).build();
        self.ask("initialize", params)
    }

    /// Checks the answer to `initialize`, and gives the notification that
    /// completes the handshake.
    pub fn initialized(&self, reply: Reply) -> (outcome: Result<Json, String>)
        ensures
            match handshake(reply_view(reply)) {
                Ok(message) => outcome matches Ok(found) && found@ == message,
                Err(error) => outcome matches Err(found) && found@ == error,
            },
    {
        let answer = match reply {
            Ok(answer) => answer,
            Err(failure) => {
                return Err(failure.message().to_owned());
            },
        };
        if answer.text_at("platformOs").is_none() {
            return Err(
                "Codex integration incompatible: invalid initialize response".to_owned(),
            );
        }
        match self.notify("initialized", ObjectBuilder::new().build()) {
            Ok(message) => Ok(message),
            Err(failure) => Err(failure.message().to_owned()),
        }
    }

    /// The thread that the client is subscribed to.
    pub fn subscribed(&self) -> (thread: Option<&str>)
        ensures
            match thread {
                Some(thread) => self@.subscribed == Some(thread@),
                None => self@.subscribed is None,
            },
    {
        match &self.subscribed {
            Some(thread) => Some(thread.as_str()),
            None => None,
        }
    }
}

/// What comes of the answer to `initialize`: the notification that completes
/// the handshake, or the error in words.
pub open spec fn handshake(reply: Result<Tree, Failure>) -> Result<Tree, Seq<char>> {
    match reply {
        Err(failure) => Err(failure.message()),
        Ok(answer) => if answer.text_at("platformOs"@) is Some {
            Ok(notification_message("initialized"@, Tree::Object(Map::empty())))
        } else {
            Err("Codex integration incompatible: invalid initialize response"@)
        },
    }
}

/// What a client is known to do, as it is shown.
#[derive(Debug)]
pub struct CodexStatus {
    pub available: bool,
    pub connected: bool,
    pub subscribed_thread_id: Option<String>,
    pub thread_status: String,
    pub detail: String,
    pub notifications: Vec<String>,
}

/// What a `CodexStatus` says.
#[verifier::ext_equal]
pub struct Report {
    pub available: bool,
    pub connected: bool,
    pub subscribed: Option<Seq<char>>,
    pub status: Seq<char>,
    pub detail: Seq<char>,
    pub notices: Seq<Seq<char>>,
}

impl View for CodexStatus {
    type V = Report;

    open spec fn view(&self) -> Report {
        Report {
            available: self.available,
            connected: self.connected,
            subscribed: match self.subscribed_thread_id {
                Some(thread) => Some(thread@),
                None => None,
            },
            status: self.thread_status@,
            detail: self.detail@,
            notices: text::entries(self.notifications@),
        }
    }
}

/// What is shown while there is no client.
pub open spec fn off() -> Report {
    Report {
        available: false,
        connected: false,
        subscribed: None,
        status: "disconnected"@,
        detail: "Codex is off"@,
        notices: seq![],
    }
}

/// What is shown of a client.
pub open spec fn shown(session: Session) -> Report {
    Report {
        available: true,
        connected: true,
        subscribed: session.subscribed,
        status: session.status,
        detail: if session.subscribed is Some {
            "Read-only attachment active ("@ + session.status + ")"@
        } else {
            "Connected; choose a thread"@
        },
        notices: session.notices,
    }
}

impl Default for CodexStatus {
    fn default() -> (status: CodexStatus)
        ensures
            status@ == off(),
    {
        let status = CodexStatus {
            available: false,
            connected: false,
            subscribed_thread_id: None,
            thread_status: "disconnected".to_owned(),
            detail: "Codex is off".to_owned(),
            notifications: Vec::new(),
        };
        assert(status@ =~= off());
        status
    }
}

impl Clone for CodexStatus {
    fn clone(&self) -> (copy: CodexStatus)
        ensures
            copy@ == self@,
    {
        let copy = CodexStatus {
            available: self.available,
            connected: self.connected,
            subscribed_thread_id: self.subscribed_thread_id.clone(),
            thread_status: self.thread_status.clone(),
            detail: self.detail.clone(),
            notifications: self.notifications.clone(),
        };
        assert(text::entries(copy.notifications@) =~= text::entries(self.notifications@));
        copy
    }
}

/// The entries of a log, oldest first.
fn listed_entries(log: &VecDeque<String>) -> (list: Vec<String>)
    ensures
        text::entries(list@) == text::entries(log@),
{
    let mut list: Vec<String> = Vec::new();
    for index in 0..log.len()
        invariant
            text::entries(list@) == text::entries(log@).take(index as int),
    {
        let ghost before = text::entries(list@);
        list.push(log[index].clone());
        assert(text::entries(list@) =~= before.push(log@[index as int]@));
        assert(text::entries(log@).take(index + 1) =~= text::entries(log@).take(index as int).push(
            log@[index as int]@,
        ));
    }
    assert(text::entries(log@).take(log@.len() as int) =~= text::entries(log@));
    list
}

impl Client {
    /// What is shown of the client.
    pub fn report(&self) -> (status: CodexStatus)
        ensures
            status@ == shown(self@),
    {
        let detail = if self.subscribed.is_some() {
            let mut detail = "Read-only attachment active (".to_owned();
            detail.append(self.status.as_str());
            detail.append(")");
            detail
        } else {
            "Connected; choose a thread".to_owned()
        };
        let status = CodexStatus {
            available: true,
            connected: true,
            subscribed_thread_id: self.subscribed.clone(),
            thread_status: self.status.clone(),
            detail,
            notifications: listed_entries(&self.notifications),
        };
        assert(status@ =~= shown(self@));
        status
    }

    /// The methods that were asked for last, oldest first.
    pub fn requests(&self) -> (methods: Vec<String>)
        ensures
            text::entries(methods@) == self@.requests,
    {
        listed_entries(&self.requests)
    }

    /// Whether an answer is kept for a request that nobody awaits yet.
    pub fn keeps(&self, id: u64) -> (kept: bool)
        ensures
            kept == self@.pending.contains_key(id),
    {
        broadcast use vstd::std_specs::hash::group_hash_axioms;

        self.pending.contains_key(&id)
    }
}

/// What is shown of a client, if there is one.
pub fn codex_status(client: Option<&Client>) -> (status: CodexStatus)
    ensures
        status@ == (match client {
            Some(client) => shown(client@),
            None => off(),
        }),
{
    match client {
        Some(client) => client.report(),
        None => CodexStatus::default(),
    }
}

/// The threads in the reply to `thread/list`.
pub fn list_on(reply: Reply) -> (threads: Result<Vec<ThreadSummary>, RequestFailure>)
    ensures
        match reply_view(reply) {
            Ok(value) => threads matches Ok(threads) && threads::shown(threads@) == threads::listed(
                value,
            ),
            Err(failure) => threads matches Err(found) && found@ == failure,
        },
{
    match reply {
        Ok(value) => Ok(thread_summaries(&value)),
        Err(failure) => Err(failure),
    }
}

/// A pipe to the child.
#[derive(Clone, Copy, Debug, PartialEq, Eq, Structural)]
pub enum Pipe {
    Stdin,
    Stdout,
    Stderr,
}

/// Why the child could not be started.
pub fn launch_failure(not_found: bool) -> (message: String)
    ensures
        message@ == (if not_found {
            "Codex integration unavailable: `codex` was not found"@
        } else {
            "Codex integration unavailable: could not start app-server"@
        }),
{
    if not_found {
        "Codex integration unavailable: `codex` was not found".to_owned()
    } else {
        "Codex integration unavailable: could not start app-server".to_owned()
    }
}

/// What is said of a child that came without a pipe.
pub fn pipe_failure(pipe: Pipe) -> (message: String)
    ensures
        message@ == (match pipe {
            Pipe::Stdin => "Codex integration unavailable: stdin"@,
            Pipe::Stdout => "Codex integration unavailable: stdout"@,
            Pipe::Stderr => "Codex integration unavailable: stderr"@,
        }),
{
    match pipe {
        Pipe::Stdin => "Codex integration unavailable: stdin".to_owned(),
        Pipe::Stdout => "Codex integration unavailable: stdout".to_owned(),
        Pipe::Stderr => "Codex integration unavailable: stderr".to_owned(),
    }
}

/// The failure of a write. A connection that is closed shows by a broken pipe,
/// or by a failure after the message itself was written, of what ends its
/// line; any other failure is one of the protocol.
pub fn write_failure(message_written: bool, broken_pipe: bool) -> (failure: RequestFailure)
    ensures
        failure@ == Failure::Ambiguous(
            if message_written || broken_pipe {
                "Codex integration connection closed"@
            } else {
                "Codex integration protocol error"@
            },
        ),
{
    if message_written || broken_pipe {
        RequestFailure::ambiguous("Codex integration connection closed")
    } else {
        RequestFailure::ambiguous("Codex integration protocol error")
    }
}

/// What a look at a child that is to exit shows.
#[derive(Clone, Copy, Debug, PartialEq, Eq, Structural)]
pub enum Waited {
    Running,
    Exited,
    /// The look itself failed.
    Unknown,
}

/// What to do next with a child that is to exit.
#[derive(Clone, Copy, Debug, PartialEq, Eq, Structural)]
pub enum Parting {
    WaitAgain,
    /// There is nothing left to do.
    Gone,
    Kill,
}

/// What to do next with a child that is to exit: it is given time to do so by
/// itself, and is killed when the time is over.
pub fn parting(waited: Waited, grace_left: bool) -> (next: Parting)
    ensures
        next == (if !grace_left {
            Parting::Kill
        } else {
            match waited {
                Waited::Running => Parting::WaitAgain,
                Waited::Exited | Waited::Unknown => Parting::Gone,
            }
        }),
{
    if !grace_left {
        return Parting::Kill;
    }
    match waited {
        Waited::Running => Parting::WaitAgain,
        Waited::Exited | Waited::Unknown => Parting::Gone,
    }
}

}
