//! A client on the Codex desktop app's IPC bus.
//!
//! The bus hands responses back to whichever call is waiting, refuses every
//! request the router offers (oTerm owns no threads), and passes stream
//! changes to the sink of the conversation they belong to.
//!
//! It decides and remembers. Reading the socket, writing to it, waiting for
//! an answer and running a sink is up to the caller. Of a waiter and of a sink
//! the bus knows nothing but whose they are.

use vstd::prelude::*;

use crate::json::{Json, ObjectBuilder, Tree};
use crate::table::{self, Table};
use crate::text::{self, contains, same, starts_with};
use crate::wire::{
    self, Arrival, Incoming, Method, CLIENT_STATUS_CHANGED, STREAM_STATE_CHANGED,
    STREAM_STATE_VERSION,
};

verus! {

/// What a sink is told.
#[derive(Debug)]
pub enum StreamEvent {
    /// The `change` object of a stream broadcast: a snapshot or patches.
    Change(Json),
    /// The desktop app speaks a newer version of the stream than this
    /// build understands.
    Incompatible,
    /// The client that owned the thread left the bus, as happens when the
    /// desktop app reloads a window. The thread may come back under a new
    /// owner.
    OwnerGone,
    /// The bus itself is gone: the desktop app quit.
    Disconnected,
}

/// What a `StreamEvent` says.
pub enum Happening {
    Change(Tree),
    Incompatible,
    OwnerGone,
    Disconnected,
}

impl View for StreamEvent {
    type V = Happening;

    open spec fn view(&self) -> Happening {
        match *self {
            StreamEvent::Change(change) => Happening::Change(change@),
            StreamEvent::Incompatible => Happening::Incompatible,
            StreamEvent::OwnerGone => Happening::OwnerGone,
            StreamEvent::Disconnected => Happening::Disconnected,
        }
    }
}

#[derive(Debug, PartialEq, Eq)]
pub enum BusError {
    /// No bus to connect to, which means the desktop app is not running.
    NotRunning,
    /// Nobody on the bus has this thread open.
    NoOwner,
    /// The desktop app rejected a request's version.
    Incompatible,
    Refused(String),
    TimedOut,
    Closed,
}

/// What a `BusError` says.
pub enum Trouble {
    NotRunning,
    NoOwner,
    Incompatible,
    Refused(Seq<char>),
    TimedOut,
    Closed,
}

impl View for BusError {
    type V = Trouble;

    open spec fn view(&self) -> Trouble {
        match *self {
            BusError::NotRunning => Trouble::NotRunning,
            BusError::NoOwner => Trouble::NoOwner,
            BusError::Incompatible => Trouble::Incompatible,
            BusError::Refused(why) => Trouble::Refused(why@),
            BusError::TimedOut => Trouble::TimedOut,
            BusError::Closed => Trouble::Closed,
        }
    }
}

impl Clone for BusError {
    fn clone(&self) -> (copy: BusError)
        ensures
            copy@ == self@,
    {
        match self {
            BusError::NotRunning => BusError::NotRunning,
            BusError::NoOwner => BusError::NoOwner,
            BusError::Incompatible => BusError::Incompatible,
            BusError::Refused(why) => BusError::Refused(why.clone()),
            BusError::TimedOut => BusError::TimedOut,
            BusError::Closed => BusError::Closed,
        }
    }
}

impl Trouble {
    /// The error in words.
    pub open spec fn message(self) -> Seq<char> {
        match self {
            Trouble::NotRunning => "The Codex desktop app is not running."@,
            Trouble::NoOwner => "The Codex desktop app does not have this thread open."@,
            Trouble::Incompatible => "This version of the Codex desktop app is not supported yet."@,
            Trouble::Refused(why) => "Codex refused the request: "@ + why,
            Trouble::TimedOut => "Codex did not answer in time."@,
            Trouble::Closed => "The Codex desktop app closed the connection."@,
        }
    }
}

impl BusError {
    /// The error in words.
    pub fn message(&self) -> (message: String)
        ensures
            message@ == self@.message(),
    {
        match self {
            BusError::NotRunning => "The Codex desktop app is not running.".to_owned(),
            BusError::NoOwner => "The Codex desktop app does not have this thread open.".to_owned(),
            BusError::Incompatible => {
                "This version of the Codex desktop app is not supported yet.".to_owned()
            },
            BusError::Refused(why) => {
                let mut message = "Codex refused the request: ".to_owned();
                message.append(why.as_str());
                message
            },
            BusError::TimedOut => "Codex did not answer in time.".to_owned(),
            BusError::Closed => "The Codex desktop app closed the connection.".to_owned(),
        }
    }
}

/// The standard library's owned path, of which the library knows its
/// components only.
#[verifier::external_type_specification]
#[verifier::external_body]
pub struct ExPathBuf(std::path::PathBuf);

/// The components of a path, each in bytes.
pub uninterp spec fn components(path: std::path::PathBuf) -> Seq<Seq<u8>>;

/// Whether a text is the name of one component and nothing else: not empty,
/// not a step to here or up, and without what separates components or names
/// a drive on any platform.
pub open spec fn plain_name(name: Seq<char>) -> bool {
    &&& name.len() > 0
    &&& name != "."@
    &&& name != ".."@
    &&& forall|i: int|
        0 <= i < name.len() ==> #[trigger] name[i] != '/' && name[i] != '\\' && name[i] != ':'
}

/// `Path::join` with a plain name gives, on Unix, where the socket lives, the
/// path with one more component, the name.
#[verifier::external_body]
fn join(dir: &std::path::PathBuf, name: &str) -> (joined: std::path::PathBuf)
    requires
        plain_name(name@),
    ensures
        components(joined) == components(*dir).push(vstd::utf8::encode_utf8(name@)),
{
    dir.join(name)
}

/// The components of the path where the desktop app listens, by those of its
/// own home and of the user's.
pub open spec fn listening(
    codex_home: Option<Seq<Seq<u8>>>,
    home: Option<Seq<Seq<u8>>>,
) -> Option<Seq<Seq<u8>>> {
    match (codex_home, home) {
        (Some(dir), _) => Some(
            dir + seq![vstd::utf8::encode_utf8("ipc"@), vstd::utf8::encode_utf8("ipc.sock"@)],
        ),
        (None, Some(home)) => Some(
            home + seq![
                vstd::utf8::encode_utf8(".codex"@),
                vstd::utf8::encode_utf8("ipc"@),
                vstd::utf8::encode_utf8("ipc.sock"@),
            ],
        ),
        (None, None) => None,
    }
}

/// The components of a path, if there is one.
pub open spec fn components_if_any(path: Option<std::path::PathBuf>) -> Option<Seq<Seq<u8>>> {
    match path {
        Some(path) => Some(components(path)),
        None => None,
    }
}

/// Where the desktop app listens. It honours `CODEX_HOME` like the CLI.
pub fn socket_path(
    codex_home: Option<std::path::PathBuf>,
    home: Option<std::path::PathBuf>,
) -> (path: Option<std::path::PathBuf>)
    ensures
        match (codex_home, home) {
            (Some(dir), _) => path matches Some(path) && components(path) == components(dir) + seq![
                vstd::utf8::encode_utf8("ipc"@),
                vstd::utf8::encode_utf8("ipc.sock"@),
            ],
            (None, Some(home)) => path matches Some(path) && components(path) == components(home)
                + seq![
                vstd::utf8::encode_utf8(".codex"@),
                vstd::utf8::encode_utf8("ipc"@),
                vstd::utf8::encode_utf8("ipc.sock"@),
            ],
            (None, None) => path is None,
        },
        components_if_any(path) == listening(
            components_if_any(codex_home),
            components_if_any(home),
        ),
{
    proof {
        reveal_strlit(".");
        reveal_strlit("..");
        reveal_strlit(".codex");
        reveal_strlit("ipc");
        reveal_strlit("ipc.sock");
    }
    let dir = match codex_home {
        Some(dir) => dir,
        None => match home {
            Some(home) => join(&home, ".codex"),
            None => {
                return None;
            },
        },
    };
    let path = join(&join(&dir, "ipc"), "ipc.sock");
    assert(components(path) =~= components(dir) + seq![
        vstd::utf8::encode_utf8("ipc"@),
        vstd::utf8::encode_utf8("ipc.sock"@),
    ]);
    Some(path)
}

/// Whether a character is a lower-case hexadecimal digit.
pub open spec fn is_hex(c: char) -> bool {
    ('0' <= c && c <= '9') || ('a' <= c && c <= 'f')
}

/// Whether a text is a random UUID in its usual form: lower-case hexadecimal
/// digits in groups of 8, 4, 4, 4 and 12, with the version and the variant in
/// their places.
pub open spec fn is_random_uuid(id: Seq<char>) -> bool {
    &&& id.len() == 36
    &&& forall|i: int|
        0 <= i < 36 ==> if i == 8 || i == 13 || i == 18 || i == 23 {
            #[trigger] id[i] == '-'
        } else {
            is_hex(id[i])
        }
    &&& id[14] == '4'
    &&& id[19] == '8' || id[19] == '9' || id[19] == 'a' || id[19] == 'b'
}

/// `Uuid::new_v4` draws an identifier at random, and its text is a random
/// UUID in its usual form. That no two of them are ever equal is likely, not
/// certain, so it is not stated. The call panics where the operating system
/// has no random bytes to give.
#[verifier::external_body]
fn new_request_id() -> (id: String)
    ensures
        is_random_uuid(id@),
{
    uuid::Uuid::new_v4().to_string()
}

/// What the router said to a request, or why it said nothing.
pub enum Answer {
    Replied { handled_by: Option<String>, outcome: Result<Json, String> },
    /// The request could not be written.
    Unwritten,
    TimedOut,
    Disconnected,
}

/// What an `Answer` says.
pub enum Said {
    Replied { handled_by: Option<Seq<char>>, outcome: Result<Tree, Seq<char>> },
    Unwritten,
    TimedOut,
    Disconnected,
}

/// The view of a text that may be missing.
pub open spec fn text_if_any(text: Option<String>) -> Option<Seq<char>> {
    match text {
        Some(text) => Some(text@),
        None => None,
    }
}

/// What the outcome of a response says.
pub open spec fn outcome_view(outcome: Result<Json, String>) -> Result<Tree, Seq<char>> {
    match outcome {
        Ok(value) => Ok(value@),
        Err(error) => Err(error@),
    }
}

impl View for Answer {
    type V = Said;

    open spec fn view(&self) -> Said {
        match *self {
            Answer::Replied { handled_by, outcome } => Said::Replied {
                handled_by: text_if_any(handled_by),
                outcome: outcome_view(outcome),
            },
            Answer::Unwritten => Said::Unwritten,
            Answer::TimedOut => Said::TimedOut,
            Answer::Disconnected => Said::Disconnected,
        }
    }
}

/// What came of a request: who handled it, and the result.
pub type Handled = Result<(Option<String>, Json), BusError>;

/// What a `Handled` says.
pub open spec fn handled_view(handled: Handled) -> Result<(Option<Seq<char>>, Tree), Trouble> {
    match handled {
        Ok((handled_by, value)) => Ok((text_if_any(handled_by), value@)),
        Err(error) => Err(error@),
    }
}

/// The router's errors by their text.
pub open spec fn refusal(error: Seq<char>) -> Trouble {
    if "no-client-found"@.is_prefix_of(error) {
        Trouble::NoOwner
    } else if text::holds(error, "request-version-mismatch"@) {
        Trouble::Incompatible
    } else {
        Trouble::Refused(error)
    }
}

/// What comes of a request that was answered so.
pub open spec fn settled(answer: Said) -> Result<(Option<Seq<char>>, Tree), Trouble> {
    match answer {
        Said::Replied { handled_by, outcome } => match outcome {
            Ok(value) => Ok((handled_by, value)),
            Err(error) => Err(refusal(error)),
        },
        Said::Unwritten => Err(Trouble::Closed),
        Said::TimedOut => Err(Trouble::TimedOut),
        Said::Disconnected => Err(Trouble::Closed),
    }
}

/// A request to be written, and the id that its response will carry.
pub struct Request {
    pub id: String,
    pub message: Json,
}

/// What came of a wish to follow a thread, and what there is left to write.
pub struct Followed {
    pub outcome: Result<(), BusError>,
    pub message: Option<Json>,
}

/// What a message calls for.
pub enum Action<W, S> {
    Nothing,
    /// Hand a response to the call that waits for it.
    Deliver { waiter: W, handled_by: Option<String>, outcome: Result<Json, String> },
    /// Write a message. If that fails, it is left at that.
    Send(Json),
    /// Tell the sink of a conversation.
    Tell { conversation: String, sink: S, event: StreamEvent },
    /// Tell the sinks of some conversations, one by one. Each sink is to be
    /// looked up when its turn comes: one that runs may stop following a
    /// conversation whose turn is still to come.
    TellEach { conversations: Vec<String>, event: StreamEvent },
}

/// What an `Action` amounts to.
pub enum Effect<W> {
    Nothing,
    Deliver { waiter: W, handled_by: Option<Seq<char>>, outcome: Result<Tree, Seq<char>> },
    Send(Tree),
    Tell { conversation: Seq<char>, event: Happening },
    TellEach { conversations: Set<Seq<char>>, event: Happening },
}

/// Whether an action amounts to an effect. A sink is a copy of the one that
/// the streams have for its conversation; conversations whose sinks are to be
/// looked up come once each, in any order.
pub open spec fn amounts_to<W, S: Clone>(
    action: Action<W, S>,
    effect: Effect<W>,
    streams: Map<Seq<char>, S>,
) -> bool {
    match (action, effect) {
        (Action::Nothing, Effect::Nothing) => true,
        (
            Action::Deliver { waiter, handled_by, outcome },
            Effect::Deliver { waiter: found, handled_by: client, outcome: result },
        ) => waiter == found && text_if_any(handled_by) == client && outcome_view(outcome)
            == result,
        (Action::Send(message), Effect::Send(tree)) => message@ == tree,
        (
            Action::Tell { conversation, sink, event },
            Effect::Tell { conversation: name, event: happening },
        ) => conversation@ == name && cloned(streams[name], sink) && event@ == happening,
        (
            Action::TellEach { conversations, event },
            Effect::TellEach { conversations: names, event: happening },
        ) => {
            &&& text::entries(conversations@).no_duplicates()
            &&& text::entries(conversations@).to_set() == names
            &&& event@ == happening
        },
        _ => false,
    }
}

/// What a bus knows: the waiters by the request they wait for, the sinks by
/// their conversation, and which client answered each followed thread's
/// history request.
#[verifier::ext_equal]
pub struct Desk<W, S> {
    pub client_id: Option<Seq<char>>,
    pub pending: Map<Seq<char>, W>,
    pub streams: Map<Seq<char>, S>,
    pub owners: Map<Seq<char>, Seq<char>>,
    pub alive: bool,
}

impl<W, S> Desk<W, S> {
    pub open spec fn fresh() -> Self {
        Desk {
            client_id: None,
            pending: Map::empty(),
            streams: Map::empty(),
            owners: Map::empty(),
            alive: true,
        }
    }

    /// With a request that a waiter waits for.
    pub open spec fn waiting(self, id: Seq<char>, waiter: W) -> Self {
        Desk { pending: self.pending.insert(id, waiter), ..self }
    }

    /// Without whoever waited for a request.
    pub open spec fn given_up(self, id: Seq<char>) -> Self {
        Desk { pending: self.pending.remove(id), ..self }
    }

    /// The message that asks for a method under an id; none once the bus is
    /// gone.
    pub open spec fn asking(self, id: Seq<char>, method: Method, params: Tree) -> Option<Tree> {
        if self.alive {
            Some(wire::request_tree(id, self.client_id, method, params))
        } else {
            None
        }
    }

    /// After a request under an id: whoever made it waits, unless the bus is
    /// gone.
    pub open spec fn having_asked(self, id: Seq<char>, waiter: W) -> Self {
        if self.alive {
            self.waiting(id, waiter)
        } else {
            self.given_up(id)
        }
    }

    /// After a request is answered or given up.
    pub open spec fn finished(self, id: Seq<char>, answer: Said) -> Self {
        match answer {
            Said::Unwritten => self.given_up(id),
            Said::TimedOut => self.given_up(id),
            Said::Replied { .. } => self,
            Said::Disconnected => self,
        }
    }

    /// After a registration: the first id that the router assigns stays.
    pub open spec fn joined(
        self,
        handled: Result<(Option<Seq<char>>, Tree), Trouble>,
    ) -> (Self, Result<(), Trouble>) {
        match registered(handled) {
            Ok(client) => (
                Desk {
                    client_id: if self.client_id is Some {
                        self.client_id
                    } else {
                        Some(client)
                    },
                    ..self
                },
                Ok(()),
            ),
            Err(error) => (self, Err(error)),
        }
    }

    /// The message that starts the stream of a conversation, from a client
    /// that is registered.
    pub open spec fn greeting(self, conversation: Seq<char>) -> Option<Tree> {
        match self.client_id {
            Some(client) => Some(wire::following_tree(client, conversation, true)),
            None => None,
        }
    }

    /// With a conversation that a sink is told of, if the client is registered.
    pub open spec fn following(self, conversation: Seq<char>, sink: S) -> Self {
        match self.client_id {
            Some(_) => Desk { streams: self.streams.insert(conversation, sink), ..self },
            None => self,
        }
    }

    /// The message that starts the stream of a conversation once more, which
    /// there is for one that is followed.
    pub open spec fn greeting_again(self, conversation: Seq<char>) -> Option<Tree> {
        if self.streams.contains_key(conversation) {
            self.greeting(conversation)
        } else {
            None
        }
    }

    /// What is left to write after the history request of a conversation.
    pub open spec fn reaction(
        self,
        conversation: Seq<char>,
        handled: Result<(Option<Seq<char>>, Tree), Trouble>,
    ) -> Option<Tree> {
        match handled {
            Ok(_) => None,
            Err(_) => self.farewell(conversation),
        }
    }

    /// Without a conversation.
    pub open spec fn unfollowed(self, conversation: Seq<char>) -> Self {
        Desk {
            streams: self.streams.remove(conversation),
            owners: self.owners.remove(conversation),
            ..self
        }
    }

    /// The message that stops the stream of a conversation, from a client
    /// that is registered.
    pub open spec fn farewell(self, conversation: Seq<char>) -> Option<Tree> {
        match self.client_id {
            Some(client) => Some(wire::following_tree(client, conversation, false)),
            None => None,
        }
    }

    /// After the history request of a conversation.
    pub open spec fn followed(
        self,
        conversation: Seq<char>,
        handled: Result<(Option<Seq<char>>, Tree), Trouble>,
    ) -> Self {
        match handled {
            Ok((Some(owner), _)) => Desk { owners: self.owners.insert(conversation, owner), ..self },
            Ok((None, _)) => self,
            Err(_) => self.unfollowed(conversation),
        }
    }

    /// The conversations that a client owns.
    pub open spec fn owned_by(self, client: Seq<char>) -> Set<Seq<char>> {
        Set::new(
            |conversation: Seq<char>|
                self.owners.contains_key(conversation) && self.owners[conversation] == client,
        )
    }

    /// After a client has left.
    pub open spec fn orphaned(self, client: Seq<char>) -> Self {
        Desk { owners: self.owners.remove_keys(self.owned_by(client)), ..self }
    }

    /// What a message does to the bus, and what it calls for.
    pub open spec fn dispatched(self, message: Arrival) -> (Self, Effect<W>) {
        match message {
            Arrival::Response { request_id, handled_by, outcome } => if self.pending.contains_key(
                request_id,
            ) {
                (
                    self.given_up(request_id),
                    Effect::Deliver { waiter: self.pending[request_id], handled_by, outcome },
                )
            } else {
                (self, Effect::Nothing)
            },
            Arrival::DiscoveryRequest { request_id } => (
                self,
                Effect::Send(wire::refusal_tree(request_id)),
            ),
            Arrival::Broadcast { method, version, params } => if method == STREAM_STATE_CHANGED@ {
                (self, self.streamed(version, params))
            } else if method == CLIENT_STATUS_CHANGED@ && params.text_at("status"@) == Some(
                "disconnected"@,
            ) {
                match params.text_at("clientId"@) {
                    Some(client) => (
                        self.orphaned(client),
                        Effect::TellEach {
                            conversations: self.owned_by(client),
                            event: Happening::OwnerGone,
                        },
                    ),
                    None => (self, Effect::Nothing),
                }
            } else {
                (self, Effect::Nothing)
            },
            Arrival::Other => (self, Effect::Nothing),
        }
    }

    /// What a change of a stream calls for.
    pub open spec fn streamed(self, version: u64, params: Tree) -> Effect<W> {
        match params.text_at("conversationId"@) {
            Some(conversation) => if self.streams.contains_key(conversation) {
                Effect::Tell {
                    conversation,
                    event: if version == STREAM_STATE_VERSION {
                        Happening::Change(params.member_or_null("change"@))
                    } else {
                        Happening::Incompatible
                    },
                }
            } else {
                Effect::Nothing
            },
            None => Effect::Nothing,
        }
    }

    /// After the connection is gone.
    pub open spec fn disconnected(self) -> Self {
        Desk { alive: false, pending: Map::empty(), streams: Map::empty(), ..self }
    }
}

/// The parameters with which a client registers.
pub open spec fn registration_params() -> Tree {
    Tree::Object(map!["clientType"@ => Tree::Text("overterm"@)])
}

/// The parameters that name a conversation.
pub open spec fn conversation_params(conversation: Seq<char>) -> Tree {
    Tree::Object(map!["conversationId"@ => Tree::Text(conversation)])
}

/// The texts in a table of texts.
pub open spec fn texts(rows: Map<Seq<char>, String>) -> Map<Seq<char>, Seq<char>> {
    Map::new(|key: Seq<char>| rows.contains_key(key), |key: Seq<char>| rows[key]@)
}

/// Whether a bus has asked for a method: with an id of its own while it is
/// alive, and not at all once it is gone.
pub open spec fn asks<W, S>(
    before: Desk<W, S>,
    after: Desk<W, S>,
    request: Result<Request, BusError>,
    method: Method,
    params: Tree,
    waiter: W,
) -> bool {
    match request {
        Ok(request) => {
            &&& before.alive
            &&& is_random_uuid(request.id@)
            &&& request.message@ == wire::request_tree(
                request.id@,
                before.client_id,
                method,
                params,
            )
            &&& after == before.waiting(request.id@, waiter)
            &&& after == before.having_asked(request.id@, waiter)
            &&& before.asking(request.id@, method, params) == Some(request.message@)
        },
        Err(error) => {
            &&& !before.alive
            &&& error@ == Trouble::Closed
            &&& exists|id: Seq<char>| #[trigger]
                is_random_uuid(id) && after == before.given_up(id)
        },
    }
}

/// A client on the bus. `W` is who waits for a response, `S` who is told of a
/// conversation's changes.
pub struct Bus<W, S> {
    client_id: Option<String>,
    pending: Table<W>,
    streams: Table<S>,
    owners: Table<String>,
    alive: bool,
}

impl<W, S> Bus<W, S> {
    /// What the bus knows.
    pub closed spec fn view(self) -> Desk<W, S> {
        Desk {
            client_id: text_if_any(self.client_id),
            pending: self.pending@,
            streams: self.streams@,
            owners: texts(self.owners@),
            alive: self.alive,
        }
    }

    /// A bus over a connection that has just been made.
    pub fn new() -> (bus: Self)
        ensures
            bus@ == Desk::<W, S>::fresh(),
    {
        let bus = Bus {
            client_id: None,
            pending: Table::new(),
            streams: Table::new(),
            owners: Table::new(),
            alive: true,
        };
        assert(bus@ =~= Desk::<W, S>::fresh());
        bus
    }

    pub fn is_alive(&self) -> (alive: bool)
        ensures
            alive == self@.alive,
    {
        self.alive
    }

    /// The id that the router has assigned.
    pub fn client_id(&self) -> (client: Option<&str>)
        ensures
            match client {
                Some(client) => self@.client_id == Some(client@),
                None => self@.client_id is None,
            },
    {
        match &self.client_id {
            Some(client) => Some(client.as_str()),
            None => None,
        }
    }

    /// Asks for a method under a given id.
    pub fn request_as(&mut self, request_id: String, method: Method, params: Json, waiter: W) -> (
        message: Result<Json, BusError>)
        ensures
            match message {
                Ok(message) => {
                    &&& old(self)@.alive
                    &&& message@ == wire::request_tree(
                        request_id@,
                        old(self)@.client_id,
                        method,
                        params@,
                    )
                    &&& final(self)@ == old(self)@.waiting(request_id@, waiter)
                },
                Err(error) => {
                    &&& !old(self)@.alive
                    &&& error@ == Trouble::Closed
                    &&& final(self)@ == old(self)@.given_up(request_id@)
                },
            },
            final(self)@ == old(self)@.having_asked(request_id@, waiter),
            match message {
                Ok(message) => old(self)@.asking(request_id@, method, params@) == Some(message@),
                Err(_) => old(self)@.asking(request_id@, method, params@) is None,
            },
    {
        if !self.alive {
            let _ = self.pending.remove(request_id.as_str());
            assert(self@ =~= old(self)@.given_up(request_id@));
            return Err(BusError::Closed);
        }
        let message = wire::request(request_id.as_str(), self.client_id(), method, params);
        self.pending.insert(request_id, waiter);
        assert(self@ =~= old(self)@.waiting(request_id@, waiter));
        Ok(message)
    }

    /// Asks for a method under an id of its own.
    pub fn request(&mut self, method: Method, params: Json, waiter: W) -> (request: Result<
        Request,
        BusError,
    >)
        ensures
            asks(old(self)@, final(self)@, request, method, params@, waiter),
    {
        let id = new_request_id();
        match self.request_as(id.clone(), method, params, waiter) {
            Ok(message) => Ok(Request { id, message }),
            Err(error) => Err(error),
        }
    }

    /// What came of a request, once it is answered or given up.
    pub fn finish(&mut self, request_id: &str, answer: Answer) -> (handled: Handled)
        ensures
            handled_view(handled) == settled(answer@),
            final(self)@ == (match answer@ {
                Said::Unwritten | Said::TimedOut => old(self)@.given_up(request_id@),
                _ => old(self)@,
            }),
            final(self)@ == old(self)@.finished(request_id@, answer@),
    {
        match answer {
            Answer::Replied { handled_by, outcome } => match outcome {
                Ok(value) => Ok((handled_by, value)),
                Err(error) => Err(
                    if starts_with(error.as_str(), "no-client-found") {
                        BusError::NoOwner
                    } else if contains(error.as_str(), "request-version-mismatch") {
                        BusError::Incompatible
                    } else {
                        BusError::Refused(error)
                    },
                ),
            },
            Answer::Unwritten => {
                let _ = self.pending.remove(request_id);
                Err(BusError::Closed)
            },
            Answer::TimedOut => {
                let _ = self.pending.remove(request_id);
                Err(BusError::TimedOut)
            },
            Answer::Disconnected => Err(BusError::Closed),
        }
    }

    /// Asks the router to register this client.
    pub fn initialize(&mut self, waiter: W) -> (request: Result<Request, BusError>)
        ensures
            asks(
                old(self)@,
                final(self)@,
                request,
                Method::Initialize,
                registration_params(),
                waiter,
            ),
    {
        let params = ObjectBuilder::new().with("clientType", Json::text("overterm")).build();
        self.request(Method::Initialize, params, waiter)
    }

    /// Takes in what came of the registration. The first id that the router
    /// assigns stays.
    pub fn register(&mut self, handled: Handled) -> (outcome: Result<(), BusError>)
        ensures
            match registered(handled_view(handled)) {
                Ok(client) => {
                    &&& outcome is Ok
                    &&& final(self)@ == (Desk {
                        client_id: if old(self)@.client_id is Some {
                            old(self)@.client_id
                        } else {
                            Some(client)
                        },
                        ..old(self)@
                    })
                },
                Err(error) => {
                    &&& outcome matches Err(found) && found@ == error
                    &&& final(self)@ == old(self)@
                },
            },
            ({
                let (after, joined) = old(self)@.joined(handled_view(handled));
                &&& final(self)@ == after
                &&& match outcome {
                    Ok(_) => joined is Ok,
                    Err(error) => joined == Err::<(), Trouble>(error@),
                }
            }),
    {
        let value = match handled {
            Ok((_, value)) => value,
            Err(error) => {
                return Err(error);
            },
        };
        match value.text_at("clientId") {
            Some(client) => {
                if self.client_id.is_none() {
                    self.client_id = Some(client.to_owned());
                }
                Ok(())
            },
            None => Err(BusError::Refused("registration gave no client id".to_owned())),
        }
    }

    /// Begins to follow a thread. What it gives is to be written before the
    /// thread's history is asked for.
    pub fn follow(&mut self, conversation_id: &str, sink: S) -> (announcement: Result<
        Json,
        BusError,
    >)
        ensures
            match (announcement, old(self)@.client_id) {
                (Ok(message), Some(client)) => {
                    &&& message@ == wire::following_tree(client, conversation_id@, true)
                    &&& final(self)@ == (Desk {
                        streams: old(self)@.streams.insert(conversation_id@, sink),
                        ..old(self)@
                    })
                },
                (Err(error), None) => error@ == Trouble::Closed && final(self)@ == old(self)@,
                _ => false,
            },
            final(self)@ == old(self)@.following(conversation_id@, sink),
            match announcement {
                Ok(message) => old(self)@.greeting(conversation_id@) == Some(message@),
                Err(_) => old(self)@.greeting(conversation_id@) is None,
            },
    {
        let message = match &self.client_id {
            Some(client) => wire::following_changed(client.as_str(), conversation_id, true),
            None => {
                return Err(BusError::Closed);
            },
        };
        self.streams.insert(conversation_id.to_owned(), sink);
        Ok(message)
    }

    /// Asks the owner of a thread for its history. The owner answers by
    /// sending a full snapshot, which reaches the sink before the response.
    pub fn load_history(&mut self, conversation_id: &str, waiter: W) -> (request: Result<
        Request,
        BusError,
    >)
        ensures
            asks(
                old(self)@,
                final(self)@,
                request,
                Method::LoadHistory,
                conversation_params(conversation_id@),
                waiter,
            ),
    {
        let params = ObjectBuilder::new().with(
            "conversationId",
            Json::text(conversation_id),
        ).build();
        self.request(Method::LoadHistory, params, waiter)
    }

    /// Takes in what came of the history request. A thread whose owner
    /// refuses is no longer followed.
    pub fn followed(&mut self, conversation_id: &str, handled: Handled) -> (followed: Followed)
        ensures
            final(self)@ == old(self)@.followed(conversation_id@, handled_view(handled)),
            match handled_view(handled) {
                Ok(_) => followed.outcome is Ok && followed.message is None,
                Err(error) => {
                    &&& followed.outcome matches Err(found) && found@ == error
                    &&& match followed.message {
                        Some(message) => old(self)@.farewell(conversation_id@) == Some(message@),
                        None => old(self)@.farewell(conversation_id@) is None,
                    }
                },
            },
            match followed.message {
                Some(message) => old(self)@.reaction(conversation_id@, handled_view(handled))
                    == Some(message@),
                None => old(self)@.reaction(conversation_id@, handled_view(handled)) is None,
            },
    {
        match handled {
            Ok((owner, _)) => {
                match owner {
                    Some(owner) => {
                        self.owners.insert(conversation_id.to_owned(), owner);
                        assert(self@ =~= old(self)@.followed(
                            conversation_id@,
                            handled_view(handled),
                        ));
                    },
                    None => {},
                }
                Followed { outcome: Ok(()), message: None }
            },
            Err(error) => {
                let message = self.unfollow(conversation_id);
                Followed { outcome: Err(error), message }
            },
        }
    }

    /// Begins to follow a thread again with the sink it already has, after
    /// its owner left and a new one may have taken it.
    pub fn refollow(&self, conversation_id: &str) -> (announcement: Result<Json, BusError>)
        ensures
            match (announcement, self@.client_id) {
                (Ok(message), Some(client)) => {
                    &&& self@.streams.contains_key(conversation_id@)
                    &&& message@ == wire::following_tree(client, conversation_id@, true)
                },
                (Ok(_), None) => false,
                (Err(error), client) => {
                    &&& error@ == Trouble::Closed
                    &&& client is None || !self@.streams.contains_key(conversation_id@)
                },
            },
            match announcement {
                Ok(message) => self@.greeting_again(conversation_id@) == Some(message@),
                Err(_) => self@.greeting_again(conversation_id@) is None,
            },
    {
        if self.streams.get(conversation_id).is_none() {
            return Err(BusError::Closed);
        }
        match &self.client_id {
            Some(client) => Ok(wire::following_changed(client.as_str(), conversation_id, true)),
            None => Err(BusError::Closed),
        }
    }

    /// Stops following a thread. What it gives is to be written; if that
    /// fails, it is left at that.
    pub fn unfollow(&mut self, conversation_id: &str) -> (message: Option<Json>)
        ensures
            final(self)@ == old(self)@.unfollowed(conversation_id@),
            match message {
                Some(message) => old(self)@.farewell(conversation_id@) == Some(message@),
                None => old(self)@.farewell(conversation_id@) is None,
            },
    {
        let _ = self.streams.remove(conversation_id);
        let _ = self.owners.remove(conversation_id);
        assert(self@ =~= old(self)@.unfollowed(conversation_id@));
        match &self.client_id {
            Some(client) => Some(
                wire::following_changed(client.as_str(), conversation_id, false),
            ),
            None => None,
        }
    }

    /// Ends the bus: whoever waits is let go, and the sinks come out to be
    /// told that the bus is gone.
    pub fn disconnect(&mut self) -> (sinks: Vec<(String, S)>)
        ensures
            final(self)@ == old(self)@.disconnected(),
            table::filed(sinks@, old(self)@.streams),
    {
        self.alive = false;
        self.pending = Table::new();
        let sinks = self.streams.drain();
        assert(self@ =~= old(self)@.disconnected());
        sinks
    }
}

/// What comes of a registration: the id that the router has assigned.
pub open spec fn registered(handled: Result<(Option<Seq<char>>, Tree), Trouble>) -> Result<
    Seq<char>,
    Trouble,
> {
    match handled {
        Ok((_, value)) => match value.text_at("clientId"@) {
            Some(client) => Ok(client),
            None => Err(Trouble::Refused("registration gave no client id"@)),
        },
        Err(error) => Err(error),
    }
}

impl<W, S: Clone> Bus<W, S> {
    /// A copy of the sink of a conversation, so that it runs without the bus at
    /// hand.
    pub fn sink(&self, conversation_id: &str) -> (sink: Option<S>)
        ensures
            match sink {
                Some(sink) => {
                    &&& self@.streams.contains_key(conversation_id@)
                    &&& cloned(self@.streams[conversation_id@], sink)
                },
                None => !self@.streams.contains_key(conversation_id@),
            },
    {
        match self.streams.get(conversation_id) {
            Some(sink) => Some(sink.clone()),
            None => None,
        }
    }

    /// Takes in a message and says what it calls for.
    pub fn dispatch(&mut self, message: Json) -> (action: Action<W, S>)
        ensures
            ({
                let (after, effect) = old(self)@.dispatched(wire::sorted(message@));
                &&& final(self)@ == after
                &&& amounts_to(action, effect, old(self)@.streams)
            }),
    {
        match wire::classify(message) {
            Incoming::Response { request_id, handled_by, outcome } => {
                let waiting = self.pending.remove(request_id.as_str());
                match waiting {
                    Some(waiter) => Action::Deliver { waiter, handled_by, outcome },
                    None => {
                        assert(self@.pending =~= old(self)@.pending);
                        Action::Nothing
                    },
                }
            },
            Incoming::DiscoveryRequest { request_id } => Action::Send(
                wire::discovery_refusal(request_id.as_str()),
            ),
            Incoming::Broadcast { method, version, params } => {
                if same(method.as_str(), STREAM_STATE_CHANGED) {
                    self.stream_changed(version, &params)
                } else if same(method.as_str(), CLIENT_STATUS_CHANGED) {
                    let left = match params.text_at("status") {
                        Some(status) => same(status, "disconnected"),
                        None => false,
                    };
                    if !left {
                        return Action::Nothing;
                    }
                    match params.text_at("clientId") {
                        Some(client) => Action::TellEach {
                            conversations: self.owner_left(client),
                            event: StreamEvent::OwnerGone,
                        },
                        None => Action::Nothing,
                    }
                } else {
                    Action::Nothing
                }
            },
            Incoming::Other => Action::Nothing,
        }
    }

    fn stream_changed(&self, version: u64, params: &Json) -> (action: Action<W, S>)
        ensures
            amounts_to(action, self@.streamed(version, params@), self@.streams),
    {
        let conversation = match params.text_at("conversationId") {
            Some(conversation) => conversation,
            None => {
                return Action::Nothing;
            },
        };
        let sink = match self.sink(conversation) {
            Some(sink) => sink,
            None => {
                return Action::Nothing;
            },
        };
        let event = if version == STREAM_STATE_VERSION {
            StreamEvent::Change(params.member_or_null("change"))
        } else {
            StreamEvent::Incompatible
        };
        Action::Tell { conversation: conversation.to_owned(), sink, event }
    }

    /// The conversations that a client owns.
    fn owned(&self, client: &str) -> (conversations: Vec<String>)
        ensures
            text::entries(conversations@).no_duplicates(),
            text::entries(conversations@).to_set() == self@.owned_by(client@),
    {
        let mut conversations: Vec<String> = Vec::new();
        let count: usize = self.owners.len();
        let ghost keys = self.owners.keys();
        let ghost owned = self@.owned_by(client@);
        let mut place: usize = 0;
        while place < count
            invariant
                place <= count == keys.len(),
                keys == self.owners.keys(),
                keys.no_duplicates(),
                owned == self@.owned_by(client@),
                text::entries(conversations@).no_duplicates(),
                forall|name: Seq<char>| #[trigger]
                    text::entries(conversations@).contains(name) <==> keys.take(
                        place as int,
                    ).contains(name) && owned.contains(name),
            decreases count - place,
        {
            let ghost before = text::entries(conversations@);
            let ghost key = keys[place as int];
            proof {
                text::lemma_one_further(keys, place as int);
            }
            if same(self.owners.value_at(place).as_str(), client) {
                conversations.push(self.owners.key_at(place).clone());
                proof {
                    let names = text::entries(conversations@);
                    assert(names =~= before.push(key));
                    assert forall|i: int| 0 <= i < before.len() implies before[i] != key by {
                        assert(before.contains(before[i]));
                    }
                    assert forall|name: Seq<char>| #[trigger]
                        names.contains(name) <==> before.contains(name) || name == key by {
                        if before.contains(name) {
                            assert(names[before.index_of(name)] == name);
                        }
                        assert(names[before.len() as int] == key);
                    }
                }
            }
            place += 1;
        }
        proof {
            assert(keys.take(count as int) =~= keys);
            assert(text::entries(conversations@).to_set() =~= owned) by {
                assert forall|name: Seq<char>| owned.contains(name) implies keys.contains(
                    name,
                ) by {
                    assert(self.owners@.contains_key(name));
                }
            }
        }
        conversations
    }

    /// Forgets who owns some conversations.
    fn forget_owners(&mut self, conversations: &Vec<String>)
        ensures
            final(self)@ == (Desk {
                owners: old(self)@.owners.remove_keys(text::entries(conversations@).to_set()),
                ..old(self)@
            }),
    {
        let ghost names = text::entries(conversations@);
        let mut place: usize = 0;
        assert(self@.owners =~= old(self)@.owners.remove_keys(names.take(0).to_set()));
        while place < conversations.len()
            invariant
                place <= conversations@.len(),
                names == text::entries(conversations@),
                self@ == (Desk {
                    owners: old(self)@.owners.remove_keys(names.take(place as int).to_set()),
                    ..old(self)@
                }),
            decreases conversations@.len() - place,
        {
            let ghost before = self@;
            let _ = self.owners.remove(conversations[place].as_str());
            proof {
                text::lemma_one_further(names, place as int);
                assert(self@.owners =~= before.owners.remove(names[place as int]));
                assert(self@.owners =~= old(self)@.owners.remove_keys(
                    names.take(place + 1).to_set(),
                ));
            }
            place += 1;
        }
        assert(names.take(names.len() as int) =~= names);
    }

    /// Forgets a client as an owner, and gives the conversations that it owned.
    fn owner_left(&mut self, client: &str) -> (gone: Vec<String>)
        ensures
            final(self)@ == old(self)@.orphaned(client@),
            text::entries(gone@).no_duplicates(),
            text::entries(gone@).to_set() == old(self)@.owned_by(client@),
    {
        let gone = self.owned(client);
        self.forget_owners(&gone);
        gone
    }
}

/// How a read of the socket went.
#[derive(Clone, Copy, Debug, PartialEq, Eq, Structural)]
pub enum Read {
    /// So many bytes came.
    Bytes(usize),
    Interrupted,
    Failed,
}

/// What to do after a read.
#[derive(Clone, Copy, Debug, PartialEq, Eq, Structural)]
pub enum Next {
    /// Decode the bytes and read on.
    Decode(usize),
    ReadAgain,
    Stop,
}

/// What to do after a read.
pub open spec fn next_after(read: Read) -> Next {
    match read {
        Read::Bytes(count) => if count > 0 {
            Next::Decode(count)
        } else {
            Next::Stop
        },
        Read::Interrupted => Next::ReadAgain,
        Read::Failed => Next::Stop,
    }
}

/// What to do after a read: no bytes are the end of the stream, and only an
/// interrupted read is tried again.
pub fn after_read(read: Read) -> (next: Next)
    ensures
        next == next_after(read),
        next == (match read {
            Read::Bytes(count) => if count == 0 {
                Next::Stop
            } else {
                Next::Decode(count)
            },
            Read::Interrupted => Next::ReadAgain,
            Read::Failed => Next::Stop,
        }),
{
    match read {
        Read::Bytes(count) => if count == 0 {
            Next::Stop
        } else {
            Next::Decode(count)
        },
        Read::Interrupted => Next::ReadAgain,
        Read::Failed => Next::Stop,
    }
}

/// Whether a message changes the stream of a conversation.
pub open spec fn is_change(
    message: Arrival,
    conversation: Seq<char>,
    version: u64,
    change: Tree,
) -> bool {
    message matches Arrival::Broadcast { method, version: stamp, params } && method
        == STREAM_STATE_CHANGED@ && stamp == version && params.text_at("conversationId"@) == Some(
        conversation,
    ) && params.member_or_null("change"@) == change
}

/// Whether a message says that a client has left the bus.
pub open spec fn is_departure(message: Arrival, client: Seq<char>) -> bool {
    message matches Arrival::Broadcast { method, params, .. } && method == CLIENT_STATUS_CHANGED@
        && params.text_at("status"@) == Some("disconnected"@) && params.text_at("clientId"@)
        == Some(client)
}

/// Whether a broadcast is about a conversation.
pub open spec fn is_about(message: Arrival, conversation: Seq<char>) -> bool {
    message matches Arrival::Broadcast { method, params, .. } && method == STREAM_STATE_CHANGED@
        && params.text_at("conversationId"@) == Some(conversation)
}

proof fn lemma_broadcasts_differ()
    ensures
        STREAM_STATE_CHANGED@ != CLIENT_STATUS_CHANGED@,
{
    reveal_strlit("thread-stream-state-changed");
    reveal_strlit("client-status-changed");
    assert(STREAM_STATE_CHANGED@.len() != CLIENT_STATUS_CHANGED@.len());
}

/// Every discovery request is refused, whatever the bus knows, and changes
/// nothing.
pub proof fn law_discovery_is_always_refused<W, S>(desk: Desk<W, S>, request_id: Seq<char>)
    ensures
        desk.dispatched(Arrival::DiscoveryRequest { request_id }) == (
            desk,
            Effect::<W>::Send(wire::refusal_tree(request_id)),
        ),
{
}

/// A waiter is handed the first response to its request, and nobody is handed
/// a second one.
pub proof fn law_a_request_is_answered_once<W, S>(
    desk: Desk<W, S>,
    request_id: Seq<char>,
    waiter: W,
    handled_by: Option<Seq<char>>,
    outcome: Result<Tree, Seq<char>>,
    again: Option<Seq<char>>,
    other: Result<Tree, Seq<char>>,
)
    ensures
        ({
            let asked = desk.waiting(request_id, waiter);
            let (answered, effect) = asked.dispatched(
                Arrival::Response { request_id, handled_by, outcome },
            );
            let second = Arrival::Response { request_id, handled_by: again, outcome: other };
            &&& effect == Effect::<W>::Deliver { waiter, handled_by, outcome }
            &&& answered.dispatched(second) == (answered, Effect::<W>::Nothing)
        }),
{
}

/// A response reaches its waiter past any other message: none but its own
/// response takes a waiter away.
pub proof fn law_other_messages_leave_a_waiter<W, S>(
    desk: Desk<W, S>,
    message: Arrival,
    request_id: Seq<char>,
)
    requires
        desk.pending.contains_key(request_id),
        !(message matches Arrival::Response { request_id: id, .. } && id == request_id),
    ensures
        desk.dispatched(message).0.pending.contains_key(request_id),
        desk.dispatched(message).0.pending[request_id] == desk.pending[request_id],
{
}

/// A change of a followed conversation is told to its sink and to no other:
/// as it is if its version is understood, and as incompatible if not. A
/// change of any other conversation is passed over.
pub proof fn law_changes_reach_their_sink_only<W, S>(
    desk: Desk<W, S>,
    message: Arrival,
    conversation: Seq<char>,
    version: u64,
    change: Tree,
)
    requires
        is_change(message, conversation, version, change),
    ensures
        desk.dispatched(message) == (
            desk,
            if !desk.streams.contains_key(conversation) {
                Effect::<W>::Nothing
            } else if version == STREAM_STATE_VERSION {
                Effect::<W>::Tell { conversation, event: Happening::Change(change) }
            } else {
                Effect::<W>::Tell { conversation, event: Happening::Incompatible }
            },
        ),
{
}

/// No message is told to the sink of a conversation that is not followed.
pub proof fn law_only_followed_conversations_are_told<W, S>(desk: Desk<W, S>, message: Arrival)
    ensures
        desk.dispatched(message).1 matches Effect::Tell { conversation, .. }
            ==> desk.streams.contains_key(conversation),
{
}

/// After a conversation is no longer followed, nothing is left of it, and
/// its changes are passed over.
pub proof fn law_unfollowing_is_final<W, S>(
    desk: Desk<W, S>,
    conversation: Seq<char>,
    message: Arrival,
)
    ensures
        ({
            let after = desk.unfollowed(conversation);
            &&& !after.streams.contains_key(conversation)
            &&& !after.owners.contains_key(conversation)
            &&& is_about(message, conversation) ==> after.dispatched(message) == (
                after,
                Effect::<W>::Nothing,
            )
        }),
{
}

/// A wish to follow that fails leaves the bus as if the conversation had never
/// been followed.
pub proof fn law_a_refused_follow_leaves_nothing<W, S>(
    desk: Desk<W, S>,
    conversation: Seq<char>,
    sink: S,
    error: Trouble,
)
    ensures
        ({
            let wished = Desk { streams: desk.streams.insert(conversation, sink), ..desk };
            wished.followed(conversation, Err(error)) == desk.unfollowed(conversation)
        }),
{
    let wished = Desk { streams: desk.streams.insert(conversation, sink), ..desk };
    assert(wished.followed(conversation, Err(error)) =~= desk.unfollowed(conversation));
}

/// When a client leaves, the threads that it owns are orphaned and no others
/// are, and it owns nothing any more; so the same news again orphans none. The
/// threads stay followed.
pub proof fn law_an_owner_leaving_orphans_its_threads_once<W, S>(
    desk: Desk<W, S>,
    message: Arrival,
    client: Seq<char>,
)
    requires
        is_departure(message, client),
    ensures
        ({
            let (after, effect) = desk.dispatched(message);
            &&& effect matches Effect::TellEach { conversations, event } && event
                == Happening::OwnerGone && forall|conversation: Seq<char>| #[trigger]
                conversations.contains(conversation) <==> desk.owners.contains_key(conversation)
                    && desk.owners[conversation] == client
            &&& after.streams == desk.streams
            &&& after.owned_by(client) == Set::<Seq<char>>::empty()
            &&& after.dispatched(message) == (
                after,
                Effect::<W>::TellEach { conversations: set![], event: Happening::OwnerGone },
            )
        }),
{
    lemma_broadcasts_differ();
    let (after, effect) = desk.dispatched(message);
    assert(after.owned_by(client) =~= Set::<Seq<char>>::empty());
    assert(after.orphaned(client) =~= after);
}

/// While the sinks of orphaned threads are told one by one, a thread that is
/// unfollowed before its turn has no sink left to be told, and every other one
/// has the sink that it had.
pub proof fn law_an_orphan_unfollowed_before_its_turn_is_not_told<W, S>(
    desk: Desk<W, S>,
    message: Arrival,
    client: Seq<char>,
    unfollowed: Seq<char>,
    other: Seq<char>,
)
    requires
        is_departure(message, client),
        other != unfollowed,
    ensures
        ({
            let after = desk.dispatched(message).0.unfollowed(unfollowed);
            &&& !after.streams.contains_key(unfollowed)
            &&& after.streams.contains_key(other) == desk.streams.contains_key(other)
            &&& desk.streams.contains_key(other) ==> after.streams[other] == desk.streams[other]
        }),
{
    lemma_broadcasts_differ();
}

/// Of the owners, a client that leaves takes only its own threads along.
pub proof fn law_other_owners_stay<W, S>(
    desk: Desk<W, S>,
    message: Arrival,
    client: Seq<char>,
    conversation: Seq<char>,
)
    requires
        is_departure(message, client),
        desk.owners.contains_key(conversation),
        desk.owners[conversation] != client,
    ensures
        desk.dispatched(message).0.owners.contains_key(conversation),
        desk.dispatched(message).0.owners[conversation] == desk.owners[conversation],
{
    lemma_broadcasts_differ();
}

/// A thread that is followed again has the client that answered as its owner,
/// so that one's leaving is noticed in turn, and it keeps its sink.
pub proof fn law_following_again_notes_the_new_owner<W, S>(
    desk: Desk<W, S>,
    conversation: Seq<char>,
    owner: Seq<char>,
    answer: Tree,
    message: Arrival,
)
    requires
        is_departure(message, owner),
        desk.streams.contains_key(conversation),
    ensures
        ({
            let after = desk.followed(conversation, Ok((Some(owner), answer)));
            let (_, effect) = after.dispatched(message);
            &&& after.streams == desk.streams
            &&& effect matches Effect::TellEach { conversations, event } && event
                == Happening::OwnerGone && conversations.contains(conversation)
        }),
{
    lemma_broadcasts_differ();
}

/// Once the bus is gone, nobody waits and no conversation has a sink, so no
/// message is handed or told to anyone; it stays gone, whatever message still
/// comes.
pub proof fn law_a_gone_bus_stays_silent<W, S>(desk: Desk<W, S>, message: Arrival)
    ensures
        ({
            let gone = desk.disconnected();
            let (after, effect) = gone.dispatched(message);
            &&& !gone.alive && !after.alive
            &&& gone.pending == Map::<Seq<char>, W>::empty()
            &&& gone.streams == Map::<Seq<char>, S>::empty()
            &&& after.pending == gone.pending
            &&& after.streams == gone.streams
            &&& !(effect is Deliver)
            &&& !(effect is Tell)
        }),
{
}

}
