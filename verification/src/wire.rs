//! Framing and message shapes for the Codex desktop app's local IPC bus.
//!
//! Every frame is a little-endian `u32` byte length followed by that many
//! bytes of JSON. The router in the desktop app assigns each client an id
//! on `initialize`, forwards requests to whichever client says it can
//! handle them, and fans broadcasts out to everyone else.

use vstd::prelude::*;

use crate::json::{self, Json, ObjectBuilder, Tree, MAX_DEPTH};
use crate::text::{self, decimal, same};

verus! {

/// The desktop app refuses frames above this, so a larger length can only
/// mean the stream is out of step.
pub const MAX_FRAME_BYTES: usize = 256 * 1024 * 1024;

/// Version the desktop app stamps on `thread-stream-state-changed`. A
/// different number means the conversation shape may have changed under us.
pub const STREAM_STATE_VERSION: u64 = 11;

pub const STREAM_STATE_CHANGED: &'static str = "thread-stream-state-changed";

pub const CLIENT_STATUS_CHANGED: &'static str = "client-status-changed";

/// Why a stream of frames cannot be read on.
#[derive(Debug, PartialEq, Eq)]
pub enum WireError {
    BadLength(usize),
    BadJson(String),
}

impl WireError {
    /// The error in words.
    pub open spec fn spec_message(self) -> Seq<char> {
        match self {
            WireError::BadLength(length) => "frame length "@ + text::digits(length as nat)
                + " is out of range"@,
            WireError::BadJson(why) => "frame is not JSON: "@ + why@,
        }
    }

    /// The error in words.
    pub fn message(&self) -> (message: String)
        ensures
            message@ == self.spec_message(),
    {
        match self {
            WireError::BadLength(length) => {
                let mut message = "frame length ".to_owned();
                message.append(decimal(*length as u64).as_str());
                message.append(" is out of range");
                message
            },
            WireError::BadJson(why) => {
                let mut message = "frame is not JSON: ".to_owned();
                message.append(why.as_str());
                message
            },
        }
    }
}

/// Requests oTerm sends, each with the version the desktop app checks it
/// against before handling it.
#[derive(Clone, Copy, Debug, PartialEq, Eq, Structural)]
pub enum Method {
    Initialize,
    OwnerDiscovery,
    LoadHistory,
    StartTurn,
    SteerTurn,
    InterruptTurn,
    CommandApproval,
    FileApproval,
}

impl Method {
    pub open spec fn spec_name(self) -> Seq<char> {
        match self {
            Method::Initialize => "initialize"@,
            Method::OwnerDiscovery => "thread-owner-discovery"@,
            Method::LoadHistory => "thread-follower-load-complete-history"@,
            Method::StartTurn => "thread-follower-start-turn"@,
            Method::SteerTurn => "thread-follower-steer-turn"@,
            Method::InterruptTurn => "thread-follower-interrupt-turn"@,
            Method::CommandApproval => "thread-follower-command-approval-decision"@,
            Method::FileApproval => "thread-follower-file-approval-decision"@,
        }
    }

    pub open spec fn spec_version(self) -> u64 {
        match self {
            Method::Initialize => 0,
            Method::StartTurn => 2,
            Method::InterruptTurn => 4,
            _ => 1,
        }
    }

    pub fn name(self) -> (name: &'static str)
        ensures
            name@ == self.spec_name(),
    {
        match self {
            Method::Initialize => "initialize",
            Method::OwnerDiscovery => "thread-owner-discovery",
            Method::LoadHistory => "thread-follower-load-complete-history",
            Method::StartTurn => "thread-follower-start-turn",
            Method::SteerTurn => "thread-follower-steer-turn",
            Method::InterruptTurn => "thread-follower-interrupt-turn",
            Method::CommandApproval => "thread-follower-command-approval-decision",
            Method::FileApproval => "thread-follower-file-approval-decision",
        }
    }

    /// The version in the desktop app's own table. It rejects a request whose
    /// version does not match with `request-version-mismatch`.
    pub fn version(self) -> (version: u64)
        ensures
            version == self.spec_version(),
    {
        match self {
            Method::Initialize => 0,
            Method::OwnerDiscovery | Method::LoadHistory | Method::SteerTurn
            | Method::CommandApproval | Method::FileApproval => 1,
            Method::StartTurn => 2,
            Method::InterruptTurn => 4,
        }
    }
}

/// One decoded frame, sorted by what oTerm has to do with it.
#[derive(Debug, PartialEq)]
pub enum Incoming {
    Response {
        request_id: String,
        /// The client that answered. For a thread request this is the
        /// thread's owner, which is how its disappearance is noticed.
        handled_by: Option<String>,
        outcome: Result<Json, String>,
    },
    Broadcast { method: String, version: u64, params: Json },
    /// The router asking whether this client can take a request. oTerm
    /// owns no threads, so the answer is always no.
    DiscoveryRequest { request_id: String },
    /// Anything else, including requests routed here by mistake.
    Other,
}

/// What an `Incoming` means.
pub enum Arrival {
    Response {
        request_id: Seq<char>,
        handled_by: Option<Seq<char>>,
        outcome: Result<Tree, Seq<char>>,
    },
    Broadcast { method: Seq<char>, version: u64, params: Tree },
    DiscoveryRequest { request_id: Seq<char> },
    Other,
}

impl View for Incoming {
    type V = Arrival;

    open spec fn view(&self) -> Arrival {
        match *self {
            Incoming::Response { request_id, handled_by, outcome } => Arrival::Response {
                request_id: request_id@,
                handled_by: match handled_by {
                    Some(client) => Some(client@),
                    None => None,
                },
                outcome: match outcome {
                    Ok(value) => Ok(value@),
                    Err(error) => Err(error@),
                },
            },
            Incoming::Broadcast { method, version, params } => Arrival::Broadcast {
                method: method@,
                version,
                params: params@,
            },
            Incoming::DiscoveryRequest { request_id } => Arrival::DiscoveryRequest {
                request_id: request_id@,
            },
            Incoming::Other => Arrival::Other,
        }
    }
}

/// What a message is, by its `type` and the members that the type calls for.
pub open spec fn sorted(message: Tree) -> Arrival {
    if message.text_at("type"@) == Some("response"@) {
        match message.text_at("requestId"@) {
            Some(request_id) => Arrival::Response {
                request_id,
                handled_by: message.text_at("handledByClientId"@),
                outcome: if message.text_at("resultType"@) == Some("success"@) {
                    Ok(message.member_or_null("result"@))
                } else {
                    Err(
                        match message.text_at("error"@) {
                            Some(error) => error,
                            None => "unknown error"@,
                        },
                    )
                },
            },
            None => Arrival::Other,
        }
    } else if message.text_at("type"@) == Some("broadcast"@) {
        match message.text_at("method"@) {
            Some(method) => Arrival::Broadcast {
                method,
                version: match message.unsigned_at("version"@) {
                    Some(version) => version,
                    None => 0,
                },
                params: message.member_or_null("params"@),
            },
            None => Arrival::Other,
        }
    } else if message.text_at("type"@) == Some("client-discovery-request"@) {
        match message.text_at("requestId"@) {
            Some(request_id) => Arrival::DiscoveryRequest { request_id },
            None => Arrival::Other,
        }
    } else {
        Arrival::Other
    }
}

/// Sorts a message by what has to be done with it.
pub fn classify(message: Json) -> (incoming: Incoming)
    ensures
        incoming@ == sorted(message@),
{
    let kind = match message.text_at("type") {
        Some(kind) => kind,
        None => {
            return Incoming::Other;
        },
    };
    if same(kind, "response") {
        let request_id = match message.text_at("requestId") {
            Some(request_id) => request_id.to_owned(),
            None => {
                return Incoming::Other;
            },
        };
        let succeeded = match message.text_at("resultType") {
            Some(result) => same(result, "success"),
            None => false,
        };
        let outcome = if succeeded {
            Ok(message.member_or_null("result"))
        } else {
            match message.text_at("error") {
                Some(error) => Err(error.to_owned()),
                None => Err("unknown error".to_owned()),
            }
        };
        let handled_by = match message.text_at("handledByClientId") {
            Some(client) => Some(client.to_owned()),
            None => None,
        };
        Incoming::Response { request_id, handled_by, outcome }
    } else if same(kind, "broadcast") {
        match message.text_at("method") {
            Some(method) => Incoming::Broadcast {
                method: method.to_owned(),
                version: match message.unsigned_at("version") {
                    Some(version) => version,
                    None => 0,
                },
                params: message.member_or_null("params"),
            },
            None => Incoming::Other,
        }
    } else if same(kind, "client-discovery-request") {
        match message.text_at("requestId") {
            Some(request_id) => Incoming::DiscoveryRequest { request_id: request_id.to_owned() },
            None => Incoming::Other,
        }
    } else {
        Incoming::Other
    }
}

/// The message that asks for `method`.
pub open spec fn request_tree(
    request_id: Seq<char>,
    source_client_id: Option<Seq<char>>,
    method: Method,
    params: Tree,
) -> Tree {
    let message = map![
        "type"@ => Tree::Text("request"@),
        "requestId"@ => Tree::Text(request_id),
        "method"@ => Tree::Text(method.spec_name()),
        "version"@ => Tree::Integer(method.spec_version() as int),
        "params"@ => params,
    ];
    match source_client_id {
        Some(source) => Tree::Object(message.insert("sourceClientId"@, Tree::Text(source))),
        None => Tree::Object(message),
    }
}

pub fn request(
    request_id: &str,
    source_client_id: Option<&str>,
    method: Method,
    params: Json,
) -> (message: Json)
    ensures
        message@ == request_tree(
            request_id@,
            match source_client_id {
                Some(source) => Some(source@),
                None => None,
            },
            method,
            params@,
        ),
{
    let message = ObjectBuilder::new().with("type", Json::text("request")).with(
        "requestId",
        Json::text(request_id),
    ).with("method", Json::text(method.name())).with("version", Json::Unsigned(method.version())).with(
        "params",
        params,
    );
    match source_client_id {
        Some(source) => message.with("sourceClientId", Json::text(source)).build(),
        None => message.build(),
    }
}

/// The message that starts or stops the stream of a conversation.
pub open spec fn following_tree(
    source_client_id: Seq<char>,
    conversation_id: Seq<char>,
    following: bool,
) -> Tree {
    Tree::Object(
        map![
            "type"@ => Tree::Text("broadcast"@),
            "method"@ => Tree::Text("thread-stream-following-changed"@),
            "sourceClientId"@ => Tree::Text(source_client_id),
            "version"@ => Tree::Integer(1),
            "params"@ => Tree::Object(map![
                "conversationId"@ => Tree::Text(conversation_id),
                "hostId"@ => Tree::Text("local"@),
                "following"@ => Tree::Bool(following),
            ]),
        ],
    )
}

/// Tells the owner to start or stop sending this client the conversation.
pub fn following_changed(
    source_client_id: &str,
    conversation_id: &str,
    following: bool,
) -> (message: Json)
    ensures
        message@ == following_tree(source_client_id@, conversation_id@, following),
{
    let params = ObjectBuilder::new().with("conversationId", Json::text(conversation_id)).with(
        "hostId",
        Json::text("local"),
    ).with("following", Json::Bool(following)).build();
    ObjectBuilder::new().with("type", Json::text("broadcast")).with(
        "method",
        Json::text("thread-stream-following-changed"),
    ).with("sourceClientId", Json::text(source_client_id)).with("version", Json::Unsigned(1)).with(
        "params",
        params,
    ).build()
}

/// The message that turns a discovery request down.
pub open spec fn refusal_tree(request_id: Seq<char>) -> Tree {
    Tree::Object(
        map![
            "type"@ => Tree::Text("client-discovery-response"@),
            "requestId"@ => Tree::Text(request_id),
            "response"@ => Tree::Object(map!["canHandle"@ => Tree::Bool(false)]),
        ],
    )
}

pub fn discovery_refusal(request_id: &str) -> (message: Json)
    ensures
        message@ == refusal_tree(request_id@),
{
    let response = ObjectBuilder::new().with("canHandle", Json::Bool(false)).build();
    ObjectBuilder::new().with("type", Json::text("client-discovery-response")).with(
        "requestId",
        Json::text(request_id),
    ).with("response", response).build()
}

/// The little-endian `u32` that stands for a length, cut to its lower 32
/// bits.
pub open spec fn prefix(length: nat) -> Seq<u8> {
    seq![
        (length % 256) as u8,
        (length / 256 % 256) as u8,
        (length / 65536 % 256) as u8,
        (length / 16777216 % 256) as u8,
    ]
}

/// The length that the first four bytes give.
pub open spec fn length_of(bytes: Seq<u8>) -> nat {
    (bytes[0] + 256 * bytes[1] + 65536 * bytes[2] + 16777216 * bytes[3]) as nat
}

/// A body behind its length.
pub open spec fn framed(body: Seq<u8>) -> Seq<u8> {
    prefix(body.len()) + body
}

/// The JSON text of a message in bytes.
pub open spec fn body_of(message: Tree) -> Seq<u8> {
    vstd::utf8::encode_utf8(json::json_text(message))
}

/// The frame of a message.
pub fn encode(message: &Json) -> (frame: Vec<u8>)
    ensures
        frame@ == framed(body_of(message@)),
        body_of(message@).len() > 0,
        message@.survives(MAX_DEPTH as nat) ==> json::parsed(body_of(message@)) == Ok::<Tree, Seq<char>>(
            message@,
        ),
{
    let text = message.to_text();
    let body = text.as_str().as_bytes();
    let length = body.len();
    let mut frame: Vec<u8> = Vec::new();
    frame.push((length % 256) as u8);
    frame.push((length / 256 % 256) as u8);
    frame.push((length / 65536 % 256) as u8);
    frame.push((length / 16777216 % 256) as u8);
    frame.extend_from_slice(body);
    proof {
        assert(frame@ =~= framed(body_of(message@)));
        lemma_bytes_of_text(text@);
    }
    frame
}

/// How the reading of some bytes ends.
pub enum End {
    /// Every whole frame is read; these bytes wait for more.
    Waiting(Seq<u8>),
    BadLength(nat),
    BadJson(Seq<char>),
}

/// What some bytes say: the messages of their frames, in order, up to where
/// the reading ends.
pub struct Scan {
    pub messages: Seq<Tree>,
    pub end: End,
}

/// What the bytes say from the start of a frame on.
pub open spec fn scan(bytes: Seq<u8>) -> Scan
    decreases bytes.len(),
{
    if bytes.len() < 4 {
        Scan { messages: seq![], end: End::Waiting(bytes) }
    } else {
        let length = length_of(bytes) as int;
        if length == 0 || length > MAX_FRAME_BYTES {
            Scan { messages: seq![], end: End::BadLength(length as nat) }
        } else if bytes.len() < 4 + length {
            Scan { messages: seq![], end: End::Waiting(bytes) }
        } else {
            match json::parsed(bytes.subrange(4, 4 + length)) {
                Ok(message) => {
                    let rest = scan(bytes.skip(4 + length));
                    Scan { messages: seq![message] + rest.messages, end: rest.end }
                },
                Err(why) => Scan { messages: seq![], end: End::BadJson(why) },
            }
        }
    }
}

/// Reassembles frames from reads that split or join them arbitrarily.
pub struct FrameDecoder {
    buffer: Vec<u8>,
}

impl Default for FrameDecoder {
    fn default() -> (decoder: Self)
        ensures
            decoder@ == Seq::<u8>::empty(),
    {
        FrameDecoder { buffer: Vec::new() }
    }
}

impl FrameDecoder {
    /// The bytes that no whole frame has claimed yet.
    pub closed spec fn view(self) -> Seq<u8> {
        self.buffer@
    }

    /// Takes in what was read and gives out the messages that it completes.
    pub fn push(&mut self, bytes: &[u8]) -> (outcome: Result<Vec<Json>, WireError>)
        ensures
            ({
                let scan = scan(old(self)@ + bytes@);
                match scan.end {
                    End::Waiting(rest) => {
                        &&& outcome matches Ok(messages) && json::trees(messages@) == scan.messages
                        &&& final(self)@ == rest
                    },
                    End::BadLength(length) => {
                        &&& outcome matches Err(WireError::BadLength(found)) && found == length
                        &&& final(self)@ == old(self)@ + bytes@
                    },
                    End::BadJson(why) => {
                        &&& outcome matches Err(WireError::BadJson(message)) && message@ == why
                        &&& final(self)@ == old(self)@ + bytes@
                    },
                }
            }),
    {
        self.buffer.extend_from_slice(bytes);
        let ghost all = self.buffer@;
        let mut messages: Vec<Json> = Vec::new();
        let mut start: usize = 0;
        assert(all =~= old(self)@ + bytes@);
        assert(all.skip(0) =~= all);
        assert(json::trees(messages@) + scan(all).messages =~= scan(all).messages);
        loop
            invariant_except_break
                start <= all.len(),
                self.buffer@ == all,
                scan(all).end == scan(all.skip(start as int)).end,
                scan(all).messages == json::trees(messages@) + scan(all.skip(start as int)).messages,
            invariant
                all == old(self)@ + bytes@,
            ensures
                start <= all.len(),
                self.buffer@ == all,
                scan(all).end == End::Waiting(all.skip(start as int)),
                scan(all).messages == json::trees(messages@),
            decreases all.len() - start,
        {
            let ghost rest = all.skip(start as int);
            if self.buffer.len() - start < 4 {
                break;
            }
            let length: u32 = self.buffer[start] as u32 + 256 * (self.buffer[start + 1] as u32) + 65536
                * (self.buffer[start + 2] as u32) + 16777216 * (self.buffer[start + 3] as u32);
            let length: usize = length as usize;
            assert(length == length_of(rest));
            if length == 0 || length > MAX_FRAME_BYTES {
                return Err(WireError::BadLength(length));
            }
            if self.buffer.len() - start - 4 < length {
                break;
            }
            let end = start + 4 + length;
            let body = vstd::slice::slice_subrange(self.buffer.as_slice(), start + 4, end);
            assert(body@ =~= rest.subrange(4, 4 + length));
            match Json::from_slice(body) {
                Ok(message) => {
                    let ghost before = json::trees(messages@);
                    messages.push(message);
                    proof {
                        assert(rest.skip(4 + length) =~= all.skip(end as int));
                        assert(json::trees(messages@) =~= before.push(message@));
                        assert(before + (seq![message@] + scan(all.skip(end as int)).messages)
                            =~= before.push(message@) + scan(all.skip(end as int)).messages);
                    }
                },
                Err(why) => {
                    return Err(WireError::BadJson(why));
                },
            }
            start = end;
        }
        self.buffer = self.buffer.split_off(start);
        Ok(messages)
    }
}

/// Text that is not empty has bytes.
proof fn lemma_bytes_of_text(text: Seq<char>)
    requires
        text.len() > 0,
    ensures
        vstd::utf8::encode_utf8(text).len() > 0,
{
    vstd::utf8::encode_utf8_first_scalar(text);
}

/// What is left over by a scan completes no frame.
proof fn lemma_rest_waits(bytes: Seq<u8>)
    ensures
        scan(bytes).end matches End::Waiting(rest) ==> scan(rest) == (Scan {
            messages: seq![],
            end: End::Waiting(rest),
        }),
    decreases bytes.len(),
{
    if bytes.len() >= 4 {
        let length = length_of(bytes) as int;
        if 0 < length <= MAX_FRAME_BYTES && bytes.len() >= 4 + length {
            lemma_rest_waits(bytes.skip(4 + length));
        }
    }
}

/// Reading on: bytes that follow are read as if the scan had stopped where
/// its rest begins, and never change what came before.
pub proof fn law_reading_on(bytes: Seq<u8>, more: Seq<u8>)
    ensures
        match scan(bytes).end {
            End::Waiting(rest) => {
                &&& scan(bytes + more).messages == scan(bytes).messages + scan(rest + more).messages
                &&& scan(bytes + more).end == scan(rest + more).end
            },
            _ => scan(bytes + more) == scan(bytes),
        },
    decreases bytes.len(),
{
    let all = bytes + more;
    if bytes.len() >= 4 {
        let length = length_of(bytes) as int;
        assert(length_of(all) == length_of(bytes));
        if 0 < length <= MAX_FRAME_BYTES && bytes.len() >= 4 + length {
            let tail = bytes.skip(4 + length);
            assert(all.subrange(4, 4 + length) =~= bytes.subrange(4, 4 + length));
            assert(all.skip(4 + length) =~= tail + more);
            law_reading_on(tail, more);
            match json::parsed(bytes.subrange(4, 4 + length)) {
                Ok(message) => {
                    if let End::Waiting(rest) = scan(bytes).end {
                        assert(seq![message] + (scan(tail).messages + scan(rest + more).messages)
                            =~= (seq![message] + scan(tail).messages) + scan(rest + more).messages);
                    }
                },
                Err(_) => {},
            }
        } else if 0 < length <= MAX_FRAME_BYTES {
            assert(scan(bytes).messages + scan(bytes + more).messages =~= scan(
                bytes + more,
            ).messages);
        }
    } else {
        assert(scan(bytes).messages + scan(all).messages =~= scan(all).messages);
    }
}

/// What a decoder that holds `buffer` gives out over a run of reads, up to
/// the first that fails.
pub open spec fn fed(buffer: Seq<u8>, reads: Seq<Seq<u8>>) -> Scan
    decreases reads.len(),
{
    if reads.len() == 0 {
        Scan { messages: seq![], end: End::Waiting(buffer) }
    } else {
        let first = scan(buffer + reads[0]);
        match first.end {
            End::Waiting(rest) => {
                let later = fed(rest, reads.drop_first());
                Scan { messages: first.messages + later.messages, end: later.end }
            },
            _ => first,
        }
    }
}

/// However the bytes of a stream are split over reads, the same messages come
/// out in the same order, and the reading ends in the same way.
pub proof fn law_splits_do_not_matter(reads: Seq<Seq<u8>>)
    ensures
        fed(seq![], reads) == scan(reads.flatten()),
{
    let none: Seq<u8> = seq![];
    lemma_fed(none, reads);
    assert(none + reads.flatten() =~= reads.flatten());
}

proof fn lemma_fed(buffer: Seq<u8>, reads: Seq<Seq<u8>>)
    requires
        scan(buffer) == (Scan { messages: seq![], end: End::Waiting(buffer) }),
    ensures
        fed(buffer, reads) == scan(buffer + reads.flatten()),
    decreases reads.len(),
{
    if reads.len() == 0 {
        assert(buffer + reads.flatten() =~= buffer);
    } else {
        let held = buffer + reads[0];
        let later = reads.drop_first().flatten();
        assert(buffer + reads.flatten() =~= held + later);
        law_reading_on(held, later);
        lemma_rest_waits(held);
        if let End::Waiting(rest) = scan(held).end {
            lemma_fed(rest, reads.drop_first());
        }
    }
}

/// Whether a message can be sent in a frame that the other end reads back:
/// its text is read as the message, and is no longer than a frame may be.
pub open spec fn frameable(message: Tree) -> bool {
    &&& json::parsed(body_of(message)) == Ok::<Tree, Seq<char>>(message)
    &&& 0 < body_of(message).len() <= MAX_FRAME_BYTES
}

/// The frames of some messages, one behind the other.
pub open spec fn frames(messages: Seq<Tree>) -> Seq<u8>
    decreases messages.len(),
{
    if messages.len() == 0 {
        seq![]
    } else {
        framed(body_of(messages[0])) + frames(messages.drop_first())
    }
}

/// What was framed is read back: a stream of frames, however it is split over
/// reads, gives the messages that were framed, in order and with nothing left
/// over.
pub proof fn law_frames_are_read_back(messages: Seq<Tree>, reads: Seq<Seq<u8>>)
    ensures
        reads.flatten() == frames(messages) && (forall|i: int|
            0 <= i < messages.len() ==> #[trigger] frameable(messages[i])) ==> fed(seq![], reads)
            == (Scan { messages, end: End::Waiting(seq![]) }),
{
    if reads.flatten() == frames(messages) && (forall|i: int|
        0 <= i < messages.len() ==> #[trigger] frameable(messages[i])) {
        law_splits_do_not_matter(reads);
        lemma_frames(messages);
    }
}

proof fn lemma_frames(messages: Seq<Tree>)
    requires
        forall|i: int| 0 <= i < messages.len() ==> #[trigger] frameable(messages[i]),
    ensures
        scan(frames(messages)) == (Scan { messages, end: End::Waiting(seq![]) }),
    decreases messages.len(),
{
    if messages.len() == 0 {
        assert(messages =~= seq![]);
    } else {
        let later = messages.drop_first();
        assert(frameable(messages[0]));
        assert forall|i: int| 0 <= i < later.len() implies #[trigger] frameable(later[i]) by {
            assert(frameable(messages[i + 1]));
        }
        lemma_frames(later);
        lemma_frame(messages[0], frames(later));
        assert(seq![messages[0]] + later =~= messages);
    }
}

/// A frame is read as its message, and what follows it is read on its own.
#[verifier::spinoff_prover]
proof fn lemma_frame(message: Tree, more: Seq<u8>)
    requires
        frameable(message),
    ensures
        scan(framed(body_of(message)) + more) == (Scan {
            messages: seq![message] + scan(more).messages,
            end: scan(more).end,
        }),
{
    let body = body_of(message);
    let head = prefix(body.len());
    let all = framed(body) + more;
    lemma_prefix(body.len());
    assert(all[0] == head[0] && all[1] == head[1] && all[2] == head[2] && all[3] == head[3]);
    let length = body.len() as int;
    assert(all.subrange(4, 4 + length) =~= body);
    assert(all.skip(4 + length) =~= more);
}

/// A length that fits four bytes is read back from them.
proof fn lemma_prefix(length: nat)
    requires
        length < 0x1_0000_0000,
    ensures
        length_of(prefix(length)) == length,
{
    let a = length % 256;
    let b = length / 256 % 256;
    let c = length / 65536 % 256;
    let d = length / 16777216 % 256;
    assert(length == a + 256 * b + 65536 * c + 16777216 * d) by (nonlinear_arith)
        requires
            length < 0x1_0000_0000,
            a == length % 256,
            b == length / 256 % 256,
            c == length / 65536 % 256,
            d == length / 16777216 % 256,
    ;
}

}
