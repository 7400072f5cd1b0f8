//! Frames and messages of the desktop app's bus.

use vstd::prelude::*;

use crate::json::{self, Tree};
use crate::text;
use crate::wire::{
    self, Arrival, End, Method, Scan, WireError, CLIENT_STATUS_CHANGED, STREAM_STATE_CHANGED,
    STREAM_STATE_VERSION,
};

verus! {

/// What the first four bytes weigh, least first.
pub open spec fn weight(bytes: Seq<u8>) -> int {
    bytes[0] + 0x100 * bytes[1] + 0x1_0000 * bytes[2] + 0x100_0000 * bytes[3]
}

/// A frame is four bytes and its body; the byte at place k of the four weighs
/// 256 to the power of k, and together they weigh what the body is long.
pub proof fn law_a_frame_begins_with_its_weight(body: Seq<u8>)
    ensures
        wire::framed(body).len() == 4 + body.len(),
        wire::framed(body).skip(4) == body,
        weight(wire::framed(body)) == body.len() % 0x1_0000_0000,
{
    let frame = wire::framed(body);
    let length = body.len();
    assert(frame.skip(4) =~= body);
    vstd::arithmetic::div_mod::lemma_div_denominator(length as int, 256, 256);
    vstd::arithmetic::div_mod::lemma_div_denominator(length as int, 65536, 256);
    vstd::arithmetic::div_mod::lemma_div_denominator(length as int, 16777216, 256);
    assert(frame[0] == length % 256);
    assert(frame[1] == length / 256 % 256);
    assert(frame[2] == length / 65536 % 256);
    assert(frame[3] == length / 16777216 % 256);
}

/// The body of a message's frame is its JSON text in UTF-8.
pub proof fn law_a_body_is_the_text_of_its_message(message: Tree)
    ensures
        wire::framed(wire::body_of(message)).skip(4) == vstd::utf8::encode_utf8(
            json::json_text(message),
        ),
{
    law_a_frame_begins_with_its_weight(wire::body_of(message));
}

/// Bytes are read by the weight of the first four: fewer than four wait for
/// more; a weight of none, or of over 256 MiB, is refused; fewer bytes behind
/// the four than they weigh wait for more; and as many as they weigh are the
/// body, behind which the next frame begins.
pub proof fn law_bytes_are_read_by_the_weight_of_the_first_four(bytes: Seq<u8>)
    ensures
        bytes.len() < 4 ==> wire::scan(bytes) == (Scan {
            messages: seq![],
            end: End::Waiting(bytes),
        }),
        bytes.len() >= 4 && (weight(bytes) == 0 || weight(bytes) > 268435456) ==> wire::scan(bytes)
            == (Scan { messages: seq![], end: End::BadLength(weight(bytes) as nat) }),
        bytes.len() >= 4 && 0 < weight(bytes) <= 268435456 ==> {
            let end = 4 + weight(bytes);
            if bytes.len() < end {
                wire::scan(bytes) == (Scan { messages: seq![], end: End::Waiting(bytes) })
            } else {
                match json::parsed(bytes.subrange(4, end)) {
                    Ok(message) => {
                        &&& wire::scan(bytes).messages == seq![message] + wire::scan(
                            bytes.skip(end),
                        ).messages
                        &&& wire::scan(bytes).end == wire::scan(bytes.skip(end)).end
                    },
                    Err(why) => wire::scan(bytes) == (Scan {
                        messages: seq![],
                        end: End::BadJson(why),
                    }),
                }
            }
        },
{
}

/// A body of up to 256 MiB that is JSON comes out of its frame as the message
/// that it is the text of, with nothing left over.
pub proof fn law_a_body_comes_out_of_its_frame(body: Seq<u8>, message: Tree)
    ensures
        0 < body.len() <= 268435456 && json::parsed(body) == Ok::<Tree, Seq<char>>(message)
            ==> wire::scan(wire::framed(body)) == (Scan {
            messages: seq![message],
            end: End::Waiting(seq![]),
        }),
{
    if 0 < body.len() <= 268435456 {
        let frame = wire::framed(body);
        law_a_frame_begins_with_its_weight(body);
        law_bytes_are_read_by_the_weight_of_the_first_four(frame);
        assert(frame.subrange(4, 4 + weight(frame)) =~= body);
        assert(frame.skip(4 + weight(frame)) =~= seq![]);
        law_bytes_are_read_by_the_weight_of_the_first_four(seq![]);
        assert(seq![message] + Seq::<Tree>::empty() =~= seq![message]);
    }
}

/// An error of the frames in words gives the length in decimal, or the reason.
pub proof fn law_a_wire_error_says_what_is_wrong(length: usize, why: String)
    ensures
        WireError::BadLength(length).spec_message() == "frame length "@ + text::digits(
            length as nat,
        ) + " is out of range"@,
        WireError::BadJson(why).spec_message() == "frame is not JSON: "@ + why@,
{
}

/// A request says that it is one, under its own id, for the method's name and
/// version and with its parameters, and names the client if it is registered;
/// it says nothing else.
pub proof fn law_a_request_says_what_is_asked(
    request_id: Seq<char>,
    source: Option<Seq<char>>,
    method: Method,
    params: Tree,
    other: Seq<char>,
)
    ensures
        ({
            let message = wire::request_tree(request_id, source, method, params);
            &&& message.get("type"@) == Some(Tree::Text("request"@))
            &&& message.get("requestId"@) == Some(Tree::Text(request_id))
            &&& message.get("method"@) == Some(Tree::Text(method.spec_name()))
            &&& message.get("version"@) == Some(Tree::Integer(method.spec_version() as int))
            &&& message.get("params"@) == Some(params)
            &&& message.get("sourceClientId"@) == (match source {
                Some(client) => Some(Tree::Text(client)),
                None => None,
            })
            &&& message.get(other) is Some ==> other == "type"@ || other == "requestId"@ || other
                == "method"@ || other == "version"@ || other == "params"@ || other
                == "sourceClientId"@
        }),
{
    lemma_names_differ();
}

/// The versions of the requests: 2 to start a turn, 4 to interrupt one, none
/// to register, and 1 else; and each request has a name of its own.
pub proof fn law_methods_have_their_versions_and_names(method: Method, other: Method)
    ensures
        method.spec_version() == (if method == Method::StartTurn {
            2u64
        } else if method == Method::InterruptTurn {
            4u64
        } else if method == Method::Initialize {
            0u64
        } else {
            1u64
        }),
        method.spec_name() == other.spec_name() ==> method == other,
        Method::Initialize.spec_name() == "initialize"@,
        Method::OwnerDiscovery.spec_name() == "thread-owner-discovery"@,
        Method::LoadHistory.spec_name() == "thread-follower-load-complete-history"@,
        Method::StartTurn.spec_name() == "thread-follower-start-turn"@,
        Method::SteerTurn.spec_name() == "thread-follower-steer-turn"@,
        Method::InterruptTurn.spec_name() == "thread-follower-interrupt-turn"@,
        Method::CommandApproval.spec_name() == "thread-follower-command-approval-decision"@,
        Method::FileApproval.spec_name() == "thread-follower-file-approval-decision"@,
        STREAM_STATE_VERSION == 11,
        STREAM_STATE_CHANGED@ == "thread-stream-state-changed"@,
        CLIENT_STATUS_CHANGED@ == "client-status-changed"@,
{
    reveal_strlit("initialize");
    reveal_strlit("thread-owner-discovery");
    reveal_strlit("thread-follower-load-complete-history");
    reveal_strlit("thread-follower-start-turn");
    reveal_strlit("thread-follower-steer-turn");
    reveal_strlit("thread-follower-interrupt-turn");
    reveal_strlit("thread-follower-command-approval-decision");
    reveal_strlit("thread-follower-file-approval-decision");
    assert("initialize"@.len() == 10 && "thread-owner-discovery"@.len() == 22
        && "thread-follower-load-complete-history"@.len() == 37
        && "thread-follower-start-turn"@.len() == 26 && "thread-follower-steer-turn"@.len() == 26
        && "thread-follower-interrupt-turn"@.len() == 30
        && "thread-follower-command-approval-decision"@.len() == 41
        && "thread-follower-file-approval-decision"@.len() == 38);
    assert("thread-follower-start-turn"@[18] != "thread-follower-steer-turn"@[18]);
}

/// The message that starts a stream and the one that stops it say the same but
/// for `following`: who follows, which conversation, and where.
pub proof fn law_a_following_message_says_who_follows_what(
    client: Seq<char>,
    conversation: Seq<char>,
    following: bool,
    other: Seq<char>,
)
    ensures
        ({
            let message = wire::following_tree(client, conversation, following);
            &&& message.get("type"@) == Some(Tree::Text("broadcast"@))
            &&& message.get("method"@) == Some(Tree::Text("thread-stream-following-changed"@))
            &&& message.get("sourceClientId"@) == Some(Tree::Text(client))
            &&& message.get("version"@) == Some(Tree::Integer(1))
            &&& message.get("params"@) matches Some(params) && {
                &&& params.get("conversationId"@) == Some(Tree::Text(conversation))
                &&& params.get("hostId"@) == Some(Tree::Text("local"@))
                &&& params.get("following"@) == Some(Tree::Bool(following))
                &&& params.get(other) is Some ==> other == "conversationId"@ || other == "hostId"@
                    || other == "following"@
            }
            &&& message.get(other) is Some ==> other == "type"@ || other == "method"@ || other
                == "sourceClientId"@ || other == "version"@ || other == "params"@
        }),
{
    lemma_names_differ();
}

/// A refusal answers the request that it is about, and says that it cannot be
/// handled.
pub proof fn law_a_refusal_says_no_to_its_request(request_id: Seq<char>, other: Seq<char>)
    ensures
        ({
            let message = wire::refusal_tree(request_id);
            &&& message.get("type"@) == Some(Tree::Text("client-discovery-response"@))
            &&& message.get("requestId"@) == Some(Tree::Text(request_id))
            &&& message.get("response"@) matches Some(response) && response.get("canHandle"@)
                == Some(Tree::Bool(false)) && (response.get(other) is Some ==> other
                == "canHandle"@)
            &&& message.get(other) is Some ==> other == "type"@ || other == "requestId"@ || other
                == "response"@
        }),
{
    lemma_names_differ();
}

proof fn lemma_names_differ()
    ensures
        "type"@ != "requestId"@,
        "type"@ != "method"@,
        "type"@ != "version"@,
        "type"@ != "params"@,
        "type"@ != "sourceClientId"@,
        "type"@ != "response"@,
        "requestId"@ != "method"@,
        "requestId"@ != "version"@,
        "requestId"@ != "params"@,
        "requestId"@ != "sourceClientId"@,
        "requestId"@ != "response"@,
        "method"@ != "version"@,
        "method"@ != "params"@,
        "method"@ != "sourceClientId"@,
        "version"@ != "params"@,
        "version"@ != "sourceClientId"@,
        "params"@ != "sourceClientId"@,
        "conversationId"@ != "hostId"@,
        "conversationId"@ != "following"@,
        "hostId"@ != "following"@,
{
    reveal_strlit("type");
    reveal_strlit("requestId");
    reveal_strlit("method");
    reveal_strlit("version");
    reveal_strlit("params");
    reveal_strlit("sourceClientId");
    reveal_strlit("response");
    reveal_strlit("conversationId");
    reveal_strlit("hostId");
    reveal_strlit("following");
    assert("type"@.len() == 4 && "requestId"@.len() == 9 && "method"@.len() == 6 && "version"@.len()
        == 7 && "params"@.len() == 6 && "sourceClientId"@.len() == 14 && "response"@.len() == 8);
    assert("conversationId"@.len() == 14 && "hostId"@.len() == 6 && "following"@.len() == 9);
    assert("method"@[0] != "params"@[0]);
}

/// A message of type `response` with an id is the response to that request:
/// its result, or null, where it says that it succeeded, and else its error,
/// or a stand-in for one; with the client that handled it, if it says which.
pub proof fn law_a_response_is_read_for_its_request(message: Tree, request_id: Seq<char>)
    requires
        message.text_at("type"@) == Some("response"@),
        message.text_at("requestId"@) == Some(request_id),
    ensures
        wire::sorted(message) matches Arrival::Response { request_id: found, handled_by, outcome }
            && {
            &&& found == request_id
            &&& handled_by == message.text_at("handledByClientId"@)
            &&& outcome is Ok <==> message.text_at("resultType"@) == Some("success"@)
            &&& outcome matches Ok(result) ==> result == message.member_or_null("result"@)
            &&& outcome matches Err(error) ==> {
                &&& message.text_at("error"@) is Some ==> message.text_at("error"@) == Some(error)
                &&& message.text_at("error"@) is None ==> error == "unknown error"@
            }
        },
{
}

/// A message of type `broadcast` with a method is that broadcast, with its
/// version, or none, and its parameters, or null.
pub proof fn law_a_broadcast_is_read_for_its_method(message: Tree, method: Seq<char>)
    requires
        message.text_at("type"@) == Some("broadcast"@),
        message.text_at("method"@) == Some(method),
    ensures
        wire::sorted(message) matches Arrival::Broadcast { method: found, version, params } && {
            &&& found == method
            &&& params == message.member_or_null("params"@)
            &&& message.unsigned_at("version"@) is Some ==> message.unsigned_at("version"@)
                == Some(version)
            &&& message.unsigned_at("version"@) is None ==> version == 0
        },
{
    lemma_types_differ();
}

/// A message of type `client-discovery-request` with an id is a discovery
/// request under that id.
pub proof fn law_a_discovery_request_is_read_for_its_id(message: Tree, request_id: Seq<char>)
    requires
        message.text_at("type"@) == Some("client-discovery-request"@),
        message.text_at("requestId"@) == Some(request_id),
    ensures
        wire::sorted(message) == (Arrival::DiscoveryRequest { request_id }),
{
    lemma_types_differ();
}

/// A message is a response, a broadcast or a discovery request only by its
/// type and by the member that the type calls for.
pub proof fn law_any_other_message_is_other(message: Tree)
    ensures
        wire::sorted(message) is Response ==> message.text_at("type"@) == Some("response"@)
            && message.text_at("requestId"@) is Some,
        wire::sorted(message) is Broadcast ==> message.text_at("type"@) == Some("broadcast"@)
            && message.text_at("method"@) is Some,
        wire::sorted(message) is DiscoveryRequest ==> message.text_at("type"@) == Some(
            "client-discovery-request"@,
        ) && message.text_at("requestId"@) is Some,
{
}

proof fn lemma_types_differ()
    ensures
        "response"@ != "broadcast"@,
        "response"@ != "client-discovery-request"@,
        "broadcast"@ != "client-discovery-request"@,
{
    reveal_strlit("response");
    reveal_strlit("broadcast");
    reveal_strlit("client-discovery-request");
    assert("response"@.len() == 8 && "broadcast"@.len() == 9 && "client-discovery-request"@.len()
        == 24);
}

}
