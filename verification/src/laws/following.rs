//! The client on the desktop app's bus: its requests, what it follows, and what
//! it does with what comes.

use vstd::prelude::*;

use crate::bus::{
    self, Action, BusError, Desk, Effect, Happening, Next, Read, Request, Said, Trouble,
};
use crate::json::{Json, Tree};
use crate::text;
use crate::wire::{self, Arrival, Method};

verus! {

/// The desktop app listens under its own home where that is given, whatever the
/// user's is, and else under the directory `.codex` of the user's home; without
/// either it listens nowhere.
pub proof fn law_the_apps_own_home_goes_first(
    own: Seq<Seq<u8>>,
    home: Option<Seq<Seq<u8>>>,
    user: Seq<Seq<u8>>,
)
    ensures
        bus::listening(Some(own), home) == Some(
            own.push(vstd::utf8::encode_utf8("ipc"@)).push(vstd::utf8::encode_utf8("ipc.sock"@)),
        ),
        bus::listening(None, Some(user)) == bus::listening(
            Some(user.push(vstd::utf8::encode_utf8(".codex"@))),
            None,
        ),
        bus::listening(None, None) is None,
{
    let ipc = vstd::utf8::encode_utf8("ipc"@);
    let sock = vstd::utf8::encode_utf8("ipc.sock"@);
    let dot = vstd::utf8::encode_utf8(".codex"@);
    assert(own + seq![ipc, sock] =~= own.push(ipc).push(sock));
    assert(user.push(dot) + seq![ipc, sock] =~= user + seq![dot, ipc, sock]);
}

/// Each trouble has its own words, and a refusal gives the router's reason.
pub proof fn law_a_trouble_has_its_words(why: Seq<char>)
    ensures
        Trouble::NotRunning.message() == "The Codex desktop app is not running."@,
        Trouble::NoOwner.message() == "The Codex desktop app does not have this thread open."@,
        Trouble::Incompatible.message()
            == "This version of the Codex desktop app is not supported yet."@,
        Trouble::Refused(why).message() == "Codex refused the request: "@ + why,
        Trouble::TimedOut.message() == "Codex did not answer in time."@,
        Trouble::Closed.message() == "The Codex desktop app closed the connection."@,
{
}

/// An error of the router that begins with its word for a missing client is a
/// missing owner; any other that holds its word for a version is an
/// incompatibility; and every other is a refusal for that very reason.
pub proof fn law_a_router_error_goes_by_its_words(
    before: Seq<char>,
    after: Seq<char>,
    error: Seq<char>,
)
    ensures
        bus::refusal("no-client-found"@ + after) == Trouble::NoOwner,
        ({
            let mismatch = before + "request-version-mismatch"@ + after;
            !"no-client-found"@.is_prefix_of(mismatch) ==> bus::refusal(mismatch)
                == Trouble::Incompatible
        }),
        !"no-client-found"@.is_prefix_of(error) && !text::holds(
            error,
            "request-version-mismatch"@,
        ) ==> bus::refusal(error) == Trouble::Refused(error),
{
    let start = "no-client-found"@;
    assert((start + after).subrange(0, start.len() as int) =~= start);
    crate::laws::values::law_a_text_holds_what_it_is_made_of(
        before,
        "request-version-mismatch"@,
        after,
        error,
    );
}

/// What comes of a request is its result and who handled it, or the router's
/// error; no answer in time, and none at all, are told apart.
pub proof fn law_a_request_comes_to_what_was_answered(
    handled_by: Option<Seq<char>>,
    value: Tree,
    error: Seq<char>,
)
    ensures
        bus::settled(Said::Replied { handled_by, outcome: Ok(value) }) == Ok::<
            (Option<Seq<char>>, Tree),
            Trouble,
        >((handled_by, value)),
        bus::settled(Said::Replied { handled_by, outcome: Err(error) }) == Err::<
            (Option<Seq<char>>, Tree),
            Trouble,
        >(bus::refusal(error)),
        bus::settled(Said::TimedOut) == Err::<(Option<Seq<char>>, Tree), Trouble>(
            Trouble::TimedOut,
        ),
        bus::settled(Said::Unwritten) == Err::<(Option<Seq<char>>, Tree), Trouble>(Trouble::Closed),
        bus::settled(Said::Disconnected) == Err::<(Option<Seq<char>>, Tree), Trouble>(
            Trouble::Closed,
        ),
{
}

/// A bus begins alive, unregistered, and with nobody waiting, nothing followed
/// and nothing owned.
pub proof fn law_a_bus_begins_with_nothing<W, S>(name: Seq<char>)
    ensures
        Desk::<W, S>::fresh().alive,
        Desk::<W, S>::fresh().client_id is None,
        !Desk::<W, S>::fresh().pending.contains_key(name),
        !Desk::<W, S>::fresh().streams.contains_key(name),
        !Desk::<W, S>::fresh().owners.contains_key(name),
{
}

/// A request of a bus that is alive says what is asked, under its id and from
/// the client that the bus is registered as, and whoever made it waits for its
/// answer; a bus that is gone asks nothing, and nobody waits. Whoever waits for
/// another request goes on waiting, and nothing else changes.
pub proof fn law_a_request_is_waited_for_while_the_bus_is_alive<W, S>(
    desk: Desk<W, S>,
    id: Seq<char>,
    method: Method,
    params: Tree,
    waiter: W,
    other: Seq<char>,
)
    ensures
        ({
            let after = desk.having_asked(id, waiter);
            &&& desk.alive ==> {
                &&& desk.asking(id, method, params) matches Some(message) && {
                    &&& message.get("type"@) == Some(Tree::Text("request"@))
                    &&& message.get("requestId"@) == Some(Tree::Text(id))
                    &&& message.get("method"@) == Some(Tree::Text(method.spec_name()))
                    &&& message.get("params"@) == Some(params)
                    &&& message.get("sourceClientId"@) == (match desk.client_id {
                        Some(client) => Some(Tree::Text(client)),
                        None => None,
                    })
                }
                &&& after.pending.contains_key(id) && after.pending[id] == waiter
            }
            &&& !desk.alive ==> desk.asking(id, method, params) is None
                && !after.pending.contains_key(id)
            &&& other != id ==> after.pending.contains_key(other) == desk.pending.contains_key(
                other,
            ) && (desk.pending.contains_key(other) ==> after.pending[other]
                == desk.pending[other])
            &&& (Desk { pending: desk.pending, ..after }) == desk
        }),
{
    lemma_request(id, desk.client_id, method, params);
}

proof fn lemma_request(
    id: Seq<char>,
    source: Option<Seq<char>>,
    method: Method,
    params: Tree,
)
    ensures
        ({
            let message = wire::request_tree(id, source, method, params);
            &&& message.get("type"@) == Some(Tree::Text("request"@))
            &&& message.get("requestId"@) == Some(Tree::Text(id))
            &&& message.get("method"@) == Some(Tree::Text(method.spec_name()))
            &&& message.get("params"@) == Some(params)
            &&& message.get("sourceClientId"@) == (match source {
                Some(client) => Some(Tree::Text(client)),
                None => None,
            })
        }),
{
    crate::laws::frames::law_a_request_says_what_is_asked(id, source, method, params, "type"@);
}

/// A request that a bus makes of its own has a random id, and is the one that
/// is waited for; one that it cannot make fails because the bus is gone.
pub proof fn law_a_request_is_the_one_that_is_waited_for<W, S>(
    before: Desk<W, S>,
    after: Desk<W, S>,
    request: Result<Request, BusError>,
    method: Method,
    params: Tree,
    waiter: W,
)
    requires
        bus::asks(before, after, request, method, params, waiter),
    ensures
        request is Ok <==> before.alive,
        request matches Ok(request) ==> {
            &&& bus::is_random_uuid(request.id@)
            &&& request.message@.get("requestId"@) == Some(Tree::Text(request.id@))
            &&& request.message@.get("method"@) == Some(Tree::Text(method.spec_name()))
            &&& request.message@.get("params"@) == Some(params)
            &&& after.pending.contains_key(request.id@) && after.pending[request.id@] == waiter
            &&& (Desk { pending: before.pending, ..after }) == before
        },
        request matches Err(error) ==> error@ == Trouble::Closed && (Desk {
            pending: before.pending,
            ..after
        }) == before,
{
    if let Ok(request) = request {
        lemma_request(request.id@, before.client_id, method, params);
    }
}

/// A request that could not be written, or was not answered in time, is no
/// longer waited for; whoever waits for another goes on waiting, and an answer
/// changes nothing.
pub proof fn law_a_request_that_is_given_up_is_not_waited_for<W, S>(
    desk: Desk<W, S>,
    id: Seq<char>,
    answer: Said,
    other: Seq<char>,
)
    ensures
        ({
            let after = desk.finished(id, answer);
            &&& answer is TimedOut || answer is Unwritten ==> !after.pending.contains_key(id)
            &&& answer is Replied || answer is Disconnected ==> after == desk
            &&& other != id ==> after.pending.contains_key(other) == desk.pending.contains_key(
                other,
            ) && (desk.pending.contains_key(other) ==> after.pending[other]
                == desk.pending[other])
            &&& (Desk { pending: desk.pending, ..after }) == desk
        }),
{
}

/// A registration that gives an id makes it the bus's, if it has none yet; one
/// that gives none is refused, and one that failed fails for its own reason.
/// Nothing else changes.
pub proof fn law_the_first_id_that_is_assigned_stays<W, S>(
    desk: Desk<W, S>,
    handled_by: Option<Seq<char>>,
    value: Tree,
    client: Seq<char>,
    error: Trouble,
)
    ensures
        value.get("clientId"@) == Some(Tree::Text(client)) ==> {
            let (after, outcome) = desk.joined(Ok((handled_by, value)));
            &&& outcome is Ok
            &&& desk.client_id is None ==> after.client_id == Some(client)
            &&& desk.client_id is Some ==> after.client_id == desk.client_id
            &&& (Desk { client_id: desk.client_id, ..after }) == desk
        },
        value.text_at("clientId"@) is None ==> desk.joined(Ok((handled_by, value))) == (
            desk,
            Err::<(), Trouble>(Trouble::Refused("registration gave no client id"@)),
        ),
        desk.joined(Err(error)) == (desk, Err::<(), Trouble>(error)),
{
}

/// A client registers as of its own type, and asks for the history of the
/// conversation that it follows; neither says anything else.
pub proof fn law_parameters_say_what_they_are_for(conversation: Seq<char>, other: Seq<char>)
    ensures
        bus::registration_params().get("clientType"@) == Some(Tree::Text("overterm"@)),
        bus::registration_params().get(other) is Some ==> other == "clientType"@,
        bus::conversation_params(conversation).get("conversationId"@) == Some(
            Tree::Text(conversation),
        ),
        bus::conversation_params(conversation).get(other) is Some ==> other == "conversationId"@,
{
}

/// The message that starts following a conversation and the one that stops it
/// come from the bus's own client and name that conversation, and are the same
/// but for `following`; a client that is not registered sends neither.
pub proof fn law_unfollowing_takes_back_what_following_said<W, S>(
    desk: Desk<W, S>,
    conversation: Seq<char>,
    member: Seq<char>,
)
    ensures
        desk.client_id is None ==> desk.greeting(conversation) is None && desk.farewell(
            conversation,
        ) is None,
        desk.client_id matches Some(client) ==> {
            &&& desk.greeting(conversation) matches Some(start) && desk.farewell(
                conversation,
            ) matches Some(stop) && {
                &&& start.get("type"@) == Some(Tree::Text("broadcast"@))
                &&& start.get("method"@) == Some(Tree::Text("thread-stream-following-changed"@))
                &&& start.get("sourceClientId"@) == Some(Tree::Text(client))
                &&& member != "params"@ ==> stop.get(member) == start.get(member)
                &&& start.get("params"@) matches Some(starting) && stop.get(
                    "params"@,
                ) matches Some(stopping) && {
                    &&& starting.get("conversationId"@) == Some(Tree::Text(conversation))
                    &&& starting.get("hostId"@) == Some(Tree::Text("local"@))
                    &&& starting.get("following"@) == Some(Tree::Bool(true))
                    &&& stopping.get("following"@) == Some(Tree::Bool(false))
                    &&& member != "following"@ ==> stopping.get(member) == starting.get(member)
                }
            }
        },
{
    if let Some(client) = desk.client_id {
        crate::laws::frames::law_a_following_message_says_who_follows_what(
            client,
            conversation,
            true,
            member,
        );
    }
}

/// A conversation that is followed has the sink that it was given, and no other
/// conversation, owner or waiter is touched; without a registration nothing is
/// followed.
pub proof fn law_a_followed_conversation_has_its_sink<W, S>(
    desk: Desk<W, S>,
    conversation: Seq<char>,
    sink: S,
    other: Seq<char>,
)
    ensures
        ({
            let after = desk.following(conversation, sink);
            &&& desk.client_id is None ==> after == desk
            &&& desk.client_id is Some ==> after.streams.contains_key(conversation)
                && after.streams[conversation] == sink
            &&& other != conversation ==> after.streams.contains_key(other)
                == desk.streams.contains_key(other) && (desk.streams.contains_key(other)
                ==> after.streams[other] == desk.streams[other])
            &&& (Desk { streams: desk.streams, ..after }) == desk
        }),
{
}

/// A conversation that is unfollowed has neither sink nor owner any more; every
/// other one keeps what it has, and nothing else changes.
pub proof fn law_unfollowing_touches_one_conversation<W, S>(
    desk: Desk<W, S>,
    conversation: Seq<char>,
    other: Seq<char>,
)
    requires
        other != conversation,
    ensures
        ({
            let after = desk.unfollowed(conversation);
            &&& !after.streams.contains_key(conversation)
            &&& !after.owners.contains_key(conversation)
            &&& after.streams.contains_key(other) == desk.streams.contains_key(other)
            &&& desk.streams.contains_key(other) ==> after.streams[other] == desk.streams[other]
            &&& after.owners.contains_key(other) == desk.owners.contains_key(other)
            &&& desk.owners.contains_key(other) ==> after.owners[other] == desk.owners[other]
            &&& (Desk { streams: desk.streams, owners: desk.owners, ..after }) == desk
        }),
{
}

/// After its history came, a conversation belongs to the client that answered,
/// if one is named, and nothing is left to write; after it was refused, the
/// conversation is unfollowed, and that is what is left to write.
pub proof fn law_a_history_request_settles_the_owner<W, S>(
    desk: Desk<W, S>,
    conversation: Seq<char>,
    owner: Seq<char>,
    answer: Tree,
    error: Trouble,
    other: Seq<char>,
)
    requires
        other != conversation,
    ensures
        ({
            let after = desk.followed(conversation, Ok((Some(owner), answer)));
            &&& after.owners.contains_key(conversation) && after.owners[conversation] == owner
            &&& after.owners.contains_key(other) == desk.owners.contains_key(other)
            &&& desk.owners.contains_key(other) ==> after.owners[other] == desk.owners[other]
            &&& (Desk { owners: desk.owners, ..after }) == desk
        }),
        desk.followed(conversation, Ok((None, answer))) == desk,
        desk.reaction(conversation, Ok((Some(owner), answer))) is None,
        desk.reaction(conversation, Ok((None, answer))) is None,
        desk.followed(conversation, Err(error)) == desk.unfollowed(conversation),
        desk.reaction(conversation, Err(error)) == desk.farewell(conversation),
{
}

/// A conversation is followed again by the message that starts following it,
/// exactly if it has a sink and the client is registered.
pub proof fn law_following_again_says_what_following_said<W, S>(
    desk: Desk<W, S>,
    conversation: Seq<char>,
)
    ensures
        desk.streams.contains_key(conversation) ==> desk.greeting_again(conversation)
            == desk.greeting(conversation),
        !desk.streams.contains_key(conversation) ==> desk.greeting_again(conversation) is None,
{
}

/// A response is handed to whoever waits for its request, as it came, and that
/// one waits no longer; a response that nobody waits for does nothing.
pub proof fn law_a_response_goes_to_who_waits_for_it<W, S>(
    desk: Desk<W, S>,
    request_id: Seq<char>,
    handled_by: Option<Seq<char>>,
    outcome: Result<Tree, Seq<char>>,
    other: Seq<char>,
)
    ensures
        ({
            let (after, effect) = desk.dispatched(
                Arrival::Response { request_id, handled_by, outcome },
            );
            &&& !desk.pending.contains_key(request_id) ==> after == desk && effect == Effect::<
                W,
            >::Nothing
            &&& desk.pending.contains_key(request_id) ==> {
                &&& effect == (Effect::Deliver {
                    waiter: desk.pending[request_id],
                    handled_by,
                    outcome,
                })
                &&& !after.pending.contains_key(request_id)
            }
            &&& other != request_id ==> after.pending.contains_key(other)
                == desk.pending.contains_key(other) && (desk.pending.contains_key(other)
                ==> after.pending[other] == desk.pending[other])
            &&& (Desk { pending: desk.pending, ..after }) == desk
        }),
{
}

/// A discovery request is answered with a refusal of that very request, and
/// anything that is not understood does nothing.
pub proof fn law_what_is_offered_is_refused_and_the_rest_ignored<W, S>(
    desk: Desk<W, S>,
    request_id: Seq<char>,
    method: Seq<char>,
    version: u64,
    params: Tree,
)
    ensures
        ({
            let (after, effect) = desk.dispatched(Arrival::DiscoveryRequest { request_id });
            &&& after == desk
            &&& effect matches Effect::Send(message) && {
                &&& message.get("requestId"@) == Some(Tree::Text(request_id))
                &&& message.get("response"@) matches Some(response) && response.get("canHandle"@)
                    == Some(Tree::Bool(false))
            }
        }),
        desk.dispatched(Arrival::Other) == (desk, Effect::<W>::Nothing),
        method != "thread-stream-state-changed"@ && method != "client-status-changed"@
            ==> desk.dispatched(Arrival::Broadcast { method, version, params }) == (
            desk,
            Effect::<W>::Nothing,
        ),
{
    crate::laws::frames::law_a_refusal_says_no_to_its_request(request_id, "type"@);
}

/// A stream broadcast is told to the sink of the conversation that it names, if
/// that is followed: its change, or null, where its version is 11, and as
/// incompatible where it is any other. It changes nothing.
pub proof fn law_a_stream_broadcast_is_told_to_the_sink_it_names<W, S>(
    desk: Desk<W, S>,
    version: u64,
    params: Tree,
    conversation: Seq<char>,
)
    ensures
        ({
            let (after, effect) = desk.dispatched(
                Arrival::Broadcast { method: "thread-stream-state-changed"@, version, params },
            );
            let named = params.get("conversationId"@) == Some(Tree::Text(conversation));
            &&& after == desk
            &&& !(params.get("conversationId"@) matches Some(Tree::Text(_))) ==> effect == Effect::<
                W,
            >::Nothing
            &&& named && !desk.streams.contains_key(conversation) ==> effect == Effect::<W>::Nothing
            &&& named && desk.streams.contains_key(conversation) && version == 11 ==> effect
                == Effect::<W>::Tell {
                conversation,
                event: Happening::Change(params.member_or_null("change"@)),
            }
            &&& named && desk.streams.contains_key(conversation) && version != 11 ==> effect
                == Effect::<W>::Tell { conversation, event: Happening::Incompatible }
        }),
{
}

/// The news that a client has disconnected is for the conversations that it
/// owns, all of them and no others, and these have no owner from then on; any
/// other status, and news of nobody, does nothing.
pub proof fn law_a_departure_is_for_the_conversations_of_that_client<W, S>(
    desk: Desk<W, S>,
    version: u64,
    params: Tree,
    client: Seq<char>,
    conversation: Seq<char>,
)
    ensures
        ({
            let (after, effect) = desk.dispatched(
                Arrival::Broadcast { method: "client-status-changed"@, version, params },
            );
            let gone = params.get("status"@) == Some(Tree::Text("disconnected"@));
            let owned = desk.owners.contains_key(conversation) && desk.owners[conversation]
                == client;
            &&& !gone ==> after == desk && effect == Effect::<W>::Nothing
            &&& !(params.get("clientId"@) matches Some(Tree::Text(_))) ==> after == desk && effect
                == Effect::<W>::Nothing
            &&& gone && params.get("clientId"@) == Some(Tree::Text(client)) ==> {
                &&& effect matches Effect::TellEach { conversations, event } && event
                    == Happening::OwnerGone && conversations.contains(conversation) == owned
                &&& owned ==> !after.owners.contains_key(conversation)
                &&& !owned ==> after.owners.contains_key(conversation)
                    == desk.owners.contains_key(conversation) && (desk.owners.contains_key(
                    conversation,
                ) ==> after.owners[conversation] == desk.owners[conversation])
                &&& (Desk { owners: desk.owners, ..after }) == desk
            }
        }),
{
    reveal_strlit("thread-stream-state-changed");
    reveal_strlit("client-status-changed");
    assert("thread-stream-state-changed"@.len() == 27 && "client-status-changed"@.len() == 21);
}

/// A bus whose connection is gone is not alive, and has neither waiters nor
/// sinks; what it is registered as and who owned what stays.
pub proof fn law_a_gone_bus_has_nobody_left<W, S>(desk: Desk<W, S>, name: Seq<char>)
    ensures
        !desk.disconnected().alive,
        !desk.disconnected().pending.contains_key(name),
        !desk.disconnected().streams.contains_key(name),
        desk.disconnected().client_id == desk.client_id,
        desk.disconnected().owners == desk.owners,
{
}

/// An action that amounts to an effect hands on what the effect says: the very
/// waiter, message, event and conversations, with the sink that the streams
/// have for the conversation.
pub proof fn law_an_action_hands_on_what_its_effect_says<W, S: Clone>(
    action: Action<W, S>,
    effect: Effect<W>,
    streams: Map<Seq<char>, S>,
    name: Seq<char>,
)
    requires
        bus::amounts_to(action, effect, streams),
    ensures
        action is Nothing <==> effect is Nothing,
        action is Deliver <==> effect is Deliver,
        action is Send <==> effect is Send,
        action is Tell <==> effect is Tell,
        action is TellEach <==> effect is TellEach,
        action matches Action::Deliver { waiter, handled_by, outcome } ==> effect
            == (Effect::Deliver {
            waiter,
            handled_by: match handled_by {
                Some(client) => Some(client@),
                None => None,
            },
            outcome: match outcome {
                Ok(value) => Ok(value@),
                Err(error) => Err(error@),
            },
        }),
        action matches Action::Send(message) ==> effect == Effect::<W>::Send(message@),
        action matches Action::Tell { conversation, sink, event } ==> effect == (Effect::<
            W,
        >::Tell { conversation: conversation@, event: event@ }) && cloned(
            streams[conversation@],
            sink,
        ),
        action matches Action::TellEach { conversations, event } ==> (effect
            matches Effect::TellEach { conversations: names, event: happening } && event@
            == happening && (names.contains(name) <==> exists|i: int|
            0 <= i < conversations@.len() && (#[trigger] conversations@[i])@ == name)),
{
    if let Action::TellEach { conversations, event } = action {
        let names = text::entries(conversations@);
        if names.contains(name) {
            let i = names.index_of(name);
            assert(conversations@[i]@ == name);
        }
        if exists|i: int| 0 <= i < conversations@.len() && (#[trigger] conversations@[i])@ == name {
            let i = choose|i: int|
                0 <= i < conversations@.len() && (#[trigger] conversations@[i])@ == name;
            assert(names[i] == name);
        }
    }
}

/// What came of a request, and who handled it, is said as it came.
pub proof fn law_what_is_handled_is_said_as_it_came(
    client: Option<String>,
    value: Json,
    error: BusError,
)
    ensures
        bus::handled_view(Ok((client, value))) == Ok::<(Option<Seq<char>>, Tree), Trouble>(
            (
                match client {
                    Some(client) => Some(client@),
                    None => None,
                },
                value@,
            ),
        ),
        bus::handled_view(Err(error)) == Err::<(Option<Seq<char>>, Tree), Trouble>(error@),
{
}

/// A read that gave bytes has these many decoded, one that gave none is the
/// last, and only an interrupted one is tried again.
pub proof fn law_only_an_interrupted_read_is_tried_again(count: usize, read: Read)
    ensures
        count > 0 ==> bus::next_after(Read::Bytes(count)) == Next::Decode(count),
        bus::next_after(Read::Bytes(0)) == Next::Stop,
        bus::next_after(Read::Failed) == Next::Stop,
        bus::next_after(read) == Next::ReadAgain <==> read == Read::Interrupted,
{
}

}
