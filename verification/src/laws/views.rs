//! What the values that go in and come out say.

use vstd::prelude::*;

use crate::bus::{Answer, BusError, Happening, Said, StreamEvent, Trouble};
use crate::client::{
    self, CodexStatus, Event, Failure, Occurrence, Outgoing, Plan, Progress, RequestFailure,
};
use crate::json::{Json, Tree};
use crate::mirror::{Fault, MirrorError};
use crate::rpc::{self, Heard};
use crate::threads::ThreadSummary;
use crate::wire::{self, Arrival};

verus! {

/// A status says what its fields hold, each for itself.
pub proof fn law_a_status_says_what_its_fields_hold(status: CodexStatus, place: int)
    ensures
        status@.available == status.available,
        status@.connected == status.connected,
        status.subscribed_thread_id matches Some(thread) ==> status@.subscribed == Some(thread@),
        status.subscribed_thread_id is None ==> status@.subscribed is None,
        status@.status == status.thread_status@,
        status@.detail == status.detail@,
        status@.notices.len() == status.notifications@.len(),
        0 <= place < status.notifications@.len() ==> status@.notices[place]
            == status.notifications@[place]@,
{
}

/// A summary says what its fields hold, each for itself.
pub proof fn law_a_summary_says_what_its_fields_hold(summary: ThreadSummary)
    ensures
        summary@.id == summary.id@,
        summary@.title == summary.title@,
        summary.workspace matches Some(workspace) ==> summary@.workspace == Some(workspace@),
        summary.workspace is None ==> summary@.workspace is None,
        summary@.updated_at == summary.updated_at,
        summary@.status == summary.status@,
{
}

/// A request says its id and its message, and a step of an attachment its stage
/// and its request.
pub proof fn law_a_request_says_its_id_and_message(request: Outgoing, progress: Progress)
    ensures
        request@.id == request.id,
        request@.message == request.message@,
        progress is Done <==> progress@ == Plan::Done,
        progress matches Progress::Ask { stage, request } ==> progress@ == (Plan::Ask {
            stage,
            request: request@,
        }),
{
}

/// A failure says its kind and its words, and a reply its value or its failure.
pub proof fn law_a_failure_says_its_kind_and_words(
    words: String,
    value: Json,
    failure: RequestFailure,
)
    ensures
        RequestFailure::Rejected(words)@ == Failure::Rejected(words@),
        RequestFailure::Ambiguous(words)@ == Failure::Ambiguous(words@),
        client::reply_view(Ok(value)) == Ok::<Tree, Failure>(value@),
        client::reply_view(Err(failure)) == Err::<Tree, Failure>(failure@),
{
}

/// An event says what came, and a message of the child its own parts.
pub proof fn law_an_event_says_what_came(
    message: rpc::Incoming,
    id: u64,
    result: Json,
    error: Json,
    method: String,
    params: Json,
)
    ensures
        Event::Message(message)@ == Occurrence::Message(message@),
        Event::TimedOut@ == Occurrence::TimedOut,
        Event::Disconnected@ == Occurrence::Disconnected,
        (rpc::Incoming::Response { id, result: Some(result), error: None })@ == (Heard::Response {
            id,
            result: Some(result@),
            error: None,
        }),
        (rpc::Incoming::Response { id, result: None, error: Some(error) })@ == (Heard::Response {
            id,
            result: None,
            error: Some(error@),
        }),
        (rpc::Incoming::Response { id, result: Some(result), error: Some(error) })@ == (
        Heard::Response { id, result: Some(result@), error: Some(error@) }),
        (rpc::Incoming::Response { id, result: None, error: None })@ == (Heard::Response {
            id,
            result: None,
            error: None,
        }),
        (rpc::Incoming::Notification { method, params })@ == (Heard::Notification {
            method: method@,
            params: params@,
        }),
        (rpc::Incoming::ServerRequest { method })@ == (Heard::ServerRequest { method: method@ }),
        rpc::Incoming::Malformed@ == Heard::Malformed,
        rpc::Incoming::Eof@ == Heard::Eof,
{
}

/// A message of the bus says its own parts.
pub proof fn law_a_bus_message_says_its_parts(
    id: String,
    client: String,
    value: Json,
    error: String,
    version: u64,
)
    ensures
        (wire::Incoming::Response {
            request_id: id,
            handled_by: Some(client),
            outcome: Ok(value),
        })@ == (Arrival::Response {
            request_id: id@,
            handled_by: Some(client@),
            outcome: Ok(value@),
        }),
        (wire::Incoming::Response { request_id: id, handled_by: None, outcome: Err(error) })@ == (
        Arrival::Response { request_id: id@, handled_by: None, outcome: Err(error@) }),
        (wire::Incoming::Broadcast { method: id, version, params: value })@ == (Arrival::Broadcast {
            method: id@,
            version,
            params: value@,
        }),
        (wire::Incoming::DiscoveryRequest { request_id: id })@ == (Arrival::DiscoveryRequest {
            request_id: id@,
        }),
        wire::Incoming::Other@ == Arrival::Other,
{
}

/// The errors of the bus and of the mirror, the events of a stream and the
/// answers to a request say their own kinds and parts.
pub proof fn law_kinds_are_kept_apart(
    why: String,
    value: Json,
    client: String,
    expected: u64,
    got: u64,
)
    ensures
        BusError::NotRunning@ == Trouble::NotRunning,
        BusError::NoOwner@ == Trouble::NoOwner,
        BusError::Incompatible@ == Trouble::Incompatible,
        BusError::Refused(why)@ == Trouble::Refused(why@),
        BusError::TimedOut@ == Trouble::TimedOut,
        BusError::Closed@ == Trouble::Closed,
        MirrorError::NoSnapshot@ == Fault::NoSnapshot,
        (MirrorError::RevisionGap { expected, got })@ == (Fault::RevisionGap { expected, got }),
        MirrorError::BadPatch(why)@ == Fault::BadPatch(why@),
        MirrorError::Malformed(why)@ == Fault::Malformed(why@),
        StreamEvent::Change(value)@ == Happening::Change(value@),
        StreamEvent::Incompatible@ == Happening::Incompatible,
        StreamEvent::OwnerGone@ == Happening::OwnerGone,
        StreamEvent::Disconnected@ == Happening::Disconnected,
        (Answer::Replied { handled_by: Some(client), outcome: Ok(value) })@ == (Said::Replied {
            handled_by: Some(client@),
            outcome: Ok(value@),
        }),
        (Answer::Replied { handled_by: None, outcome: Err(why) })@ == (Said::Replied {
            handled_by: None,
            outcome: Err(why@),
        }),
        Answer::Unwritten@ == Said::Unwritten,
        Answer::TimedOut@ == Said::TimedOut,
        Answer::Disconnected@ == Said::Disconnected,
{
}

}
