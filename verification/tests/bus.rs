//! The client on the desktop app's bus, driven by what the router sends.

use std::path::PathBuf;

use overterm_codex::bus::{
    after_read, socket_path, Action, Answer, Bus, BusError, Handled, Next, Read, Request,
    StreamEvent,
};
use overterm_codex::json::Json;
use overterm_codex::wire::{
    Method, CLIENT_STATUS_CHANGED, STREAM_STATE_CHANGED, STREAM_STATE_VERSION,
};

type TestBus = Bus<u64, &'static str>;

fn json(text: &str) -> Json {
    Json::from_text(text).expect("JSON")
}

fn response(request: &Request, handled_by: &str, result: Result<&str, &str>) -> Json {
    let id = &request.id;
    match result {
        Ok(value) => json(&format!(
            r#"{{"type": "response", "requestId": "{id}", "handledByClientId": "{handled_by}", "resultType": "success", "result": {value}}}"#
        )),
        Err(error) => json(&format!(
            r#"{{"type": "response", "requestId": "{id}", "handledByClientId": "{handled_by}", "resultType": "error", "error": "{error}"}}"#
        )),
    }
}

/// The router answers a request, and the waiting call goes on.
fn answered(
    bus: &mut TestBus,
    request: &Request,
    waiter: u64,
    handled_by: &str,
    result: Result<&str, &str>,
) -> Handled {
    match bus.dispatch(response(request, handled_by, result)) {
        Action::Deliver {
            waiter: found,
            handled_by,
            outcome,
        } => {
            assert_eq!(found, waiter);
            bus.finish(&request.id, Answer::Replied { handled_by, outcome })
        }
        _ => panic!("nobody was handed the response"),
    }
}

fn connected() -> TestBus {
    let mut bus = TestBus::new();
    let request = bus.initialize(0).unwrap();
    assert_eq!(request.message.text_at("method"), Some("initialize"));
    assert_eq!(
        request.message.get("params"),
        Some(&json(r#"{"clientType": "overterm"}"#))
    );
    assert!(request.message.get("sourceClientId").is_none());
    let handled = answered(
        &mut bus,
        &request,
        0,
        "overterm-client",
        Ok(r#"{"clientId": "overterm-client"}"#),
    );
    bus.register(handled).expect("handshake");
    bus
}

fn stream_change(conversation: &str, version: u64, change: &str) -> Json {
    json(&format!(
        r#"{{
            "type": "broadcast", "method": "{STREAM_STATE_CHANGED}", "version": {version},
            "sourceClientId": "owner",
            "params": {{"conversationId": "{conversation}", "hostId": "local", "change": {change}}}
        }}"#
    ))
}

fn departure(client: &str) -> Json {
    json(&format!(
        r#"{{
            "type": "broadcast", "method": "{CLIENT_STATUS_CHANGED}", "version": 0,
            "params": {{"clientId": "{client}", "clientType": "electron", "status": "disconnected"}}
        }}"#
    ))
}

fn label(event: &StreamEvent) -> String {
    match event {
        StreamEvent::Change(change) => {
            format!("change r{}", change.unsigned_at("revision").unwrap())
        }
        StreamEvent::Incompatible => "incompatible".to_owned(),
        StreamEvent::OwnerGone => "owner gone".to_owned(),
        StreamEvent::Disconnected => "disconnected".to_owned(),
    }
}

/// What the sinks are told of a message, in words.
fn told(bus: &mut TestBus, message: Json) -> Vec<(String, &'static str, String)> {
    match bus.dispatch(message) {
        Action::Tell {
            conversation,
            sink,
            event,
        } => vec![(conversation, sink, label(&event))],
        Action::TellEach {
            conversations,
            event,
        } => {
            let mut heard = Vec::new();
            for conversation in conversations {
                if let Some(sink) = bus.sink(&conversation) {
                    heard.push((conversation, sink, label(&event)));
                }
            }
            heard
        }
        Action::Nothing => Vec::new(),
        _ => panic!("not for a sink"),
    }
}

fn one(conversation: &str, sink: &'static str, label: &str) -> Vec<(String, &'static str, String)> {
    vec![(conversation.to_owned(), sink, label.to_owned())]
}

fn follow(bus: &mut TestBus, conversation: &str, sink: &'static str, owner: &str) {
    bus.follow(conversation, sink).unwrap();
    let history = bus.load_history(conversation, 7).unwrap();
    let handled = answered(bus, &history, 7, owner, Ok("{}"));
    let followed = bus.followed(conversation, handled);
    assert_eq!(followed.outcome, Ok(()));
    assert_eq!(followed.message, None);
}

#[test]
fn socket_path_prefers_codex_home() {
    assert_eq!(
        socket_path(Some("/custom".into()), Some("/Users/someone".into())),
        Some(PathBuf::from("/custom/ipc/ipc.sock"))
    );
    assert_eq!(
        socket_path(None, Some("/Users/someone".into())),
        Some(PathBuf::from("/Users/someone/.codex/ipc/ipc.sock"))
    );
    assert_eq!(socket_path(None, None), None);
}

#[test]
fn requests_carry_the_assigned_client_id_and_get_their_answer() {
    let mut bus = connected();
    let request = bus
        .request(
            Method::OwnerDiscovery,
            json(r#"{"conversationId": "t1", "hostId": "local"}"#),
            1,
        )
        .unwrap();
    assert_eq!(
        request.message.text_at("sourceClientId"),
        Some("overterm-client")
    );
    assert_eq!(
        request.message.text_at("method"),
        Some("thread-owner-discovery")
    );
    assert_eq!(request.message.unsigned_at("version"), Some(1));
    let handled = answered(
        &mut bus,
        &request,
        1,
        "owner",
        Ok(r#"{"supportsUntrustedAppInput": true}"#),
    );
    assert_eq!(
        handled,
        Ok((
            Some("owner".to_owned()),
            json(r#"{"supportsUntrustedAppInput": true}"#)
        ))
    );
}

#[test]
fn router_errors_become_typed_errors() {
    let mut bus = connected();
    let mut ask = |error: &str| {
        let request = bus
            .request(Method::OwnerDiscovery, json("{}"), 1)
            .unwrap();
        answered(&mut bus, &request, 1, "", Err(error))
    };
    assert_eq!(ask("no-client-found"), Err(BusError::NoOwner));
    assert_eq!(ask("request-version-mismatch"), Err(BusError::Incompatible));
    assert_eq!(
        ask("something-else"),
        Err(BusError::Refused("something-else".into()))
    );
    // The owner's absence is read off the start, the mismatch off any place.
    assert_eq!(
        ask("no-client-found: request-version-mismatch"),
        Err(BusError::NoOwner)
    );
    assert_eq!(
        ask("a request-version-mismatch: no-client-found"),
        Err(BusError::Incompatible)
    );
}

#[test]
fn discovery_requests_are_always_refused() {
    for mut bus in [connected(), TestBus::new()] {
        let action = bus.dispatch(json(
            r#"{
                "type": "client-discovery-request", "requestId": "d1",
                "request": {"type": "request", "method": "ide-context"}
            }"#,
        ));
        match action {
            Action::Send(message) => assert_eq!(
                message,
                json(
                    r#"{"type": "client-discovery-response", "requestId": "d1", "response": {"canHandle": false}}"#
                )
            ),
            _ => panic!("not refused"),
        }
    }
}

#[test]
fn follow_announces_itself_then_receives_the_snapshot() {
    let mut bus = connected();
    let following = bus.follow("t1", "sink").unwrap();
    assert_eq!(
        following.text_at("method"),
        Some("thread-stream-following-changed")
    );
    assert_eq!(
        following.get("params").and_then(|p| p.get("following")),
        Some(&Json::Bool(true))
    );
    let history = bus.load_history("t1", 1).unwrap();
    assert_eq!(
        history.message.text_at("method"),
        Some("thread-follower-load-complete-history")
    );
    assert_eq!(
        history.message.get("params"),
        Some(&json(r#"{"conversationId": "t1"}"#))
    );
    // The owner sends the snapshot before answering, as the real one does.
    let snapshot = r#"{"type": "snapshot", "revision": 1}"#;
    assert_eq!(
        told(&mut bus, stream_change("t1", STREAM_STATE_VERSION, snapshot)),
        one("t1", "sink", "change r1")
    );
    assert!(told(&mut bus, stream_change(
        "other",
        STREAM_STATE_VERSION,
        r#"{"type": "snapshot", "revision": 9}"#
    ))
    .is_empty());
    let handled = answered(&mut bus, &history, 1, "owner", Ok(r#"{"revision": 1}"#));
    assert_eq!(bus.followed("t1", handled).outcome, Ok(()));
    assert_eq!(
        told(&mut bus, stream_change(
            "t1",
            STREAM_STATE_VERSION + 1,
            r#"{"type": "patches", "revision": 2}"#
        )),
        one("t1", "sink", "incompatible")
    );

    let unfollowing = bus.unfollow("t1").unwrap();
    assert_eq!(
        unfollowing.get("params").and_then(|p| p.get("following")),
        Some(&Json::Bool(false))
    );
    assert!(told(&mut bus, stream_change(
        "t1",
        STREAM_STATE_VERSION,
        r#"{"type": "snapshot", "revision": 3}"#
    ))
    .is_empty());
}

#[test]
fn a_follow_the_owner_refuses_leaves_nothing_registered() {
    let mut bus = connected();
    bus.follow("t1", "sink").unwrap();
    let history = bus.load_history("t1", 1).unwrap();
    let handled = answered(&mut bus, &history, 1, "", Err("no-client-found"));
    let followed = bus.followed("t1", handled);
    assert_eq!(followed.outcome, Err(BusError::NoOwner));
    assert_eq!(
        followed
            .message
            .as_ref()
            .and_then(|message| message.get("params"))
            .and_then(|params| params.get("following")),
        Some(&Json::Bool(false))
    );
    assert!(told(&mut bus, stream_change(
        "t1",
        STREAM_STATE_VERSION,
        r#"{"type": "snapshot", "revision": 1}"#
    ))
    .is_empty());
    assert_eq!(bus.refollow("t1"), Err(BusError::Closed));
}

#[test]
fn the_owner_leaving_is_reported_to_its_threads_only() {
    let mut bus = connected();
    follow(&mut bus, "t1", "sink", "owner");
    follow(&mut bus, "t2", "other sink", "another");
    assert!(told(&mut bus, departure("someone-else")).is_empty());
    assert_eq!(
        told(&mut bus, departure("owner")),
        one("t1", "sink", "owner gone")
    );
    // It owns nothing any more, so there is nobody left to tell.
    assert!(told(&mut bus, departure("owner")).is_empty());
    assert_eq!(
        told(&mut bus, departure("another")),
        one("t2", "other sink", "owner gone")
    );
}

#[test]
fn every_thread_of_an_owner_is_told_that_it_left() {
    let mut bus = connected();
    follow(&mut bus, "t1", "one", "owner");
    follow(&mut bus, "t2", "two", "owner");
    follow(&mut bus, "t3", "three", "owner");
    bus.unfollow("t2");
    let mut heard = told(&mut bus, departure("owner"));
    heard.sort();
    let expected = [one("t1", "one", "owner gone"), one("t3", "three", "owner gone")].concat();
    assert_eq!(heard, expected);
}

#[test]
fn a_thread_that_a_sink_unfollows_is_not_told_after_it() {
    let mut bus = connected();
    follow(&mut bus, "t1", "one", "owner");
    follow(&mut bus, "t2", "two", "owner");
    let conversations = match bus.dispatch(departure("owner")) {
        Action::TellEach { conversations, .. } => conversations,
        _ => panic!("nobody to tell"),
    };
    assert_eq!(conversations.len(), 2);
    // The first sink that runs stops the other thread.
    assert!(bus.sink(&conversations[0]).is_some());
    bus.unfollow(&conversations[1]);
    assert_eq!(bus.sink(&conversations[1]), None);
    assert!(bus.sink(&conversations[0]).is_some());
}

#[test]
fn refollow_announces_again_to_the_new_owner_with_the_same_sink() {
    let mut bus = connected();
    follow(&mut bus, "t1", "sink", "first-owner");
    let snapshot = r#"{"type": "snapshot", "revision": 1}"#;
    assert_eq!(
        told(&mut bus, stream_change("t1", STREAM_STATE_VERSION, snapshot)),
        one("t1", "sink", "change r1")
    );
    let announcement = bus.refollow("t1").unwrap();
    assert_eq!(
        announcement.get("params").and_then(|p| p.get("following")),
        Some(&Json::Bool(true))
    );
    let history = bus.load_history("t1", 2).unwrap();
    assert_eq!(
        told(&mut bus, stream_change("t1", STREAM_STATE_VERSION, snapshot)),
        one("t1", "sink", "change r1")
    );
    let handled = answered(&mut bus, &history, 2, "second-owner", Ok("{}"));
    assert_eq!(bus.followed("t1", handled).outcome, Ok(()));
    assert!(told(&mut bus, departure("first-owner")).is_empty());
    assert_eq!(
        told(&mut bus, departure("second-owner")),
        one("t1", "sink", "owner gone")
    );
    assert_eq!(bus.refollow("never-followed"), Err(BusError::Closed));
}

#[test]
fn the_router_hanging_up_disconnects_everything() {
    let mut bus = connected();
    follow(&mut bus, "t1", "sink", "owner");
    let pending = bus.request(Method::OwnerDiscovery, json("{}"), 3).unwrap();
    assert!(bus.is_alive());
    assert_eq!(bus.disconnect(), vec![("t1".to_owned(), "sink")]);
    assert!(!bus.is_alive());
    assert_eq!(
        bus.request(Method::OwnerDiscovery, json("{}"), 4).err(),
        Some(BusError::Closed)
    );
    assert_eq!(
        bus.finish(&pending.id, Answer::Disconnected),
        Err(BusError::Closed)
    );
    assert!(matches!(
        bus.dispatch(response(&pending, "owner", Ok("{}"))),
        Action::Nothing
    ));
    assert!(told(&mut bus, departure("owner")).is_empty());
}

#[test]
fn a_request_is_answered_once_and_not_after_it_was_given_up() {
    let mut bus = connected();
    let request = bus.request(Method::StartTurn, json("{}"), 5).unwrap();
    assert!(answered(&mut bus, &request, 5, "owner", Ok("1")).is_ok());
    assert!(matches!(
        bus.dispatch(response(&request, "owner", Ok("2"))),
        Action::Nothing
    ));
    let slow = bus.request(Method::StartTurn, json("{}"), 6).unwrap();
    assert_eq!(
        bus.finish(&slow.id, Answer::TimedOut),
        Err(BusError::TimedOut)
    );
    assert!(matches!(
        bus.dispatch(response(&slow, "owner", Ok("3"))),
        Action::Nothing
    ));
    let unwritten = bus.request(Method::StartTurn, json("{}"), 8).unwrap();
    assert_eq!(
        bus.finish(&unwritten.id, Answer::Unwritten),
        Err(BusError::Closed)
    );
    assert!(matches!(
        bus.dispatch(response(&unwritten, "owner", Ok("4"))),
        Action::Nothing
    ));
}

#[test]
fn request_ids_are_random_uuids() {
    let mut bus = TestBus::new();
    let first = bus.request(Method::OwnerDiscovery, json("{}"), 1).unwrap().id;
    let second = bus.request(Method::OwnerDiscovery, json("{}"), 2).unwrap().id;
    assert_ne!(first, second);
    for id in [first, second] {
        assert_eq!(id.len(), 36);
        for (place, c) in id.chars().enumerate() {
            match place {
                8 | 13 | 18 | 23 => assert_eq!(c, '-'),
                14 => assert_eq!(c, '4'),
                19 => assert!(matches!(c, '8' | '9' | 'a' | 'b')),
                _ => assert!(matches!(c, '0'..='9' | 'a'..='f')),
            }
        }
    }
}

#[test]
fn a_registration_without_an_id_is_refused() {
    let mut bus = TestBus::new();
    assert_eq!(
        bus.register(Ok((None, json("{}")))),
        Err(BusError::Refused("registration gave no client id".into()))
    );
    assert_eq!(bus.register(Err(BusError::TimedOut)), Err(BusError::TimedOut));
    assert_eq!(bus.client_id(), None);
    assert_eq!(bus.follow("t1", "sink"), Err(BusError::Closed));
    assert_eq!(bus.unfollow("t1"), None);
    assert_eq!(bus.register(Ok((None, json(r#"{"clientId": "a"}"#)))), Ok(()));
    assert_eq!(bus.register(Ok((None, json(r#"{"clientId": "b"}"#)))), Ok(()));
    assert_eq!(bus.client_id(), Some("a"));
}

#[test]
fn broadcasts_that_are_not_understood_are_passed_over() {
    let mut bus = connected();
    follow(&mut bus, "t1", "sink", "owner");
    for message in [
        r#"{"type": "broadcast", "method": "something-else", "params": {"conversationId": "t1"}}"#,
        r#"{"type": "broadcast", "method": "thread-stream-state-changed", "version": 11, "params": {}}"#,
        r#"{"type": "broadcast", "method": "client-status-changed", "params": {"clientId": "owner", "status": "connected"}}"#,
        r#"{"type": "broadcast", "method": "client-status-changed", "params": {"status": "disconnected"}}"#,
        r#"{"type": "request", "requestId": "r"}"#,
    ] {
        assert!(matches!(bus.dispatch(json(message)), Action::Nothing));
    }
    // A change without its object is passed on as null.
    match bus.dispatch(json(
        r#"{"type": "broadcast", "method": "thread-stream-state-changed", "version": 11, "params": {"conversationId": "t1"}}"#,
    )) {
        Action::Tell {
            event: StreamEvent::Change(change),
            ..
        } => assert_eq!(change, Json::Null),
        _ => panic!("not told"),
    }
}

#[test]
fn a_read_is_decoded_tried_again_or_the_last() {
    assert_eq!(after_read(Read::Bytes(0)), Next::Stop);
    assert_eq!(after_read(Read::Bytes(3)), Next::Decode(3));
    assert_eq!(after_read(Read::Interrupted), Next::ReadAgain);
    assert_eq!(after_read(Read::Failed), Next::Stop);
}

#[test]
fn bus_errors_read_as_sentences() {
    assert_eq!(
        BusError::NotRunning.message(),
        "The Codex desktop app is not running."
    );
    assert_eq!(
        BusError::NoOwner.message(),
        "The Codex desktop app does not have this thread open."
    );
    assert_eq!(
        BusError::Incompatible.message(),
        "This version of the Codex desktop app is not supported yet."
    );
    assert_eq!(
        BusError::Refused("why".into()).clone().message(),
        "Codex refused the request: why"
    );
    assert_eq!(BusError::TimedOut.message(), "Codex did not answer in time.");
    assert_eq!(
        BusError::Closed.message(),
        "The Codex desktop app closed the connection."
    );
}
