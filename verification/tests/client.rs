//! The client of the `codex app-server` child, driven by what the child says.

use std::collections::VecDeque;

use overterm_codex::client::{
    codex_status, launch_failure, list_on, parting, pipe_failure, write_failure, Client,
    CodexStatus, Event, Outgoing, Parting, Pipe, Progress, Reply, RequestFailure, Waited,
    NOTICE_LOG, READ_ONLY_METHODS, REQUEST_LOG,
};
use overterm_codex::json::Json;
use overterm_codex::rpc::{bounded_method, classify, classify_line, line_of, FrameDecoder, Incoming};
use overterm_codex::threads::{thread_summaries, thread_summary, ThreadSummary};

const VERSION: &str = "0.1.0";

fn json(text: &str) -> Json {
    Json::from_text(text).expect("JSON")
}

/// What the child says, line by line, and how its silence ends.
struct Child {
    lines: Vec<&'static str>,
    said: usize,
    ends_by_timeout: bool,
}

impl Child {
    fn new(lines: &[&'static str]) -> Child {
        Child {
            lines: lines.to_vec(),
            said: 0,
            ends_by_timeout: true,
        }
    }

    fn next(&mut self) -> Event {
        match self.lines.get(self.said) {
            Some(line) => {
                self.said += 1;
                Event::Message(classify_line(line))
            }
            None if self.ends_by_timeout => Event::TimedOut,
            None => Event::Message(Incoming::Eof),
        }
    }

    fn wait(&mut self, client: &mut Client, request: &Outgoing) -> Reply {
        let mut events = VecDeque::new();
        loop {
            if let Some(reply) = client.await_response(request.id, &mut events) {
                return reply;
            }
            events.push_back(self.next());
        }
    }

    fn start(&mut self) -> Result<Client, String> {
        let mut client = Client::new();
        let request = client.initialize(VERSION);
        let reply = self.wait(&mut client, &request);
        client.initialized(reply)?;
        Ok(client)
    }

    fn list(&mut self, client: &mut Client) -> Result<Vec<ThreadSummary>, RequestFailure> {
        let request = client.list();
        let reply = self.wait(client, &request);
        list_on(reply)
    }

    fn attach(&mut self, client: &mut Client, id: &str) -> Result<(), RequestFailure> {
        let mut progress = client.attach(id);
        while let Progress::Ask { stage, request } = progress {
            let reply = self.wait(client, &request);
            progress = client.attach_on(id, stage, reply)?;
        }
        Ok(())
    }

    fn detach(&mut self, client: &mut Client) -> Result<(), RequestFailure> {
        match client.detach() {
            Some(request) => {
                let reply = self.wait(client, &request);
                client.detach_on(reply)
            }
            None => Ok(()),
        }
    }
}

#[test]
fn write_methods_are_structurally_absent() {
    for method in READ_ONLY_METHODS {
        assert!(
            !method.starts_with("turn/")
                && !matches!(
                    method,
                    "thread/archive" | "thread/delete" | "thread/rollback" | "thread/fork"
                )
        );
    }
}

#[test]
fn classification_distinguishes_messages() {
    assert!(matches!(
        classify(json(r#"{"id":7,"result":{}}"#)),
        Incoming::Response { id: 7, .. }
    ));
    assert!(matches!(
        classify(json(r#"{"method":"thread/status/changed","params":{}}"#)),
        Incoming::Notification { .. }
    ));
    assert!(matches!(
        classify(json(r#"{"id":9,"method":"approval/request","params":{}}"#)),
        Incoming::ServerRequest { .. }
    ));
}

#[test]
fn thread_metadata_drops_preview_and_home_path() {
    let t = thread_summary(&json(
        r#"{"id":"fixture-thread","name":"Fixture","preview":"do not retain","cwd":"/private/fixture/project","updatedAt":1,"status":{"type":"idle"}}"#,
    ))
    .unwrap();
    assert_eq!(t.workspace.as_deref(), Some("project"));
    assert_eq!(t.title, "Fixture");
    assert_eq!(t.status, "idle");
}

#[test]
fn malformed_frame_is_safe() {
    assert!(Json::from_text("{").is_none());
}

#[test]
fn framing_handles_fragmented_and_coalesced_jsonl() {
    let mut decoder = FrameDecoder::default();
    assert!(decoder.push("{\"id\":1,").is_empty());
    let first =
        decoder.push("\"result\":{}}\n{\"method\":\"thread/status/changed\",\"params\":{}}\n");
    assert!(matches!(first[0], Incoming::Response { id: 1, .. }));
    assert!(matches!(first[1], Incoming::Notification { .. }));
}

#[test]
fn unknown_notifications_and_server_requests_are_never_reinterpreted() {
    let unknown = classify(json(
        r#"{"method":"future/event","params":{"secret":"ignored"}}"#,
    ));
    assert!(matches!(unknown, Incoming::Notification { method, .. } if method == "future/event"));
    let request = classify(json(
        r#"{"id":2,"method":"approval/request","params":{"secret":"ignored"}}"#,
    ));
    assert!(matches!(request, Incoming::ServerRequest { method } if method == "approval/request"));
}

#[test]
fn bounded_method_never_keeps_untrusted_payload_text() {
    assert_eq!(bounded_method("bad method : payload"), "badmethodpayload");
}

#[test]
fn fake_server_exercises_read_only_lifecycle_without_a_real_codex_home() {
    // Each response is deliberately tiny and contains metadata only; the
    // notification arrives before initialize's response to prove requests do
    // not block the stream.
    let mut child = Child::new(&[
        r#"{"method":"thread/status/changed","params":{"status":{"type":"idle"}}}"#,
        r#"{"id":1,"result":{"platformOs":"linux"}}"#,
        r#"{"id":2,"result":{"data":[{"id":"fixture","name":"Fixture","cwd":"/fixture/project","status":{"type":"idle"}}]}}"#,
        r#"{"id":3,"result":{"thread":{"id":"fixture"}}}"#,
        r#"{"id":4,"result":{"thread":{"id":"fixture"}}}"#,
        r#"{"id":5,"result":{"status":"unsubscribed"}}"#,
    ]);
    let mut client = child.start().expect("handshake");
    let threads = child.list(&mut client).expect("bounded list");
    assert_eq!(threads.len(), 1);
    assert_eq!(threads[0].workspace.as_deref(), Some("project"));
    child
        .attach(&mut client, "fixture")
        .expect("metadata-only resume");
    assert_eq!(client.subscribed(), Some("fixture"));
    assert!(client
        .report()
        .notifications
        .iter()
        .any(|method| method == "thread/status/changed"));
    child.detach(&mut client).expect("unsubscribe");
    assert!(client.subscribed().is_none());
}

#[test]
fn switching_threads_balances_subscriptions_and_keeps_failures_fail_closed() {
    // The child answers the exact A -> unsubscribe A -> B -> unsubscribe B
    // sequence; the request log below proves those transitions were emitted
    // in that order.
    let mut child = Child::new(&[
        r#"{"id":1,"result":{"platformOs":"linux"}}"#,
        r#"{"id":2,"result":{"thread":{"id":"A"}}}"#,
        r#"{"id":3,"result":{"thread":{"id":"A"}}}"#,
        r#"{"id":4,"result":{}}"#,
        r#"{"id":5,"result":{"thread":{"id":"B"}}}"#,
        r#"{"id":6,"result":{"thread":{"id":"B"}}}"#,
        r#"{"id":7,"result":{}}"#,
    ]);
    let mut client = child.start().expect("handshake");
    child.attach(&mut client, "A").expect("attach A");
    assert_eq!(client.subscribed(), Some("A"));
    child.attach(&mut client, "B").expect("switch A to B");
    assert_eq!(client.subscribed(), Some("B"));
    child.detach(&mut client).expect("detach B");
    assert!(client.subscribed().is_none());
    assert_eq!(
        client.requests(),
        [
            "initialize",
            "thread/read",
            "thread/resume",
            "thread/unsubscribe",
            "thread/read",
            "thread/resume",
            "thread/unsubscribe",
        ]
    );
}

#[test]
fn failed_unsubscribe_keeps_the_old_subscription_recorded() {
    let mut child = Child::new(&[
        r#"{"id":1,"result":{"platformOs":"linux"}}"#,
        r#"{"id":2,"result":{}}"#,
        r#"{"id":3,"result":{}}"#,
        r#"{"id":4,"error":{"code":-32000}}"#,
    ]);
    let mut client = child.start().expect("handshake");
    child.attach(&mut client, "A").expect("attach A");
    assert!(child.attach(&mut client, "B").is_err());
    assert_eq!(client.subscribed(), Some("A"));
}

#[test]
fn failed_replacement_resume_leaves_no_subscription_claimed() {
    let mut child = Child::new(&[
        r#"{"id":1,"result":{"platformOs":"linux"}}"#,
        r#"{"id":2,"result":{}}"#,
        r#"{"id":3,"result":{}}"#,
        r#"{"id":4,"result":{"thread":{"id":"B"}}}"#,
        r#"{"id":5,"error":{"code":-32000}}"#,
    ]);
    let mut client = child.start().expect("handshake");
    child.attach(&mut client, "A").expect("attach A");
    assert!(child.attach(&mut client, "B").is_err());
    assert!(client.subscribed().is_none());
}

#[test]
fn ambiguous_resume_timeout_invalidates_session_and_reaps_child() {
    let mut child = Child::new(&[
        r#"{"id":1,"result":{"platformOs":"linux"}}"#,
        r#"{"id":2,"result":{"thread":{"id":"A"}}}"#,
        r#"{"id":3,"result":{"thread":{"id":"A"}}}"#,
        r#"{"id":4,"result":{}}"#,
        r#"{"id":5,"result":{"thread":{"id":"B"}}}"#,
    ]);
    let mut client = child.start().expect("handshake");
    child.attach(&mut client, "A").expect("attach A");
    let error = child
        .attach(&mut client, "B")
        .expect_err("withheld resume response should time out");
    assert_eq!(error.message(), "Codex integration request timed out");
    // What is ambiguous ends the session; nothing is claimed until then.
    assert!(error.is_ambiguous());
    assert!(client.subscribed().is_none());
}

#[test]
fn missing_executable_is_non_fatal() {
    assert_eq!(
        launch_failure(true),
        "Codex integration unavailable: `codex` was not found"
    );
}

#[test]
fn invalid_initialize_response_is_rejected_and_owned_child_is_reaped() {
    let error = match Child::new(&[r#"{"id":1,"result":{}}"#]).start() {
        Ok(_) => panic!("accepted incompatible initialize response"),
        Err(error) => error,
    };
    assert_eq!(
        error,
        "Codex integration incompatible: invalid initialize response"
    );
}

#[test]
fn malformed_json_is_a_controlled_incompatibility() {
    let error = match Child::new(&["{not-json}"]).start() {
        Ok(_) => panic!("accepted malformed protocol frame"),
        Err(error) => error,
    };
    assert_eq!(
        error,
        "Codex integration incompatible: malformed protocol frame"
    );
}

#[test]
fn eof_and_timeout_are_controlled_errors() {
    let mut child = Child::new(&[]);
    child.ends_by_timeout = false;
    let eof = match child.start() {
        Ok(_) => panic!("server exited before initialize"),
        Err(error) => error,
    };
    assert_eq!(eof, "Codex integration connection closed");

    let mut child = Child::new(&[r#"{"id":1,"result":{"platformOs":"linux"}}"#]);
    let mut client = child.start().expect("handshake");
    assert_eq!(
        child.list(&mut client).unwrap_err(),
        RequestFailure::Ambiguous("Codex integration request timed out".into())
    );
}

#[test]
fn out_of_order_response_is_retained_while_notifications_interleave() {
    let mut child = Child::new(&[
        r#"{"id":99,"result":{}}"#,
        r#"{"method":"future/event","params":{}}"#,
        r#"{"id":1,"result":{"platformOs":"linux"}}"#,
    ]);
    let client = child.start().expect("handshake");
    assert!(client.keeps(99));
    assert!(client
        .report()
        .notifications
        .iter()
        .any(|event| event == "future/event"));
}

#[test]
fn an_early_answer_is_the_reply_once_it_is_awaited() {
    let mut child = Child::new(&[
        r#"{"id":2,"result":{"data":[]}}"#,
        r#"{"id":1,"result":{"platformOs":"linux"}}"#,
    ]);
    let mut client = child.start().expect("handshake");
    assert!(client.keeps(2));
    assert_eq!(child.list(&mut client).expect("kept answer").len(), 0);
    assert!(!client.keeps(2));
}

#[test]
fn of_repeated_answers_the_last_that_was_read_is_kept() {
    let mut client = Client::new();
    let heard = |line: &str| Event::Message(classify_line(line));
    let mut events = VecDeque::from([
        heard(r#"{"id":6,"result":1}"#),
        heard(r#"{"id":6,"result":2}"#),
        heard(r#"{"id":4,"result":4}"#),
        heard(r#"{"id":6,"result":3}"#),
    ]);
    assert!(client.await_response(4, &mut events).is_some());
    assert_eq!(client.claim(6), Some(Ok(Json::Unsigned(2))));
    assert_eq!(
        client.await_response(6, &mut events),
        Some(Ok(Json::Unsigned(3)))
    );
}

#[test]
fn an_answer_is_found_among_what_came_with_it() {
    let mut client = Client::new();
    let heard = |line: &str| Event::Message(classify_line(line));
    let mut events = VecDeque::from([
        heard(r#"{"method":"future/event"}"#),
        heard(r#"{"id":6,"result":6}"#),
        heard(r#"{"id":4,"result":4}"#),
        heard(r#"{"id":5,"result":5}"#),
        heard(r#"{"id":7,"result":7}"#),
    ]);
    assert_eq!(
        client.await_response(4, &mut events),
        Some(Ok(Json::Unsigned(4)))
    );
    assert_eq!(client.claim(4), None);
    // What came behind the answer is there for the next wait.
    assert_eq!(events.len(), 2);
    assert!(client.keeps(6) && !client.keeps(5));
    // An answer that is kept already is the reply, and nothing is read.
    assert_eq!(
        client.await_response(6, &mut events),
        Some(Ok(Json::Unsigned(6)))
    );
    assert_eq!(events.len(), 2);
    assert_eq!(
        client.await_response(5, &mut events),
        Some(Ok(Json::Unsigned(5)))
    );
    assert_eq!(events.len(), 1);
    assert_eq!(client.await_response(8, &mut events), None);
    assert!(events.is_empty());
    assert_eq!(client.claim(7), Some(Ok(Json::Unsigned(7))));
}

#[test]
fn a_child_gets_its_grace_and_is_killed_after_it() {
    assert_eq!(parting(Waited::Running, true), Parting::WaitAgain);
    assert_eq!(parting(Waited::Exited, true), Parting::Gone);
    assert_eq!(parting(Waited::Unknown, true), Parting::Gone);
    for waited in [Waited::Running, Waited::Exited, Waited::Unknown] {
        assert_eq!(parting(waited, false), Parting::Kill);
    }
}

#[test]
fn requests_have_the_shape_the_server_expects() {
    let mut client = Client::new();
    assert_eq!(
        client.initialize("9.9").message,
        json(
            r#"{"jsonrpc":"2.0","id":1,"method":"initialize","params":{"clientInfo":{"name":"overterm","version":"9.9"},"capabilities":{"experimentalApi":false}}}"#
        )
    );
    assert_eq!(
        client.list().message,
        json(
            r#"{"jsonrpc":"2.0","id":2,"method":"thread/list","params":{"limit":20,"archived":false,"useStateDbOnly":true}}"#
        )
    );
    assert_eq!(
        client.initialized(Ok(json(r#"{"platformOs":"linux"}"#))),
        Ok(json(
            r#"{"jsonrpc":"2.0","method":"initialized","params":{}}"#
        ))
    );
    let mut progress = client.attach("T");
    let mut sent = Vec::new();
    while let Progress::Ask { stage, request } = progress {
        sent.push(request.message);
        progress = client.attach_on("T", stage, Ok(Json::Null)).unwrap();
    }
    assert_eq!(
        sent,
        vec![
            json(
                r#"{"jsonrpc":"2.0","id":3,"method":"thread/read","params":{"threadId":"T","includeTurns":false}}"#
            ),
            json(
                r#"{"jsonrpc":"2.0","id":4,"method":"thread/resume","params":{"threadId":"T","excludeTurns":true}}"#
            ),
        ]
    );
    assert!(matches!(client.attach("T"), Progress::Done));
    assert_eq!(
        client.detach().map(|request| request.message),
        Some(json(
            r#"{"jsonrpc":"2.0","id":5,"method":"thread/unsubscribe","params":{"threadId":"T"}}"#
        ))
    );
}

#[test]
fn write_capable_methods_and_other_notifications_are_rejected() {
    let mut client = Client::new();
    let refused = match client.request("turn/start", Json::Null) {
        Ok(_) => panic!("emitted a write-capable method"),
        Err(failure) => failure,
    };
    assert_eq!(
        refused,
        RequestFailure::Rejected("Codex integration rejected a write-capable method".into())
    );
    assert!(client.requests().is_empty());
    assert_eq!(
        client.notify("turn/interrupt", Json::Null),
        Err(RequestFailure::Rejected(
            "Codex integration rejected a non-read-only notification".into()
        ))
    );
    for method in READ_ONLY_METHODS {
        assert!(client.request(method, Json::Null).is_ok());
    }
    assert_eq!(client.requests(), READ_ONLY_METHODS);
}

#[test]
fn answers_are_told_apart() {
    let answer = |text: &str| {
        let mut client = Client::new();
        client
            .receive(1, Event::Message(classify_line(text)))
            .expect("an answer")
    };
    assert_eq!(answer(r#"{"id":1,"result":3}"#), Ok(Json::Unsigned(3)));
    assert_eq!(
        answer(r#"{"id":1,"result":3,"error":null}"#),
        Err(RequestFailure::Rejected(
            "Codex integration request was rejected".into()
        ))
    );
    assert_eq!(
        answer(r#"{"id":1}"#),
        Err(RequestFailure::Ambiguous(
            "Codex integration incompatible response".into()
        ))
    );
    let mut client = Client::new();
    assert_eq!(
        client.receive(1, Event::Disconnected),
        Some(Err(RequestFailure::Ambiguous(
            "Codex integration connection closed".into()
        )))
    );
}

#[test]
fn logs_keep_only_the_latest_entries() {
    let mut client = Client::new();
    for round in 0..REQUEST_LOG + 3 {
        let method = if round < 3 { "initialize" } else { "thread/list" };
        assert!(client.request(method, Json::Null).is_ok());
    }
    let requests = client.requests();
    assert_eq!(requests.len(), REQUEST_LOG);
    assert!(requests.iter().all(|method| method == "thread/list"));
    for round in 0..NOTICE_LOG + 1 {
        client.observe_notification(format!("event/{round}"), Json::Null);
    }
    let notices = client.report().notifications;
    assert_eq!(notices.len(), NOTICE_LOG);
    assert_eq!(notices[0], "event/1");
    assert_eq!(notices[NOTICE_LOG - 1], format!("event/{NOTICE_LOG}"));
}

#[test]
fn server_requests_are_noticed_and_status_changes_are_kept() {
    let mut client = Client::new();
    assert_eq!(
        client.receive(
            1,
            Event::Message(classify_line(r#"{"id":5,"method":"approval/request"}"#))
        ),
        None
    );
    assert_eq!(
        client.receive(
            1,
            Event::Message(classify_line(
                r#"{"method":"thread/status/changed","params":{"status":{"type":"in progress!"}}}"#
            ))
        ),
        None
    );
    let report = client.report();
    assert_eq!(
        report.notifications,
        [
            "server request ignored: approval/request",
            "thread/status/changed"
        ]
    );
    assert_eq!(report.thread_status, "inprogress");
}

#[test]
fn the_status_says_whether_a_thread_is_attached() {
    let off = codex_status(None);
    assert!(!off.available && !off.connected);
    assert_eq!(off.thread_status, "disconnected");
    assert_eq!(off.detail, "Codex is off");
    assert_eq!(CodexStatus::default().detail, off.clone().detail);

    let mut client = Client::new();
    let on = codex_status(Some(&client));
    assert!(on.available && on.connected);
    assert_eq!(on.subscribed_thread_id, None);
    assert_eq!(on.thread_status, "connected");
    assert_eq!(on.detail, "Connected; choose a thread");

    let mut progress = client.attach("T");
    while let Progress::Ask { stage, .. } = progress {
        progress = client.attach_on("T", stage, Ok(Json::Null)).unwrap();
    }
    let attached = codex_status(Some(&client));
    assert_eq!(attached.subscribed_thread_id.as_deref(), Some("T"));
    assert_eq!(attached.detail, "Read-only attachment active (subscribed)");
}

#[test]
fn start_and_write_failures_have_their_words() {
    assert_eq!(
        launch_failure(false),
        "Codex integration unavailable: could not start app-server"
    );
    assert_eq!(
        pipe_failure(Pipe::Stdin),
        "Codex integration unavailable: stdin"
    );
    assert_eq!(
        pipe_failure(Pipe::Stdout),
        "Codex integration unavailable: stdout"
    );
    assert_eq!(
        pipe_failure(Pipe::Stderr),
        "Codex integration unavailable: stderr"
    );
    assert_eq!(
        write_failure(false, false),
        RequestFailure::Ambiguous("Codex integration protocol error".into())
    );
    for (message_written, broken_pipe) in [(true, false), (false, true), (true, true)] {
        assert_eq!(
            write_failure(message_written, broken_pipe),
            RequestFailure::Ambiguous("Codex integration connection closed".into())
        );
    }
}

#[test]
fn a_thread_without_an_id_is_not_listed_and_the_list_is_bounded() {
    let mut items = vec![r#"{"name":"no id"}"#.to_owned()];
    for number in 0..30 {
        items.push(format!(r#"{{"id":"t{number}"}}"#));
    }
    let threads = thread_summaries(&json(&format!(r#"{{"data":[{}]}}"#, items.join(","))));
    assert_eq!(threads.len(), 19);
    assert_eq!(threads[0].id, "t0");
    assert_eq!(threads[0].title, "Untitled thread");
    assert_eq!(threads[0].workspace, None);
    assert_eq!(threads[0].updated_at, None);
    assert_eq!(threads[0].status, "unknown");
    assert!(thread_summaries(&json(r#"{"data":{}}"#)).is_empty());
    assert!(thread_summaries(&Json::Null).is_empty());
}

#[test]
fn shown_metadata_are_cut_to_their_limits() {
    let long = "x".repeat(300);
    let summary = thread_summary(&json(&format!(
        r#"{{"id":"{long}","name":"{long}","cwd":"/{long}","updatedAt":7,"status":{{"type":"{long}"}}}}"#
    )))
    .unwrap();
    assert_eq!(summary.id.len(), 300);
    assert_eq!(summary.title.len(), 120);
    assert_eq!(summary.workspace.as_deref().map(str::len), Some(80));
    assert_eq!(summary.status.len(), 80);
    assert_eq!(summary.updated_at, Some(7));
    let trailing = thread_summary(&json(r#"{"id":"t","cwd":"/home/me/"}"#)).unwrap();
    assert_eq!(trailing.workspace, None);
    let copy = summary.clone();
    assert_eq!(copy.title, summary.title);
}

#[test]
fn threads_that_differ_only_in_what_is_hidden_are_shown_alike() {
    let here = thread_summary(&json(
        r#"{"id":"t","name":"N","preview":"a","cwd":"/home/a/project","status":{"type":"idle","since":1}}"#,
    ))
    .unwrap();
    let there = thread_summary(&json(
        r#"{"id":"t","name":"N","preview":"b","cwd":"/srv/project","status":{"type":"idle","since":2}}"#,
    ))
    .unwrap();
    assert_eq!(format!("{here:?}"), format!("{there:?}"));
    assert_eq!(here.workspace.as_deref(), Some("project"));
}

#[test]
fn lines_are_read_back_and_blank_ones_are_skipped() {
    let message = json(r#"{"id":3,"result":{"text":"a\nb"}}"#);
    let written = line_of(&message);
    assert_eq!(written, "{\"id\":3,\"result\":{\"text\":\"a\\nb\"}}\n");
    let mut decoder = FrameDecoder::default();
    let heard = decoder.push(&format!("\n{written}\noops\n{{}}\n"));
    assert_eq!(heard.len(), 3);
    assert!(
        matches!(&heard[0], Incoming::Response { id: 3, result: Some(result), error: None } if *result == json(r#"{"text":"a\nb"}"#))
    );
    assert!(matches!(heard[1], Incoming::Malformed));
    assert!(matches!(heard[2], Incoming::Malformed));
}
