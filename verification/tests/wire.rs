//! Frames and message shapes of the desktop app's bus.

use overterm_codex::json::Json;
use overterm_codex::wire::{
    classify, discovery_refusal, encode, following_changed, request, FrameDecoder, Incoming,
    Method, WireError, MAX_FRAME_BYTES, STREAM_STATE_CHANGED,
};

fn json(text: &str) -> Json {
    Json::from_text(text).expect("JSON")
}

fn frames(values: &[Json]) -> Vec<u8> {
    values.iter().flat_map(encode).collect()
}

#[test]
fn encode_prefixes_the_json_with_its_little_endian_length() {
    let bytes = encode(&json(r#"{"a": 1}"#));
    assert_eq!(&bytes[..4], &7u32.to_le_bytes());
    assert_eq!(&bytes[4..], br#"{"a":1}"#);
}

#[test]
fn decoder_reassembles_split_and_joined_frames() {
    let bytes = frames(&[json(r#"{"n": 1}"#), json(r#"{"n": 2}"#), json(r#"{"n": 3}"#)]);
    let mut decoder = FrameDecoder::default();
    let mut decoded = Vec::new();
    // Split mid-prefix and mid-body, and join the last two frames.
    for chunk in [&bytes[..2], &bytes[2..9], &bytes[9..]] {
        decoded.extend(decoder.push(chunk).unwrap());
    }
    assert_eq!(
        decoded,
        vec![json(r#"{"n": 1}"#), json(r#"{"n": 2}"#), json(r#"{"n": 3}"#)]
    );
}

#[test]
fn decoder_rejects_zero_and_oversized_lengths() {
    let mut decoder = FrameDecoder::default();
    assert_eq!(
        decoder.push(&0u32.to_le_bytes()),
        Err(WireError::BadLength(0))
    );
    let mut decoder = FrameDecoder::default();
    let too_big = (MAX_FRAME_BYTES as u32) + 1;
    assert_eq!(
        decoder.push(&too_big.to_le_bytes()),
        Err(WireError::BadLength(too_big as usize))
    );
}

#[test]
fn decoder_rejects_a_body_that_is_not_json() {
    let mut bytes = 3u32.to_le_bytes().to_vec();
    bytes.extend_from_slice(b"{no");
    assert!(matches!(
        FrameDecoder::default().push(&bytes),
        Err(WireError::BadJson(_))
    ));
}

#[test]
fn classify_splits_responses_by_result_type() {
    let ok = classify(json(
        r#"{
            "type": "response", "requestId": "r1", "resultType": "success",
            "method": "initialize", "handledByClientId": "owner", "result": {"clientId": "c1"}
        }"#,
    ));
    assert_eq!(
        ok,
        Incoming::Response {
            request_id: "r1".into(),
            handled_by: Some("owner".into()),
            outcome: Ok(json(r#"{"clientId": "c1"}"#)),
        }
    );
    let failed = classify(json(
        r#"{
            "type": "response", "requestId": "r2", "resultType": "error", "error": "no-client-found"
        }"#,
    ));
    assert_eq!(
        failed,
        Incoming::Response {
            request_id: "r2".into(),
            handled_by: None,
            outcome: Err("no-client-found".into()),
        }
    );
}

#[test]
fn classify_reads_broadcasts_and_discovery_requests() {
    let broadcast = classify(json(&format!(
        r#"{{
            "type": "broadcast", "method": "{STREAM_STATE_CHANGED}", "version": 11,
            "sourceClientId": "owner", "params": {{"conversationId": "t1"}}
        }}"#
    )));
    assert_eq!(
        broadcast,
        Incoming::Broadcast {
            method: STREAM_STATE_CHANGED.into(),
            version: 11,
            params: json(r#"{"conversationId": "t1"}"#),
        }
    );
    let discovery = classify(json(
        r#"{
            "type": "client-discovery-request", "requestId": "d1",
            "request": {"method": "ide-context"}
        }"#,
    ));
    assert_eq!(
        discovery,
        Incoming::DiscoveryRequest {
            request_id: "d1".into()
        }
    );
    assert_eq!(
        classify(json(r#"{"type": "request", "requestId": "x"}"#)),
        Incoming::Other
    );
}

#[test]
fn requests_carry_the_version_the_desktop_app_checks() {
    let start = request(
        "r1",
        Some("c1"),
        Method::StartTurn,
        json(r#"{"conversationId": "t1"}"#),
    );
    assert_eq!(start.text_at("type"), Some("request"));
    assert_eq!(start.text_at("requestId"), Some("r1"));
    assert_eq!(start.text_at("sourceClientId"), Some("c1"));
    assert_eq!(start.text_at("method"), Some("thread-follower-start-turn"));
    assert_eq!(start.unsigned_at("version"), Some(2));
    assert_eq!(
        start.get("params"),
        Some(&json(r#"{"conversationId": "t1"}"#))
    );
    // Interrupt is 4 only with an expectedTurnId, which oTerm always sends.
    assert_eq!(Method::InterruptTurn.version(), 4);
    let init = request(
        "r0",
        None,
        Method::Initialize,
        json(r#"{"clientType": "overterm"}"#),
    );
    assert_eq!(init.unsigned_at("version"), Some(0));
    assert!(init.get("sourceClientId").is_none());
}

#[test]
fn following_changed_and_discovery_refusal_have_the_router_shape() {
    assert_eq!(
        following_changed("c1", "t1", true),
        json(
            r#"{
                "type": "broadcast", "method": "thread-stream-following-changed",
                "sourceClientId": "c1", "version": 1,
                "params": {"conversationId": "t1", "hostId": "local", "following": true}
            }"#
        )
    );
    assert_eq!(
        discovery_refusal("d1"),
        json(
            r#"{"type": "client-discovery-response", "requestId": "d1", "response": {"canHandle": false}}"#
        )
    );
}

#[test]
fn every_method_has_its_name_and_version() {
    let table = [
        (Method::Initialize, "initialize", 0),
        (Method::OwnerDiscovery, "thread-owner-discovery", 1),
        (
            Method::LoadHistory,
            "thread-follower-load-complete-history",
            1,
        ),
        (Method::StartTurn, "thread-follower-start-turn", 2),
        (Method::SteerTurn, "thread-follower-steer-turn", 1),
        (Method::InterruptTurn, "thread-follower-interrupt-turn", 4),
        (
            Method::CommandApproval,
            "thread-follower-command-approval-decision",
            1,
        ),
        (
            Method::FileApproval,
            "thread-follower-file-approval-decision",
            1,
        ),
    ];
    for (method, name, version) in table {
        assert_eq!(method.name(), name);
        assert_eq!(method.version(), version);
    }
}

#[test]
fn wire_errors_say_what_is_wrong() {
    assert_eq!(
        WireError::BadLength(268435457).message(),
        "frame length 268435457 is out of range"
    );
    assert_eq!(
        WireError::BadJson("odd".into()).message(),
        "frame is not JSON: odd"
    );
    let mut bytes = 3u32.to_le_bytes().to_vec();
    bytes.extend_from_slice(b"{no");
    let error = FrameDecoder::default().push(&bytes).unwrap_err();
    assert_eq!(
        error.message(),
        "frame is not JSON: key must be a string at line 1 column 2"
    );
}

#[test]
fn byte_by_byte_reads_give_the_same_messages_as_one_read() {
    let values = [
        json(r#"{"n": 1}"#),
        json(r#"[null, true, -2, 1.5, "é\n"]"#),
        json("18446744073709551615"),
    ];
    let bytes = frames(&values);
    let mut whole = FrameDecoder::default();
    let at_once = whole.push(&bytes).unwrap();
    let mut decoder = FrameDecoder::default();
    let mut decoded = Vec::new();
    for byte in &bytes {
        decoded.extend(decoder.push(&[*byte]).unwrap());
    }
    assert_eq!(at_once, decoded);
    assert_eq!(decoded, values);
}

#[test]
fn a_message_with_missing_parts_is_other_or_gets_defaults() {
    assert_eq!(classify(json("[]")), Incoming::Other);
    assert_eq!(classify(json(r#"{"type": "response"}"#)), Incoming::Other);
    assert_eq!(classify(json(r#"{"type": "broadcast"}"#)), Incoming::Other);
    assert_eq!(
        classify(json(r#"{"type": "client-discovery-request"}"#)),
        Incoming::Other
    );
    assert_eq!(
        classify(json(r#"{"type": "response", "requestId": "r"}"#)),
        Incoming::Response {
            request_id: "r".into(),
            handled_by: None,
            outcome: Err("unknown error".into()),
        }
    );
    assert_eq!(
        classify(json(
            r#"{"type": "response", "requestId": "r", "resultType": "success"}"#
        )),
        Incoming::Response {
            request_id: "r".into(),
            handled_by: None,
            outcome: Ok(Json::Null),
        }
    );
    assert_eq!(
        classify(json(r#"{"type": "broadcast", "method": "m", "version": -1}"#)),
        Incoming::Broadcast {
            method: "m".into(),
            version: 0,
            params: Json::Null,
        }
    );
}
