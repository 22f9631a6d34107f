use villflow::completion::CloudError;
use villflow::settings::SttSettings;
use villflow::stt::{
    after_connect_failure, build_ws_url, classify_connect_error, classify_handshake_status,
    encode_audio_chunk, parse_rotatable_http_status, ConnectFailure, KeyRotator, RotatableError,
    ServerMessage,
};

#[test]
fn key_rotator_rejects_empty() {
    assert!(matches!(KeyRotator::new(vec![]), Err(CloudError::NoApiKeys)));
    assert!(matches!(KeyRotator::new(vec!["".into(), "  ".into()]), Err(CloudError::NoApiKeys)));
}

#[test]
fn key_rotator_one_full_cycle() {
    let mut r = KeyRotator::new(vec!["k1".into(), "k2".into(), "k3".into()]).unwrap();
    assert_eq!(r.current_key(), "k1");
    assert_eq!(r.fail_and_advance("e1"), Some("k2"));
    assert_eq!(r.fail_and_advance("e2"), Some("k3"));
    assert_eq!(r.fail_and_advance("e3"), None);
    assert!(matches!(r.aggregate_error(), CloudError::AllKeysFailed(msg) if msg == "e3"));
}

#[test]
fn key_rotator_single_key_fails_once() {
    let mut r = KeyRotator::new(vec!["only".into()]).unwrap();
    assert_eq!(r.fail_and_advance("boom"), None);
    assert!(matches!(r.aggregate_error(), CloudError::AllKeysFailed(msg) if msg == "boom"));
}

#[test]
fn key_rotator_trims_keys() {
    let r = KeyRotator::new(vec!["  ".into(), " k1 ".into()]).unwrap();
    assert_eq!(r.current_key(), "k1");
    assert_eq!(r.last_error(), None);
    assert!(matches!(r.aggregate_error(), CloudError::AllKeysFailed(msg) if msg == "unknown error"));
}

#[test]
fn rotatable_from_message_types() {
    assert_eq!(RotatableError::from_message_type("auth_error"), Some(RotatableError::Auth));
    assert_eq!(RotatableError::from_message_type("quota_exceeded"), Some(RotatableError::Quota));
    assert_eq!(RotatableError::from_message_type("rate_limited"), Some(RotatableError::RateLimited));
    assert_eq!(
        RotatableError::from_message_type("resource_exhausted"),
        Some(RotatableError::ResourceExhausted)
    );
    assert_eq!(RotatableError::from_message_type("input_error"), None);
    assert_eq!(RotatableError::from_message_type("partial_transcript"), None);
}

#[test]
fn rotatable_from_http_status() {
    assert!(RotatableError::from_http_status(401).is_some());
    assert!(RotatableError::from_http_status(403).is_some());
    assert!(RotatableError::from_http_status(429).is_some());
    assert!(RotatableError::from_http_status(500).is_none());
    assert!(RotatableError::from_http_status(200).is_none());
}

#[test]
fn encode_audio_chunk_fields() {
    let pcm = [0u8, 1, 2, 3];
    let json = encode_audio_chunk(&pcm, true);
    let v: serde_json::Value = serde_json::from_str(&json).unwrap();
    assert_eq!(v["message_type"], "input_audio_chunk");
    assert_eq!(v["commit"], true);
    assert_eq!(v["sample_rate"], 16000);
    assert!(!v["audio_base_64"].as_str().unwrap().is_empty());
}

#[test]
fn parse_server_messages() {
    let partial = ServerMessage::parse(r#"{"message_type":"partial_transcript","text":"hel"}"#).unwrap();
    assert_eq!(partial.message_type, "partial_transcript");
    assert_eq!(partial.text.as_deref(), Some("hel"));

    let committed = ServerMessage::parse(r#"{"message_type":"committed_transcript","text":"hello"}"#).unwrap();
    assert_eq!(committed.text.as_deref(), Some("hello"));

    let err = ServerMessage::parse(r#"{"message_type":"auth_error","error":"bad key"}"#).unwrap();
    assert_eq!(err.message_type, "auth_error");
    assert_eq!(err.error.as_deref(), Some("bad key"));
}

#[test]
fn malformed_server_messages_rejected() {
    assert!(matches!(ServerMessage::parse(r#"{"text":"x"}"#), Err(CloudError::Json(_))));
    assert!(matches!(ServerMessage::parse(r#"{"message_type":7}"#), Err(CloudError::Json(_))));
    assert!(matches!(ServerMessage::parse("{"), Err(CloudError::Json(_))));
    let m = ServerMessage::parse(r#"{"message_type":"session_started","text":null,"session_id":"s1"}"#).unwrap();
    assert_eq!(m.text, None);
    assert_eq!(m.session_id.as_deref(), Some("s1"));
}

#[test]
fn build_ws_url_shape() {
    let settings = SttSettings {
        api_keys: vec![],
        endpoint: "wss://api.elevenlabs.io".into(),
        model_id: "scribe_v2_realtime".into(),
        language_code: "en".into(),
    };
    let url = build_ws_url(&settings, &["VillFlow".into(), "term with space".into()]);
    assert!(url.starts_with("wss://api.elevenlabs.io/v1/speech-to-text/realtime?"));
    assert!(url.contains("model_id=scribe_v2_realtime"));
    assert!(url.contains("audio_format=pcm_16000"));
    assert!(url.contains("language_code=en"));
    assert!(url.contains("commit_strategy=manual"));
    assert!(url.contains("keyterms=VillFlow"));
    assert!(url.contains("keyterms=term%20with%20space"));
}

#[test]
fn build_ws_url_exact() {
    let settings = SttSettings {
        api_keys: vec![],
        endpoint: "wss://h//".into(),
        model_id: "m/1".into(),
        language_code: "é".into(),
    };
    assert_eq!(
        build_ws_url(&settings, &["a~b".into()]),
        "wss://h/v1/speech-to-text/realtime?model_id=m%2F1&audio_format=pcm_16000&language_code=%C3%A9&commit_strategy=manual&keyterms=a~b"
    );
}

#[test]
fn mock_transport_rotation_exhausts_keys() {
    let mut rotator = KeyRotator::new(vec!["a".into(), "b".into()]).unwrap();
    let errors = ["auth_error", "quota_exceeded"];
    let mut attempts = 0;
    for err in errors {
        attempts += 1;
        assert!(RotatableError::from_message_type(err).is_some());
        if rotator.fail_and_advance(err).is_none() {
            break;
        }
    }
    assert_eq!(attempts, 2);
    assert!(matches!(rotator.aggregate_error(), CloudError::AllKeysFailed(_)));
}

#[test]
fn mock_transport_success_on_second_key() {
    let mut rotator = KeyRotator::new(vec!["bad".into(), "good".into()]).unwrap();
    let next = rotator.fail_and_advance("auth_error");
    assert_eq!(next, Some("good"));
    assert_eq!(rotator.current_key(), "good");
    assert_eq!(rotator.tried(), 1);
}

#[test]
fn parse_rotatable_status_word_boundary() {
    assert_eq!(parse_rotatable_http_status("HTTP 401 Unauthorized"), Some(401));
    assert_eq!(parse_rotatable_http_status("status: 403"), Some(403));
    assert_eq!(parse_rotatable_http_status("rate 429"), Some(429));
    assert_eq!(parse_rotatable_http_status("request id 1401"), None);
    assert_eq!(parse_rotatable_http_status("code 4030"), None);
    assert_eq!(parse_rotatable_http_status("all good"), None);
    assert_eq!(parse_rotatable_http_status("id 1401, HTTP 401"), Some(401));
    assert_eq!(parse_rotatable_http_status("id 4031, then 403 forbidden"), Some(403));
}

#[test]
fn encode_empty_commit_chunk() {
    let json = encode_audio_chunk(&[], true);
    let v: serde_json::Value = serde_json::from_str(&json).unwrap();
    assert_eq!(v["commit"], true);
    assert_eq!(v["audio_base_64"], "");
}

#[test]
fn encode_chunk_exact_text() {
    assert_eq!(
        encode_audio_chunk(&[0, 1, 2], false),
        r#"{"audio_base_64":"AAEC","commit":false,"message_type":"input_audio_chunk","sample_rate":16000}"#
    );
}

#[test]
fn handshake_classification() {
    assert!(classify_handshake_status(101, "101 Switching Protocols").is_none());
    assert!(classify_handshake_status(204, "204 No Content").is_none());
    assert!(matches!(
        classify_handshake_status(403, "403 Forbidden"),
        Some(ConnectFailure::Rotatable { status: 403, message }) if message == "403 Forbidden"
    ));
    assert!(matches!(
        classify_handshake_status(500, "500 Internal Server Error"),
        Some(ConnectFailure::Other(m)) if m == "handshake HTTP 500"
    ));
    assert!(matches!(
        classify_connect_error("HTTP error: 429 Too Many Requests".to_string()),
        ConnectFailure::Rotatable { status: 429, .. }
    ));
    assert!(matches!(classify_connect_error("dns".to_string()), ConnectFailure::Other(m) if m == "dns"));
}

#[test]
fn connect_failures_rotate_then_give_up() {
    let mut r = KeyRotator::new(vec!["a".into(), "b".into()]).unwrap();
    let f = ConnectFailure::Rotatable { status: 401, message: "401 Unauthorized".into() };
    assert!(after_connect_failure(&mut r, &f).is_ok());
    assert_eq!(r.current_key(), "b");
    let g = ConnectFailure::Other("timed out".into());
    match after_connect_failure(&mut r, &g) {
        Err(CloudError::AllKeysFailed(m)) => assert_eq!(m, "connect: timed out"),
        other => panic!("unexpected {:?}", other),
    }
    assert_eq!(r.last_error(), Some("connect: timed out"));
}

#[test]
fn a_rotator_cycles_once_and_then_stays_exhausted() {
    let mut rotator = KeyRotator::new(vec![" a ".into(), "".into(), "b".into(), "c".into()]).unwrap();
    assert_eq!(rotator.current_key(), "a");
    assert_eq!(rotator.fail_and_advance("e1"), Some("b"));
    assert_eq!(rotator.fail_and_advance("e2"), Some("c"));
    assert_eq!(rotator.fail_and_advance("e3"), None);
    assert_eq!(rotator.fail_and_advance("e4"), None);
    assert_eq!(rotator.current_key(), "c");
    assert_eq!(rotator.tried(), 3);
    assert_eq!(rotator.last_error(), Some("e4"));
}
