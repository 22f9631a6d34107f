use villflow::completion::CloudError;
use villflow::session::{
    classify_message_type, resend_plan, MessageKind, ResendStep, SessionAction, SessionEvent, SessionState,
};
use villflow::stt::RotatableError;

#[test]
fn message_kinds() {
    assert_eq!(classify_message_type("session_started"), MessageKind::SessionStarted);
    assert_eq!(classify_message_type("committed_transcript_with_timestamps"), MessageKind::Committed);
    assert_eq!(classify_message_type("quota_exceeded"), MessageKind::Rotate(RotatableError::Quota));
    assert_eq!(classify_message_type("some_error"), MessageKind::Fatal);
    assert_eq!(classify_message_type("queue_overflow"), MessageKind::Fatal);
    assert_eq!(classify_message_type("heartbeat"), MessageKind::Ignored);
}

#[test]
fn audio_buffers_until_session_started() {
    let mut s = SessionState::new();
    assert!(matches!(s.step(SessionEvent::Audio { within_start_window: true }), SessionAction::Wait));
    assert!(matches!(
        s.step(SessionEvent::ServerText(r#"{"message_type":"session_started"}"#.into())),
        SessionAction::Flush
    ));
    assert!(matches!(s.step(SessionEvent::SendOutcome(Ok(()))), SessionAction::Wait));
    assert!(matches!(s.step(SessionEvent::Audio { within_start_window: true }), SessionAction::SendChunk));
}

#[test]
fn commit_gets_transcript() {
    let mut s = SessionState::new();
    assert!(matches!(s.step(SessionEvent::Commit), SessionAction::Flush));
    assert!(matches!(s.step(SessionEvent::SendOutcome(Ok(()))), SessionAction::SendCommit));
    assert!(matches!(s.step(SessionEvent::SendOutcome(Ok(()))), SessionAction::Wait));
    assert!(matches!(s.step(SessionEvent::ServerText(r#"{"message_type":"partial_transcript","text":"he"}"#.into())), SessionAction::Publish(t) if t == "he"));
    let done = s.step(SessionEvent::ServerText(r#"{"message_type":"committed_transcript","text":"hello"}"#.into()));
    assert!(matches!(done, SessionAction::Finish { reply: Some(Ok(t)), close: true } if t == "hello"));
    assert!(s.is_done());
}

#[test]
fn early_transcript_is_held_for_commit() {
    let mut s = SessionState::new();
    s.step(SessionEvent::ServerText(r#"{"message_type":"session_started"}"#.into()));
    s.step(SessionEvent::SendOutcome(Ok(())));
    assert!(matches!(
        s.step(SessionEvent::ServerText(r#"{"message_type":"committed_transcript","text":"early"}"#.into())),
        SessionAction::Wait
    ));
    assert!(matches!(s.step(SessionEvent::Commit), SessionAction::Finish { reply: Some(Ok(t)), close: true } if t == "early"));
}

#[test]
fn rotation_error_reconnects_and_resends_commit() {
    let mut s = SessionState::new();
    s.step(SessionEvent::Commit);
    s.step(SessionEvent::SendOutcome(Ok(())));
    s.step(SessionEvent::SendOutcome(Ok(())));
    assert!(matches!(
        s.step(SessionEvent::ServerText(r#"{"message_type":"auth_error","error":"bad key"}"#.into())),
        SessionAction::Reconnect(t) if t == "bad key"
    ));
    assert!(matches!(s.step(SessionEvent::ReconnectOutcome(Ok(()))), SessionAction::ResendCommit));
    assert!(matches!(
        s.step(SessionEvent::ResendOutcome(Err("broken pipe".into()))),
        SessionAction::Finish { reply: Some(Err(CloudError::WebSocket(m))), close: false } if m == "broken pipe"
    ));
}

#[test]
fn socket_loss_is_reported_on_commit() {
    let mut s = SessionState::new();
    assert!(matches!(s.step(SessionEvent::SocketClosed), SessionAction::Wait));
    assert!(matches!(s.step(SessionEvent::Audio { within_start_window: false }), SessionAction::Wait));
    match s.step(SessionEvent::Commit) {
        SessionAction::Finish { reply: Some(Err(CloudError::WebSocket(m))), close: false } => {
            assert_eq!(m, "WebSocket closed unexpectedly")
        }
        other => panic!("unexpected {:?}", other),
    }
}

#[test]
fn fatal_server_error_and_caller_leaving() {
    let mut s = SessionState::new();
    s.step(SessionEvent::ServerText(r#"{"message_type":"input_error"}"#.into()));
    assert!(matches!(s.step(SessionEvent::Commit), SessionAction::Finish { reply: Some(Err(CloudError::Message(m))), .. } if m == "input_error"));
    let mut t = SessionState::new();
    assert!(matches!(t.step(SessionEvent::Ping), SessionAction::Pong));
    assert!(matches!(t.step(SessionEvent::ServerText("garbage".into())), SessionAction::Wait));
    assert!(matches!(t.step(SessionEvent::CommandsClosed), SessionAction::Finish { reply: None, close: false }));
}

#[test]
fn a_fresh_connection_gets_the_buffer_then_the_commit() {
    assert_eq!(resend_plan(3, false), vec![ResendStep::Chunk(0), ResendStep::Chunk(1), ResendStep::Chunk(2)]);
    assert_eq!(resend_plan(2, true), vec![ResendStep::Chunk(0), ResendStep::Chunk(1), ResendStep::Commit]);
    assert_eq!(resend_plan(0, true), vec![ResendStep::Commit]);
    assert!(resend_plan(0, false).is_empty());
}
