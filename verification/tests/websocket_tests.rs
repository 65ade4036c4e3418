use deploy_bot::websocket::{
    forwards_message, forwards_to_stream, stream_step, StreamAction, StreamEvent,
};

#[test]
fn stream_forwarding() {
    assert!(forwards_to_stream("abc", Some("abc")));
    assert!(!forwards_to_stream("abc", Some("abd")));
    assert!(!forwards_to_stream("abc", None));
}

#[test]
fn message_forwarded_only_to_its_deployment() {
    let msg = r#"{"id":1,"deployment_id":"abc","level":"info","message":"Pulling repository..."}"#;
    assert!(forwards_message("abc", msg));
    assert!(!forwards_message("abd", msg));
    assert!(!forwards_message("ab", msg));
}

#[test]
fn message_without_deployment_is_not_forwarded() {
    assert!(!forwards_message("abc", "not json"));
    assert!(!forwards_message("abc", r#"{"level":"info"}"#));
    assert!(!forwards_message("abc", r#"{"deployment_id":7}"#));
    assert!(!forwards_message("abc", r#"["deployment_id","abc"]"#));
    // The message text itself is never taken for the deployment's name.
    assert!(!forwards_message("abc", "abc"));
}

#[test]
fn stream_sends_its_own_messages() {
    let msg = r#"{"deployment_id":"abc","message":"done"}"#.to_string();
    match stream_step("abc", StreamEvent::Broadcast(msg.clone())) {
        StreamAction::Send(m) => assert_eq!(m, msg),
        other => panic!("expected a send, got {:?}", other),
    }
    assert!(matches!(
        stream_step("xyz", StreamEvent::Broadcast(msg)),
        StreamAction::Continue
    ));
}

#[test]
fn stream_passes_over_client_messages_and_lag() {
    assert!(matches!(stream_step("abc", StreamEvent::ClientMessage), StreamAction::Continue));
    assert!(matches!(stream_step("abc", StreamEvent::Lagged), StreamAction::Continue));
}

#[test]
fn stream_ends_on_close_errors_and_channel_end() {
    assert!(matches!(stream_step("abc", StreamEvent::ClientClosed), StreamAction::Stop));
    assert!(matches!(stream_step("abc", StreamEvent::ClientError), StreamAction::Stop));
    assert!(matches!(stream_step("abc", StreamEvent::ChannelClosed), StreamAction::Stop));
    assert!(matches!(stream_step("abc", StreamEvent::SendFailed), StreamAction::Stop));
}
