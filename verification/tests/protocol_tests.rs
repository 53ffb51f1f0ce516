use zerospider::providers::protocol::{
    message_role, model_name, protocol_capabilities, stream_step, MessageRole, StreamChunk,
    StreamEvent,
};

#[test]
fn test_convert_messages() {
    let messages = vec![("system", "You are helpful."), ("user", "Hello")];
    let converted: Vec<(MessageRole, &str)> = messages
        .iter()
        .map(|m| (message_role(m.0), m.1))
        .collect();
    assert_eq!(converted.len(), 2);
    assert_eq!(converted[0], (MessageRole::System, "You are helpful."));
    assert_eq!(converted[1], (MessageRole::User, "Hello"));
}

#[test]
fn unknown_roles_speak_as_the_user() {
    assert_eq!(message_role("system"), MessageRole::System);
    assert_eq!(message_role("assistant"), MessageRole::Assistant);
    assert_eq!(message_role("user"), MessageRole::User);
    assert_eq!(message_role("tool"), MessageRole::User);
    assert_eq!(message_role("System"), MessageRole::User);
    assert_eq!(message_role(""), MessageRole::User);
}

#[test]
fn model_is_addressed_as_provider_slash_model() {
    assert_eq!(model_name("openai", "gpt-4o"), "openai/gpt-4o");
    assert!(protocol_capabilities().native_tool_calling);
    assert!(protocol_capabilities().vision);
}

#[test]
fn stream_events_become_chunks() {
    let step = stream_step(StreamEvent::ContentDelta("Hel".to_string()));
    assert!(matches!(step.emit, Some(StreamChunk::Delta(ref s)) if s == "Hel"));
    assert!(!step.stop);
    let step = stream_step(StreamEvent::ContentDelta(String::new()));
    assert!(step.emit.is_none());
    assert!(!step.stop);
    let step = stream_step(StreamEvent::Other);
    assert!(step.emit.is_none());
    assert!(!step.stop);
    let step = stream_step(StreamEvent::End);
    assert!(matches!(step.emit, Some(StreamChunk::Final)));
    assert!(step.stop);
    let step = stream_step(StreamEvent::Failed("reset".to_string()));
    assert!(matches!(step.emit, Some(StreamChunk::Error(ref s)) if s == "reset"));
    assert!(step.stop);
}
