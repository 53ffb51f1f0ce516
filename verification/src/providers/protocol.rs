//! What an adapter to a protocol-driven provider decides: the role of
//! a message, what becomes of an event of a response stream, and the
//! name under which a model is addressed. The calls to the provider
//! are left to the caller.

use vstd::prelude::*;
use crate::text::join3;

verus! {

/// What a provider can do natively.
#[derive(Debug, Clone, Copy, PartialEq, Eq, Structural)]
pub struct ProviderCapabilities {
    pub native_tool_calling: bool,
    pub vision: bool,
}

/// The capabilities of a protocol-driven provider: tool calling and
/// vision.
pub fn protocol_capabilities() -> (c: ProviderCapabilities)
    ensures
        c.native_tool_calling,
        c.vision,
{
    ProviderCapabilities { native_tool_calling: true, vision: true }
}

/// Who speaks in a message.
#[derive(Debug, Clone, Copy, PartialEq, Eq, Structural)]
pub enum MessageRole {
    System,
    User,
    Assistant,
}

/// The role that a word names: `system` and `assistant` themselves,
/// and the user for every other word.
pub open spec fn role_named(word: Seq<char>) -> MessageRole {
    if word == "system"@ {
        MessageRole::System
    } else if word == "assistant"@ {
        MessageRole::Assistant
    } else {
        MessageRole::User
    }
}

/// The role that a word names.
pub fn message_role(role: &str) -> (r: MessageRole)
    ensures
        r == role_named(role@),
{
    let word = String::from_str(role);
    if word == String::from_str("system") {
        MessageRole::System
    } else if word == String::from_str("assistant") {
        MessageRole::Assistant
    } else {
        MessageRole::User
    }
}

/// The name under which a model of a provider is addressed:
/// provider, a slash, model.
pub fn model_name(provider_id: &str, model_id: &str) -> (name: String)
    ensures
        name@ == provider_id@ + "/"@ + model_id@,
{
    join3(provider_id, "/", model_id)
}

/// One event of a response stream, as far as the adapter reads it.
#[derive(Debug, Clone)]
pub enum StreamEvent {
    /// A piece of content.
    ContentDelta(String),
    /// The end of the stream.
    End,
    /// An event that carries no content.
    Other,
    /// The stream broke, with this message.
    Failed(String),
}

/// One item of the sequence that the adapter hands on.
#[derive(Debug, Clone)]
pub enum StreamChunk {
    /// A piece of content.
    Delta(String),
    /// The last item of a stream that ended well.
    Final,
    /// The last item of a stream that broke.
    Error(String),
}

/// What the adapter does with one event.
#[derive(Debug, Clone)]
pub struct StreamStep {
    /// The item to hand on, if any.
    pub emit: Option<StreamChunk>,
    /// Whether the stream is over.
    pub stop: bool,
}

/// What the adapter does with an event: a piece of content that is not
/// empty is handed on; the end of the stream is handed on as the final
/// item and a failure as an error item, and both end the sequence;
/// everything else is passed over.
pub open spec fn step_for(event: StreamEvent) -> StreamStep {
    match event {
        StreamEvent::ContentDelta(content) => if content@.len() == 0 {
            StreamStep { emit: None, stop: false }
        } else {
            StreamStep { emit: Some(StreamChunk::Delta(content)), stop: false }
        },
        StreamEvent::End => StreamStep { emit: Some(StreamChunk::Final), stop: true },
        StreamEvent::Other => StreamStep { emit: None, stop: false },
        StreamEvent::Failed(message) => StreamStep {
            emit: Some(StreamChunk::Error(message)),
            stop: true,
        },
    }
}

/// What the adapter does with an event.
pub fn stream_step(event: StreamEvent) -> (step: StreamStep)
    ensures
        step == step_for(event),
{
    match event {
        StreamEvent::ContentDelta(content) => {
            if content.as_str().is_empty() {
                StreamStep { emit: None, stop: false }
            } else {
                StreamStep { emit: Some(StreamChunk::Delta(content)), stop: false }
            }
        },
        StreamEvent::End => StreamStep { emit: Some(StreamChunk::Final), stop: true },
        StreamEvent::Other => StreamStep { emit: None, stop: false },
        StreamEvent::Failed(message) => StreamStep {
            emit: Some(StreamChunk::Error(message)),
            stop: true,
        },
    }
}

} // verus!
