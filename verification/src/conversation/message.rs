//! A conversation's messages: who they are from, how far they have come,
//! what they hold (text, tool calls and their results), and their versions.
use vstd::prelude::*;

use crate::strings::opt_view;

use crate::dialogue::{ParticipantColor, ParticipantId};

verus! {

/// Who a message is from.
#[derive(Debug, Clone, Copy, Eq, PartialEq, Structural)]
pub enum MessageRole {
    User,
    Assistant,
    Tool,
    Error,
}

/// How far a message has come.
#[derive(Debug, Clone, Copy, Eq, PartialEq, Structural)]
pub enum MessageState {
    Pending,
    Streaming,
    Complete,
    Error,
}

/// A function a model asks to call, with its arguments as JSON text.
#[derive(Debug, Clone)]
pub struct FunctionCall {
    pub name: String,
    pub arguments: String,
}

/// A tool call as a model sends it.
#[derive(Debug, Clone)]
pub struct ToolCall {
    pub id: String,
    /// The kind of call; "function" for function calls.
    pub call_type: String,
    pub function: FunctionCall,
}

/// A tool call as a message shows it.
#[derive(Debug, Clone)]
pub struct ToolInvocation {
    pub id: String,
    pub name: String,
    pub arguments: String,
    /// Whether the call is still arriving.
    pub partial: bool,
}

impl ToolInvocation {
    /// The complete invocation of `call`.
    pub fn from_call(call: &ToolCall) -> (t: Self)
        ensures
            t.id@ == call.id@,
            t.name@ == call.function.name@,
            t.arguments@ == call.function.arguments@,
            !t.partial,
    {
        ToolInvocation {
            id: call.id.clone(),
            name: call.function.name.clone(),
            arguments: call.function.arguments.clone(),
            partial: false,
        }
    }
}

/// What a tool call gave back.
#[derive(Debug, Clone)]
pub struct ToolResult {
    pub id: String,
    pub name: String,
    pub output: String,
    pub success: bool,
}

impl ToolResult {
    /// The result of a call that worked.
    pub fn success(id: String, name: String, output: String) -> (r: Self)
        ensures
            r.id == id,
            r.name == name,
            r.output == output,
            r.success,
    {
        ToolResult { id, name, output, success: true }
    }

    /// The result of a call that failed.
    pub fn failure(id: String, name: String, output: String) -> (r: Self)
        ensures
            r.id == id,
            r.name == name,
            r.output == output,
            !r.success,
    {
        ToolResult { id, name, output, success: false }
    }

    /// The result as a function call whose arguments are the output, to send back to the model.
    pub fn as_tool_call(&self) -> (c: ToolCall)
        ensures
            c.id@ == self.id@,
            c.call_type@ == "function"@,
            c.function.name@ == self.name@,
            c.function.arguments@ == self.output@,
    {
        ToolCall {
            id: self.id.clone(),
            call_type: String::from_str("function"),
            function: FunctionCall { name: self.name.clone(), arguments: self.output.clone() },
        }
    }
}

/// What a message holds.
#[derive(Debug, Clone)]
pub enum MessageKind {
    Text(String),
    ToolCall(ToolInvocation),
    ToolResult(ToolResult),
    Error(String),
}

/// The identifier of a conversation: a random UUID, as its 128-bit number.
#[derive(Debug, Clone, Copy, PartialEq, Eq, Hash, Structural)]
pub struct ConversationId(pub u128);

/// The identifier of a message: a random UUID, as its 128-bit number.
#[derive(Debug, Clone, Copy, PartialEq, Eq, Hash, Structural)]
pub struct MessageId(pub u128);

/// A version-4 (random) UUID of the RFC 4122 variant, as its 128-bit number:
/// the version nibble is 4 and the two top variant bits are `10`.
pub open spec fn is_random_uuid(v: u128) -> bool {
    &&& (v >> 76u128) & 0xfu128 == 4
    &&& (v >> 62u128) & 3u128 == 2
}

/// `uuid::Uuid::new_v4`, as its 128-bit number. Its bits are random but for
/// the version and variant bits, which its source sets (by masking the random
/// number and setting `0x4000_8000_0000_0000_0000`); nothing else is stated.
#[verifier::external_body]
pub(crate) fn new_uuid() -> (v: u128)
    ensures
        is_random_uuid(v),
{
    uuid::Uuid::new_v4().as_u128()
}

/// `chrono::Utc::now`, in milliseconds since the Unix epoch. It is the
/// clock's reading, so nothing is stated of it.
#[verifier::external_body]
pub(crate) fn now_millis() -> (t: i64) {
    chrono::Utc::now().timestamp_millis()
}

impl ConversationId {
    /// A fresh random identifier: a version-4 UUID.
    pub fn new() -> (id: Self)
        ensures
            is_random_uuid(id.0),
    {
        ConversationId(new_uuid())
    }
}

impl MessageId {
    /// A fresh random identifier: a version-4 UUID.
    pub fn new() -> (id: Self)
        ensures
            is_random_uuid(id.0),
    {
        MessageId(new_uuid())
    }
}

/// The abstract value of a message's content.
pub enum KindModel {
    Text(Seq<char>),
    ToolCall { id: Seq<char>, name: Seq<char>, arguments: Seq<char>, partial: bool },
    ToolResult { id: Seq<char>, name: Seq<char>, output: Seq<char>, success: bool },
    Error(Seq<char>),
}

impl View for MessageKind {
    type V = KindModel;

    open spec fn view(&self) -> KindModel {
        match self {
            MessageKind::Text(t) => KindModel::Text(t@),
            MessageKind::ToolCall(c) => KindModel::ToolCall {
                id: c.id@,
                name: c.name@,
                arguments: c.arguments@,
                partial: c.partial,
            },
            MessageKind::ToolResult(r) => KindModel::ToolResult {
                id: r.id@,
                name: r.name@,
                output: r.output@,
                success: r.success,
            },
            MessageKind::Error(e) => KindModel::Error(e@),
        }
    }
}

impl MessageKind {
    /// A copy of this content.
    pub fn copy(&self) -> (k: Self)
        ensures
            k@ == self@,
    {
        match self {
            MessageKind::Text(t) => MessageKind::Text(t.clone()),
            MessageKind::ToolCall(c) => MessageKind::ToolCall(
                ToolInvocation {
                    id: c.id.clone(),
                    name: c.name.clone(),
                    arguments: c.arguments.clone(),
                    partial: c.partial,
                },
            ),
            MessageKind::ToolResult(r) => MessageKind::ToolResult(
                ToolResult {
                    id: r.id.clone(),
                    name: r.name.clone(),
                    output: r.output.clone(),
                    success: r.success,
                },
            ),
            MessageKind::Error(e) => MessageKind::Error(e.clone()),
        }
    }
}

/// Where a message came from (the token counts the provider reports are
/// kept by the caller).
#[derive(Debug, Clone)]
pub struct MessageMetadata {
    pub provider: Option<String>,
    pub model: Option<String>,
    pub latency_ms: Option<u128>,
    /// The participant of a dialogue that wrote it.
    pub participant_id: Option<ParticipantId>,
    pub participant_name: Option<String>,
    pub participant_color: Option<ParticipantColor>,
}

/// The abstract value of a message's metadata.
pub struct MetadataModel {
    pub provider: Option<Seq<char>>,
    pub model: Option<Seq<char>>,
    pub latency_ms: Option<u128>,
    pub participant_id: Option<ParticipantId>,
    pub participant_name: Option<Seq<char>>,
    pub participant_color: Option<ParticipantColor>,
}

/// A copy of an optional string.
pub fn copy_opt(o: &Option<String>) -> (r: Option<String>)
    ensures
        opt_view(r) == opt_view(*o),
{
    match o {
        Some(s) => Some(s.clone()),
        None => None,
    }
}

impl View for MessageMetadata {
    type V = MetadataModel;

    open spec fn view(&self) -> MetadataModel {
        MetadataModel {
            provider: opt_view(self.provider),
            model: opt_view(self.model),
            latency_ms: self.latency_ms,
            participant_id: self.participant_id,
            participant_name: opt_view(self.participant_name),
            participant_color: self.participant_color,
        }
    }
}

impl Default for MessageMetadata {
    fn default() -> (m: Self)
        ensures
            m@ == (MetadataModel {
                provider: None,
                model: None,
                latency_ms: None,
                participant_id: None,
                participant_name: None,
                participant_color: None,
            }),
    {
        MessageMetadata {
            provider: None,
            model: None,
            latency_ms: None,
            participant_id: None,
            participant_name: None,
            participant_color: None,
        }
    }
}

impl MessageMetadata {
    /// A copy of this metadata.
    pub fn copy(&self) -> (m: Self)
        ensures
            m@ == self@,
    {
        MessageMetadata {
            provider: copy_opt(&self.provider),
            model: copy_opt(&self.model),
            latency_ms: self.latency_ms,
            participant_id: self.participant_id,
            participant_name: copy_opt(&self.participant_name),
            participant_color: self.participant_color,
        }
    }
}

/// One message of a conversation.
#[derive(Debug, Clone)]
pub struct ConversationMessage {
    pub id: MessageId,
    pub role: MessageRole,
    pub kind: MessageKind,
    pub state: MessageState,
    /// When it was made, in milliseconds since the Unix epoch.
    pub timestamp: i64,
    pub metadata: MessageMetadata,
    /// Goes up by one with each change of its content.
    pub version: u64,
}

/// The abstract value of a message.
pub struct MessageModel {
    pub id: MessageId,
    pub role: MessageRole,
    pub kind: KindModel,
    pub state: MessageState,
    pub timestamp: i64,
    pub metadata: MetadataModel,
    pub version: u64,
}

impl View for ConversationMessage {
    type V = MessageModel;

    open spec fn view(&self) -> MessageModel {
        MessageModel {
            id: self.id,
            role: self.role,
            kind: self.kind@,
            state: self.state,
            timestamp: self.timestamp,
            metadata: self.metadata@,
            version: self.version,
        }
    }
}

/// The next version number, staying at the largest one.
pub open spec fn bumped(v: u64) -> u64 {
    if v == u64::MAX {
        v
    } else {
        (v + 1) as u64
    }
}

impl ConversationMessage {
    /// A new pending message, at version 0, with a fresh identifier, the
    /// current time and no metadata.
    pub fn new(role: MessageRole, kind: MessageKind) -> (m: Self)
        ensures
            is_random_uuid(m.id.0),
            m.role == role,
            m.kind@ == kind@,
            m.state == MessageState::Pending,
            m.version == 0,
            m.metadata@ == MessageMetadata::default_model(),
    {
        ConversationMessage {
            id: MessageId::new(),
            role,
            kind,
            state: MessageState::Pending,
            timestamp: now_millis(),
            metadata: MessageMetadata::default(),
            version: 0,
        }
    }

    /// Counts one more change.
    pub fn bump_version(&mut self)
        ensures
            final(self)@ == (MessageModel { version: bumped(old(self).version), ..old(self)@ }),
    {
        self.version = self.version.saturating_add(1);
    }

    /// Appends `delta` to a text message, counting the change; other
    /// messages are left as they are.
    pub fn update_text(&mut self, delta: &str)
        ensures
            match old(self)@.kind {
                KindModel::Text(t) => final(self)@ == (MessageModel {
                    kind: KindModel::Text(t + delta@),
                    version: bumped(old(self).version),
                    ..old(self)@
                }),
                _ => final(self)@ == old(self)@,
            },
    {
        match &mut self.kind {
            MessageKind::Text(text) => {
                text.append(delta);
            },
            _ => {
                return;
            },
        }
        self.bump_version();
    }

    /// Replaces the content, counting the change.
    pub fn replace_kind(&mut self, kind: MessageKind)
        ensures
            final(self)@ == (MessageModel { kind: kind@, version: bumped(old(self).version), ..old(self)@ }),
    {
        self.kind = kind;
        self.bump_version();
    }

    /// A copy of this message.
    pub fn copy(&self) -> (m: Self)
        ensures
            m@ == self@,
    {
        ConversationMessage {
            id: self.id,
            role: self.role,
            kind: self.kind.copy(),
            state: self.state,
            timestamp: self.timestamp,
            metadata: self.metadata.copy(),
            version: self.version,
        }
    }
}

impl MessageMetadata {
    /// The metadata of a new message: nothing known.
    pub open spec fn default_model() -> MetadataModel {
        MetadataModel {
            provider: None,
            model: None,
            latency_ms: None,
            participant_id: None,
            participant_name: None,
            participant_color: None,
        }
    }
}

} // verus!
