//! The chat messages a conversation's messages are sent to a provider as.
use vstd::prelude::*;

use crate::conversation::message::{
    ConversationMessage, FunctionCall, KindModel, MessageKind, MessageModel, MessageRole, ToolCall,
    ToolInvocation,
};
use crate::conversation::state::messages_view;

verus! {

/// Who a chat message is from, as providers see it.
#[derive(Debug, Clone, Copy, PartialEq, Eq, Structural)]
pub enum ChatRole {
    User,
    Assistant,
}

/// What a chat message carries.
#[derive(Debug, Clone)]
pub enum ChatBody {
    Text(String),
    /// Tool calls the assistant made.
    ToolUse(Vec<ToolCall>),
    /// The results of tool calls, each as a call whose arguments are the output.
    ToolResult(Vec<ToolCall>),
}

/// A message as a provider receives it.
#[derive(Debug, Clone)]
pub struct ChatMessage {
    pub role: ChatRole,
    pub body: ChatBody,
}

/// The abstract value of a tool call: identifier, kind, function name, arguments.
pub open spec fn call_view(c: ToolCall) -> (Seq<char>, Seq<char>, Seq<char>, Seq<char>) {
    (c.id@, c.call_type@, c.function.name@, c.function.arguments@)
}

/// The abstract value of a chat message's body.
pub enum ChatBodyModel {
    Text(Seq<char>),
    ToolUse(Seq<(Seq<char>, Seq<char>, Seq<char>, Seq<char>)>),
    ToolResult(Seq<(Seq<char>, Seq<char>, Seq<char>, Seq<char>)>),
}

impl View for ChatMessage {
    type V = (ChatRole, ChatBodyModel);

    open spec fn view(&self) -> (ChatRole, ChatBodyModel) {
        (
            self.role,
            match self.body {
                ChatBody::Text(t) => ChatBodyModel::Text(t@),
                ChatBody::ToolUse(v) => ChatBodyModel::ToolUse(v@.map_values(|c: ToolCall| call_view(c))),
                ChatBody::ToolResult(v) => ChatBodyModel::ToolResult(
                    v@.map_values(|c: ToolCall| call_view(c)),
                ),
            },
        )
    }
}

/// The chat message a conversation message is sent as: the user's and the
/// assistant's text as such; a tool call as the assistant's use of that
/// function; a tool result as the assistant's result, carrying the output;
/// nothing for errors and for text from tools.
pub open spec fn chat_message_spec(m: MessageModel) -> Option<(ChatRole, ChatBodyModel)> {
    match m.kind {
        KindModel::Text(t) => if m.role == MessageRole::User {
            Some((ChatRole::User, ChatBodyModel::Text(t)))
        } else if m.role == MessageRole::Assistant {
            Some((ChatRole::Assistant, ChatBodyModel::Text(t)))
        } else {
            None
        },
        KindModel::ToolCall { id, name, arguments, partial } => Some(
            (ChatRole::Assistant, ChatBodyModel::ToolUse(seq![(id, "function"@, name, arguments)])),
        ),
        KindModel::ToolResult { id, name, output, success } => Some(
            (ChatRole::Assistant, ChatBodyModel::ToolResult(seq![(id, "function"@, name, output)])),
        ),
        KindModel::Error(_) => None,
    }
}

/// The function call a tool invocation stands for.
pub fn invocation_to_call(invocation: &ToolInvocation) -> (c: ToolCall)
    ensures
        call_view(c) == (invocation.id@, "function"@, invocation.name@, invocation.arguments@),
{
    ToolCall {
        id: invocation.id.clone(),
        call_type: String::from_str("function"),
        function: FunctionCall {
            name: invocation.name.clone(),
            arguments: invocation.arguments.clone(),
        },
    }
}

/// The chat message `message` is sent as, if any.
pub fn to_chat_message(message: &ConversationMessage) -> (r: Option<ChatMessage>)
    ensures
        match r {
            Some(c) => chat_message_spec(message@) == Some(c@),
            None => chat_message_spec(message@) is None,
        },
{
    match &message.kind {
        MessageKind::Text(content) => match message.role {
            MessageRole::User => Some(ChatMessage { role: ChatRole::User, body: ChatBody::Text(content.clone()) }),
            MessageRole::Assistant => Some(
                ChatMessage { role: ChatRole::Assistant, body: ChatBody::Text(content.clone()) },
            ),
            _ => None,
        },
        MessageKind::ToolCall(invocation) => {
            let call = invocation_to_call(invocation);
            let calls = vec![call];
            assert(calls@.map_values(|c: ToolCall| call_view(c)) =~= seq![call_view(call)]);
            Some(ChatMessage { role: ChatRole::Assistant, body: ChatBody::ToolUse(calls) })
        },
        MessageKind::ToolResult(result) => {
            let call = result.as_tool_call();
            let calls = vec![call];
            assert(calls@.map_values(|c: ToolCall| call_view(c)) =~= seq![call_view(call)]);
            Some(ChatMessage { role: ChatRole::Assistant, body: ChatBody::ToolResult(calls) })
        },
        MessageKind::Error(_) => None,
    }
}

/// A tool-call message is sent as the assistant's use of exactly one call,
/// a function call whose identifier, name and arguments are the
/// invocation's.
pub proof fn law_tool_call_is_sent_as_that_call(m: MessageModel)
    requires
        m.kind is ToolCall,
    ensures
        chat_message_spec(m) == Some(
            (
                ChatRole::Assistant,
                ChatBodyModel::ToolUse(
                    seq![(m.kind->ToolCall_id, "function"@, m.kind->ToolCall_name, m.kind->ToolCall_arguments)],
                ),
            ),
        ),
{
}

/// A tool result is sent under the identifier and name of the call it
/// answers: a call and a result with the same identifier and name are sent
/// with the same identifier and name, so the provider can pair them.
pub proof fn law_tool_result_matches_its_call(call: MessageModel, result: MessageModel)
    requires
        call.kind is ToolCall,
        result.kind is ToolResult,
        call.kind->ToolCall_id == result.kind->ToolResult_id,
        call.kind->ToolCall_name == result.kind->ToolResult_name,
    ensures
        ({
            &&& chat_message_spec(call) matches Some((_, ChatBodyModel::ToolUse(uses)))
            &&& chat_message_spec(result) matches Some((_, ChatBodyModel::ToolResult(results)))
            &&& uses.len() == 1 && results.len() == 1
            &&& uses[0].0 == results[0].0 && uses[0].2 == results[0].2
        }),
{
}

/// The chat messages of `msgs`, in order, skipping those that are not sent.
pub open spec fn chat_messages_spec(msgs: Seq<MessageModel>) -> Seq<(ChatRole, ChatBodyModel)>
    decreases msgs.len(),
{
    if msgs.len() == 0 {
        seq![]
    } else {
        let rest = chat_messages_spec(msgs.drop_last());
        match chat_message_spec(msgs.last()) {
            Some(c) => rest.push(c),
            None => rest,
        }
    }
}

/// The chat messages a conversation's messages are sent as, in order.
pub fn to_chat_messages(messages: &Vec<ConversationMessage>) -> (out: Vec<ChatMessage>)
    ensures
        out@.map_values(|c: ChatMessage| c@) == chat_messages_spec(messages_view(messages@)),
{
    let ghost all = messages_view(messages@);
    let mut out: Vec<ChatMessage> = Vec::new();
    let mut i: usize = 0;
    while i < messages.len()
        invariant
            0 <= i <= messages@.len(),
            all == messages_view(messages@),
            out@.map_values(|c: ChatMessage| c@) == chat_messages_spec(all.subrange(0, i as int)),
        decreases messages.len() - i,
    {
        let ghost before = out@;
        assert(all.subrange(0, i + 1).drop_last() =~= all.subrange(0, i as int));
        assert(all.subrange(0, i + 1).last() == messages@[i as int]@);
        match to_chat_message(&messages[i]) {
            Some(c) => {
                out.push(c);
                assert(out@.map_values(|c: ChatMessage| c@) =~= before.map_values(|c: ChatMessage| c@).push(c@));
            },
            None => {},
        }
        i = i + 1;
    }
    assert(all.subrange(0, i as int) =~= all);
    out
}

} // verus!
