//! Deciding whether a tool call the model asks for runs, and the call that
//! carries its output back; and the prompt read from piped input.
use vstd::prelude::*;

use crate::config::ToolExecutionMode;
use crate::conversation::convert::{call_view, ChatBody, ChatBodyModel, ChatMessage, ChatRole};
use crate::conversation::message::{FunctionCall, ToolCall};
use crate::strings::{chars_of, string_from_chars};
use crate::text::{all_ws, is_blank, trim, trim_bounds, trim_end};

verus! {

/// Whether a tool call runs.
#[derive(Debug, Clone)]
pub enum ToolDecision {
    Execute,
    /// Not run, for this reason (sent back to the model as the output).
    Decline(String),
}

/// What the execution setting says before anyone is asked.
#[derive(Debug, Clone)]
pub enum ToolGate {
    /// Decided: run it, or not and why.
    Decided(ToolDecision),
    /// Ask the user at the terminal.
    AskUser,
}

/// The decision the execution setting gives: always run, never run, or ask
/// the user, which can only be done when input comes from a terminal.
pub fn tool_gate(mode: ToolExecutionMode, stdin_is_tty: bool) -> (g: ToolGate)
    ensures
        match mode {
            ToolExecutionMode::Always => g matches ToolGate::Decided(ToolDecision::Execute),
            ToolExecutionMode::Never => g matches ToolGate::Decided(ToolDecision::Decline(r)) && r@
                == "Tool execution disabled"@,
            ToolExecutionMode::Ask => if stdin_is_tty {
                g is AskUser
            } else {
                g matches ToolGate::Decided(ToolDecision::Decline(r)) && r@
                    == "Tool execution requires approval"@
            },
        },
{
    match mode {
        ToolExecutionMode::Always => ToolGate::Decided(ToolDecision::Execute),
        ToolExecutionMode::Never => ToolGate::Decided(
            ToolDecision::Decline(String::from_str("Tool execution disabled")),
        ),
        ToolExecutionMode::Ask => if stdin_is_tty {
            ToolGate::AskUser
        } else {
            ToolGate::Decided(ToolDecision::Decline(String::from_str("Tool execution requires approval")))
        },
    }
}

/// Whether the user's answer to "Run tool? [y/N]" approves: `y` or `Y`,
/// white space around it ignored.
pub fn approves(answer: &str) -> (b: bool)
    ensures
        b == (trim(answer@) == "y"@ || trim(answer@) == "Y"@),
{
    let v = chars_of(answer);
    let (lo, hi) = trim_bounds(&v);
    let t = string_from_chars(&v.as_slice()[lo..hi]);
    crate::text::same_text(t.as_str(), "y") || crate::text::same_text(t.as_str(), "Y")
}

/// The decision once the user has answered.
pub fn approval_decision(approved: bool) -> (d: ToolDecision)
    ensures
        approved ==> d is Execute,
        !approved ==> (d matches ToolDecision::Decline(r) && r@ == "Tool execution declined"@),
{
    if approved {
        ToolDecision::Execute
    } else {
        ToolDecision::Decline(String::from_str("Tool execution declined"))
    }
}

/// The call that carries a tool's output back to the model: the same call,
/// with the output as its arguments; a failed call is marked a function call.
pub fn tool_result_call(call: &ToolCall, output: String, success: bool) -> (r: ToolCall)
    ensures
        r.id@ == call.id@,
        r.call_type@ == if success {
            call.call_type@
        } else {
            "function"@
        },
        r.function.name@ == call.function.name@,
        r.function.arguments == output,
{
    let call_type = if success {
        call.call_type.clone()
    } else {
        String::from_str("function")
    };
    ToolCall {
        id: call.id.clone(),
        call_type,
        function: FunctionCall { name: call.function.name.clone(), arguments: output },
    }
}

/// The prompt piped input gives: the input without trailing white space, or
/// `None` when nothing is left.
pub fn stdin_prompt(input: &str) -> (r: Option<String>)
    ensures
        trim_end(input@).len() == 0 ==> r is None,
        trim_end(input@).len() > 0 ==> (r matches Some(p) && p@ == trim_end(input@)),
{
    let v = chars_of(input);
    let mut hi = v.len();
    while hi > 0 && crate::text::is_whitespace(v[hi - 1])
        invariant
            hi <= v.len(),
            v@ == input@,
            forall|i: int| hi <= i < v.len() ==> crate::text::is_ws(#[trigger] v@[i]),
        decreases hi,
    {
        hi = hi - 1;
    }
    proof {
        crate::text::lemma_trim_end_at(v@, hi as int);
    }
    if hi == 0 {
        None
    } else {
        Some(string_from_chars(&v.as_slice()[0..hi]))
    }
}

/// The abstract values of tool calls.
pub open spec fn calls_view(v: Seq<ToolCall>) -> Seq<(Seq<char>, Seq<char>, Seq<char>, Seq<char>)> {
    v.map_values(|c: ToolCall| call_view(c))
}

/// A copy of the tool calls.
pub fn copy_calls(calls: &Vec<ToolCall>) -> (r: Vec<ToolCall>)
    ensures
        calls_view(r@) == calls_view(calls@),
{
    let mut r: Vec<ToolCall> = Vec::new();
    let mut i: usize = 0;
    while i < calls.len()
        invariant
            0 <= i <= calls@.len(),
            calls_view(r@) == calls_view(calls@).subrange(0, i as int),
        decreases calls.len() - i,
    {
        let c = &calls[i];
        let copy = ToolCall {
            id: c.id.clone(),
            call_type: c.call_type.clone(),
            function: FunctionCall { name: c.function.name.clone(), arguments: c.function.arguments.clone() },
        };
        let ghost before = r@;
        r.push(copy);
        assert(calls_view(r@) =~= calls_view(calls@).subrange(0, i + 1)) by {
            assert(r@ == before.push(copy));
            assert(calls_view(before).len() == before.len());
        }
        i = i + 1;
    }
    assert(calls_view(calls@).subrange(0, i as int) =~= calls_view(calls@));
    r
}

/// The assistant's message for a reply's text; none when the text is blank.
pub fn assistant_message(text: &str) -> (m: Option<ChatMessage>)
    ensures
        all_ws(text@) ==> m is None,
        !all_ws(text@) ==> (m matches Some(c) && c@ == (ChatRole::Assistant, ChatBodyModel::Text(text@))),
{
    if is_blank(text) {
        None
    } else {
        Some(ChatMessage { role: ChatRole::Assistant, body: ChatBody::Text(String::from_str(text)) })
    }
}

/// The chat messages of `v`.
pub open spec fn chat_view(v: Seq<ChatMessage>) -> Seq<(ChatRole, ChatBodyModel)> {
    v.map_values(|c: ChatMessage| c@)
}

/// Adds a reply to the messages sent so far: its text (unless blank), then,
/// when it asks for tools, the assistant's use of them. Whether the exchange
/// is over: it is when no tool is asked for.
pub fn record_reply(messages: &mut Vec<ChatMessage>, text: &str, tool_calls: &Vec<ToolCall>) -> (done: bool)
    ensures
        done == (tool_calls@.len() == 0),
        ({
            let with_text = if all_ws(text@) {
                chat_view(old(messages)@)
            } else {
                chat_view(old(messages)@).push((ChatRole::Assistant, ChatBodyModel::Text(text@)))
            };
            if done {
                chat_view(final(messages)@) == with_text
            } else {
                chat_view(final(messages)@) == with_text.push(
                    (ChatRole::Assistant, ChatBodyModel::ToolUse(calls_view(tool_calls@))),
                )
            }
        }),
{
    let ghost start = chat_view(messages@);
    match assistant_message(text) {
        Some(m) => {
            let ghost mv = m@;
            messages.push(m);
            assert(chat_view(messages@) =~= start.push(mv));
        },
        None => {},
    }
    let ghost mid = chat_view(messages@);
    if tool_calls.len() == 0 {
        return true;
    }
    let calls = copy_calls(tool_calls);
    let m = ChatMessage { role: ChatRole::Assistant, body: ChatBody::ToolUse(calls) };
    let ghost mv = m@;
    messages.push(m);
    assert(chat_view(messages@) =~= mid.push(mv));
    false
}

/// Adds the results of the tools run for the last reply.
pub fn record_tool_results(messages: &mut Vec<ChatMessage>, results: Vec<ToolCall>)
    ensures
        chat_view(final(messages)@) == chat_view(old(messages)@).push(
            (ChatRole::Assistant, ChatBodyModel::ToolResult(calls_view(results@))),
        ),
{
    let ghost start = chat_view(messages@);
    let ghost rv = calls_view(results@);
    let m = ChatMessage { role: ChatRole::Assistant, body: ChatBody::ToolResult(results) };
    let ghost mv = m@;
    messages.push(m);
    assert(chat_view(messages@) =~= start.push(mv));
}

} // verus!
