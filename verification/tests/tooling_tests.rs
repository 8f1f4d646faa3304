use llm::config::{log_location, ConfigPaths, LoggingConfig, ToolExecutionMode};
use llm::conversation::{FunctionCall, ToolCall};
use llm::tooling::{approval_decision, approves, stdin_prompt, tool_gate, tool_result_call, ToolDecision, ToolGate};

#[test]
fn execution_settings_decide_or_ask() {
    assert!(matches!(tool_gate(ToolExecutionMode::Always, false), ToolGate::Decided(ToolDecision::Execute)));
    match tool_gate(ToolExecutionMode::Never, true) {
        ToolGate::Decided(ToolDecision::Decline(r)) => assert_eq!(r, "Tool execution disabled"),
        other => panic!("unexpected {:?}", other),
    }
    assert!(matches!(tool_gate(ToolExecutionMode::Ask, true), ToolGate::AskUser));
    match tool_gate(ToolExecutionMode::Ask, false) {
        ToolGate::Decided(ToolDecision::Decline(r)) => assert_eq!(r, "Tool execution requires approval"),
        other => panic!("unexpected {:?}", other),
    }
}

#[test]
fn answers_that_approve() {
    assert!(approves("y\n"));
    assert!(approves(" Y "));
    assert!(!approves("yes"));
    assert!(!approves(""));
    assert!(matches!(approval_decision(true), ToolDecision::Execute));
    match approval_decision(false) {
        ToolDecision::Decline(r) => assert_eq!(r, "Tool execution declined"),
        other => panic!("unexpected {:?}", other),
    }
}

#[test]
fn results_go_back_as_calls() {
    let call = ToolCall {
        id: "c1".to_string(),
        call_type: "tool".to_string(),
        function: FunctionCall { name: "read".to_string(), arguments: "{\"p\":1}".to_string() },
    };
    let ok = tool_result_call(&call, "data".to_string(), true);
    assert_eq!(ok.id, "c1");
    assert_eq!(ok.call_type, "tool");
    assert_eq!(ok.function.name, "read");
    assert_eq!(ok.function.arguments, "data");
    let failed = tool_result_call(&call, "Tool error: x".to_string(), false);
    assert_eq!(failed.call_type, "function");
    assert_eq!(failed.function.arguments, "Tool error: x");
}

#[test]
fn piped_prompts() {
    assert_eq!(stdin_prompt("hello\n\n"), Some("hello".to_string()));
    assert_eq!(stdin_prompt("  a b \t"), Some("  a b".to_string()));
    assert_eq!(stdin_prompt(" \n "), None);
    assert_eq!(stdin_prompt(""), None);
}

#[test]
fn log_file_location() {
    let paths = ConfigPaths {
        config_file: "/c/config.toml".to_string(),
        config_dir: "/c".to_string(),
        data_dir: "/d".to_string(),
        logs_dir: "/d/logs".to_string(),
    };
    let default = LoggingConfig::default();
    assert_eq!(log_location(&default, &paths), ("/d/logs".to_string(), "llm".to_string()));
    let mut custom = LoggingConfig::default();
    custom.path = Some("/var/log/agent.log".to_string());
    assert_eq!(log_location(&custom, &paths), ("/var/log".to_string(), "agent".to_string()));
    custom.path = Some("notes".to_string());
    assert_eq!(log_location(&custom, &paths), (String::new(), "notes".to_string()));
}

use llm::conversation::convert::{ChatBody, ChatMessage, ChatRole};
use llm::tooling::{assistant_message, record_reply, record_tool_results};

fn call(id: &str) -> ToolCall {
    ToolCall {
        id: id.to_string(),
        call_type: "function".to_string(),
        function: FunctionCall { name: "ls".to_string(), arguments: "{}".to_string() },
    }
}

#[test]
fn replies_are_recorded_until_no_tool_is_asked_for() {
    assert!(assistant_message("  \n").is_none());
    let m = assistant_message("hi").unwrap();
    assert_eq!(m.role, ChatRole::Assistant);
    assert!(matches!(&m.body, ChatBody::Text(t) if t == "hi"));

    let mut messages: Vec<ChatMessage> = Vec::new();
    let done = record_reply(&mut messages, "checking", &vec![call("1"), call("2")]);
    assert!(!done);
    assert_eq!(messages.len(), 2);
    assert!(matches!(&messages[1].body, ChatBody::ToolUse(calls) if calls.len() == 2 && calls[1].id == "2"));
    record_tool_results(&mut messages, vec![call("1")]);
    assert_eq!(messages.len(), 3);
    assert!(matches!(&messages[2].body, ChatBody::ToolResult(r) if r.len() == 1));
    let done = record_reply(&mut messages, " ", &Vec::new());
    assert!(done);
    assert_eq!(messages.len(), 3);
    let done = record_reply(&mut messages, "final answer", &Vec::new());
    assert!(done);
    assert_eq!(messages.len(), 4);
}
