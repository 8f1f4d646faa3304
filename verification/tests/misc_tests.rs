use llm::backtrack::SnapshotId;
use llm::conversation::{truncate_title, FunctionCall, MessageKind, MessageRole, ToolCall, ToolInvocation, ToolResult};
use base64::Engine;
use llm::sixtydb::{speech_audio, speech_request, transcription_url, LLMError, SixtyDbConfig, TtsResponse};
use llm::stream::{StreamAccumulator, StreamPrinter, STREAM_FLUSH_THRESHOLD};

#[test]
fn titles_from_first_message() {
    assert_eq!(truncate_title("  hello there \n"), "hello there");
    assert_eq!(truncate_title("   "), "Conversation");
    assert_eq!(truncate_title(""), "Conversation");
    let long = "a".repeat(50);
    assert_eq!(truncate_title(&long), format!("{}...", "a".repeat(48)));
    let exact = "b".repeat(48);
    assert_eq!(truncate_title(&exact), exact);
    let wide = "é".repeat(49);
    assert_eq!(truncate_title(&wide), format!("{}...", "é".repeat(48)));
}

#[test]
fn tool_results_and_calls() {
    let ok = ToolResult::success("1".to_string(), "ls".to_string(), "files".to_string());
    assert!(ok.success);
    let bad = ToolResult::failure("2".to_string(), "rm".to_string(), "denied".to_string());
    assert!(!bad.success);
    assert_eq!(bad.output, "denied");
    let call = ok.as_tool_call();
    assert_eq!(call.id, "1");
    assert_eq!(call.call_type, "function");
    assert_eq!(call.function.name, "ls");
    assert_eq!(call.function.arguments, "files");
    let inv = ToolInvocation::from_call(&ToolCall {
        id: "9".to_string(),
        call_type: "function".to_string(),
        function: FunctionCall { name: "grep".to_string(), arguments: "{}".to_string() },
    });
    assert_eq!(inv.id, "9");
    assert_eq!(inv.name, "grep");
    assert_eq!(inv.arguments, "{}");
    assert!(!inv.partial);
    assert!(matches!(MessageKind::Text("x".to_string()), MessageKind::Text(_)));
    assert_ne!(MessageRole::User, MessageRole::Assistant);
}

#[test]
fn printer_buffers_small_pieces() {
    assert_eq!(STREAM_FLUSH_THRESHOLD, 32);
    let mut p = StreamPrinter::new();
    assert_eq!(p.push("hello "), None);
    let chunk = "x".repeat(26);
    assert_eq!(p.push(&chunk), Some(format!("hello {}", chunk)));
    assert_eq!(p.flush(), None);
    assert_eq!(p.push("tail"), None);
    assert_eq!(p.flush(), Some("tail".to_string()));
    assert_eq!(p.flush(), None);
}

#[test]
fn accumulator_keeps_whole_text() {
    let mut a = StreamAccumulator::new();
    assert_eq!(a.push_text("ab"), None);
    a.push_tool_call(ToolCall {
        id: "1".to_string(),
        call_type: "function".to_string(),
        function: FunctionCall { name: "f".to_string(), arguments: "{}".to_string() },
    });
    assert_eq!(a.push_text("cd"), None);
    let (text, calls, rest) = a.finish();
    assert_eq!(text, "abcd");
    assert_eq!(calls.len(), 1);
    assert_eq!(rest, Some("abcd".to_string()));
}

#[test]
fn speech_replies() {
    let ok = speech_audio(
        TtsResponse { success: true, message: None, audio_base64: Some("aGk=".to_string()) },
        "raw".to_string(),
    );
    assert_eq!(ok.unwrap(), vec![104u8, 105u8]);
    match speech_audio(TtsResponse { success: false, message: None, audio_base64: None }, "r".to_string()) {
        Err(LLMError::ProviderError(m)) => assert_eq!(m, "60db text-to-speech request failed"),
        other => panic!("unexpected {:?}", other),
    }
    match speech_audio(
        TtsResponse { success: false, message: Some("quota".to_string()), audio_base64: None },
        "r".to_string(),
    ) {
        Err(LLMError::ProviderError(m)) => assert_eq!(m, "quota"),
        other => panic!("unexpected {:?}", other),
    }
    match speech_audio(TtsResponse { success: true, message: None, audio_base64: None }, "r".to_string()) {
        Err(LLMError::ResponseFormatError { message, raw_response }) => {
            assert_eq!(message, "60db response did not contain audio_base64");
            assert_eq!(raw_response, "r");
        }
        other => panic!("unexpected {:?}", other),
    }
    match speech_audio(
        TtsResponse { success: true, message: None, audio_base64: Some("!!".to_string()) },
        "r".to_string(),
    ) {
        Err(LLMError::ResponseFormatError { message, raw_response }) => {
            let err = base64::engine::general_purpose::STANDARD.decode(b"!!").unwrap_err();
            assert_eq!(message, format!("failed to decode base64 audio: {err}"));
            assert_eq!(raw_response, "r");
        }
        other => panic!("unexpected {:?}", other),
    }
    let config = SixtyDbConfig {
        api_key: "k".to_string(),
        model_id: "m".to_string(),
        base_url: "https://api.60db.ai".to_string(),
        timeout_seconds: Some(5),
        voice: None,
    };
    assert_eq!(config.timeout_seconds, Some(5));
    let req = speech_request(&config, "hello");
    assert_eq!(req.url, "https://api.60db.ai/tts-synthesize");
    assert_eq!(req.api_key, "k");
    assert_eq!(req.text, "hello");
    assert_eq!(req.output_format, "mp3");
    assert_eq!(req.voice_id, None);
    assert_eq!(req.timeout_seconds, Some(5));
    assert_eq!(transcription_url(&config), "https://api.60db.ai/stt");
    let voiced = SixtyDbConfig { voice: Some("nova".to_string()), timeout_seconds: None, ..config };
    let req = speech_request(&voiced, "hi");
    assert_eq!(req.voice_id.as_deref(), Some("nova"));
    assert_eq!(req.timeout_seconds, None);
}

#[test]
fn snapshot_ids_compare_by_number() {
    assert_eq!(SnapshotId::new(3), SnapshotId::new(3));
    assert_ne!(SnapshotId::new(3), SnapshotId::new(4));
}
