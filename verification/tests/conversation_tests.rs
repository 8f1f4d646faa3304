use llm::backtrack::{BacktrackState, SnapshotId};
use llm::launch::{
    apply_launch_options, create_new_conversation, ensure_default_conversation, LaunchArgsError,
    LaunchDefaults, LaunchError, LaunchOutcome, ProviderSelection, TuiOptions,
};
use llm::conversation::convert::{to_chat_messages, ChatBody, ChatRole};
use llm::conversation::{ToolInvocation, ToolResult};
use llm::conversation::{
    Conversation, ConversationId, ConversationManager, ConversationMessage, MessageKind, MessageRole,
    MessageState,
};

fn sample_conversation() -> Conversation {
    let mut conv = Conversation::new("openai".to_string(), None, None);
    conv.push_message(ConversationMessage::new(
        MessageRole::User,
        MessageKind::Text("hello".to_string()),
    ));
    conv
}

#[test]
fn records_unique_snapshots() {
    let mut backtrack = BacktrackState::default();
    let mut conv = sample_conversation();
    let first = backtrack.record(&conv);
    assert!(first.is_some());
    let second = backtrack.record(&conv);
    assert!(second.is_none());
    conv.updated_at += 1;
    let third = backtrack.record(&conv);
    assert!(third.is_some());
}

#[test]
fn snapshots_are_numbered_and_listed() {
    let mut backtrack = BacktrackState::default();
    let mut conv = sample_conversation();
    let first = backtrack.record(&conv).unwrap();
    assert_eq!(first.id, SnapshotId::new(0));
    assert_eq!(first.message_count, 1);
    assert_eq!(first.title, "New conversation");
    conv.push_message(ConversationMessage::new(MessageRole::Assistant, MessageKind::Text("hi".to_string())));
    let second = backtrack.record(&conv).unwrap();
    assert_eq!(second.id, SnapshotId::new(1));
    assert_eq!(second.message_count, 2);
    let list = backtrack.list(conv.id);
    assert_eq!(list.len(), 2);
    assert_eq!(list[1].id, SnapshotId::new(1));
    assert!(backtrack.list(ConversationId(7)).is_empty());
    let snap = backtrack.get(conv.id, SnapshotId::new(0)).unwrap();
    assert_eq!(snap.message_count, 1);
    assert_eq!(snap.conversation.messages.len(), 1);
    assert!(backtrack.get(conv.id, SnapshotId::new(5)).is_none());
}

#[test]
fn new_conversation_is_empty_and_clean() {
    let conv = Conversation::new("ollama".to_string(), Some("llama3".to_string()), None);
    assert_eq!(conv.title, "New conversation");
    assert!(conv.messages.is_empty());
    assert!(!conv.dirty);
    assert!(conv.parent_id.is_none());
    assert_eq!(conv.created_at, conv.updated_at);
    assert_eq!(conv.model.as_deref(), Some("llama3"));
}

#[test]
fn pushing_marks_dirty_and_titles_follow_first_user_message() {
    let mut conv = Conversation::new("p".to_string(), None, None);
    conv.push_message(ConversationMessage::new(MessageRole::Assistant, MessageKind::Text("welcome".to_string())));
    assert!(conv.dirty);
    conv.title_from_first_user();
    assert_eq!(conv.title, "New conversation");
    conv.push_message(ConversationMessage::new(MessageRole::User, MessageKind::Text("  Plan a trip  ".to_string())));
    conv.push_message(ConversationMessage::new(MessageRole::User, MessageKind::Text("second".to_string())));
    conv.title_from_first_user();
    assert_eq!(conv.title, "Plan a trip");
}

#[test]
fn message_versions() {
    let mut m = ConversationMessage::new(MessageRole::Assistant, MessageKind::Text("a".to_string()));
    assert_eq!(m.version, 0);
    assert_eq!(m.state, MessageState::Pending);
    assert!(m.metadata.provider.is_none());
    m.update_text("b");
    assert!(matches!(&m.kind, MessageKind::Text(t) if t == "ab"));
    assert_eq!(m.version, 1);
    m.replace_kind(MessageKind::Error("oops".to_string()));
    assert_eq!(m.version, 2);
    m.update_text("ignored");
    assert!(matches!(&m.kind, MessageKind::Error(t) if t == "oops"));
    assert_eq!(m.version, 2);
    m.version = u64::MAX;
    m.bump_version();
    assert_eq!(m.version, u64::MAX);
}

#[test]
fn manager_tracks_the_active_conversation() {
    let mut manager = ConversationManager::new();
    assert!(manager.active().is_none());
    assert!(manager.active_id().is_none());
    let first = manager.new_conversation("openai".to_string(), None, None);
    let second = manager.new_conversation("groq".to_string(), None, None);
    assert_eq!(manager.active_id(), Some(second));
    assert_eq!(manager.list().len(), 2);
    assert_eq!(manager.list()[0].id, second);
    assert!(manager.set_active(first));
    assert_eq!(manager.active().unwrap().provider_id, "openai");
    assert!(!manager.set_active(ConversationId(0)));
    assert_eq!(manager.active_id(), Some(first));
    if let Some(c) = manager.active_mut() {
        c.title = "Renamed".to_string();
    }
    assert_eq!(manager.active().unwrap().title, "Renamed");
    assert_eq!(manager.active_index(), Some(1));
}

#[test]
fn forking_copies_into_a_new_active_conversation() {
    let mut manager = ConversationManager::new();
    let mut conv = sample_conversation();
    conv.title = "Trip".to_string();
    let original = conv.id;
    manager.add(conv);
    let fork = manager.fork_conversation(original).unwrap();
    assert_ne!(fork, original);
    let active = manager.active().unwrap();
    assert_eq!(active.id, fork);
    assert_eq!(active.title, "Copy of Trip");
    assert_eq!(active.parent_id, Some(original));
    assert_eq!(active.messages.len(), 1);
    assert!(active.dirty);
    assert_eq!(manager.list().len(), 2);
    assert!(manager.fork_conversation(ConversationId(1)).is_none());
    assert_eq!(manager.list().len(), 2);
}

fn options() -> TuiOptions {
    TuiOptions {
        initial_selection: None,
        conversation_id: None,
        force_new: false,
        system_prompt: None,
        first_run: false,
    }
}

fn defaults() -> LaunchDefaults {
    LaunchDefaults {
        default_selection: None,
        default_model: Some("gpt-4o".to_string()),
        system_prompt: Some("be brief".to_string()),
    }
}

#[test]
fn new_conversations_fall_back_on_defaults() {
    let mut manager = ConversationManager::new();
    let id = create_new_conversation(&mut manager, None, None, &defaults());
    let c = manager.active().unwrap();
    assert_eq!(c.id, id);
    assert_eq!(c.provider_id, "openai");
    assert_eq!(c.model.as_deref(), Some("gpt-4o"));
    assert_eq!(c.system_prompt.as_deref(), Some("be brief"));
    let chosen = ProviderSelection { provider_id: "groq".to_string(), model: None };
    create_new_conversation(&mut manager, Some(&chosen), Some("terse"), &defaults());
    let c = manager.active().unwrap();
    assert_eq!(c.provider_id, "groq");
    assert!(c.model.is_none());
    assert_eq!(c.system_prompt.as_deref(), Some("terse"));
    let mut d = defaults();
    d.default_selection = Some(ProviderSelection { provider_id: "ollama".to_string(), model: Some("llama3".to_string()) });
    create_new_conversation(&mut manager, None, None, &d);
    assert_eq!(manager.active().unwrap().provider_id, "ollama");
    assert_eq!(manager.list().len(), 3);
}

#[test]
fn launch_options() {
    let mut manager = ConversationManager::new();
    let mut first = options();
    first.first_run = true;
    assert_eq!(apply_launch_options(&mut manager, &first, &defaults()), Ok(LaunchOutcome::Onboarding));
    assert!(manager.list().is_empty());
    let mut missing = options();
    missing.conversation_id = Some(ConversationId(42));
    assert_eq!(
        apply_launch_options(&mut manager, &missing, &defaults()),
        Err(LaunchError::ConversationNotFound(ConversationId(42)))
    );
    assert_eq!(apply_launch_options(&mut manager, &options(), &defaults()), Ok(LaunchOutcome::Ready));
    assert_eq!(manager.list().len(), 1);
    let existing = manager.active_id().unwrap();
    assert_eq!(apply_launch_options(&mut manager, &options(), &defaults()), Ok(LaunchOutcome::Ready));
    assert_eq!(manager.list().len(), 1);
    let mut fresh = options();
    fresh.force_new = true;
    fresh.conversation_id = Some(existing);
    assert_eq!(apply_launch_options(&mut manager, &fresh, &defaults()), Ok(LaunchOutcome::Ready));
    assert_eq!(manager.list().len(), 2);
    assert_ne!(manager.active_id(), Some(existing));
    assert!(!ensure_default_conversation(&mut manager, &options(), &defaults()));
}

#[test]
fn messages_sent_to_the_provider() {
    let msgs = vec![
        ConversationMessage::new(MessageRole::User, MessageKind::Text("q".to_string())),
        ConversationMessage::new(MessageRole::Assistant, MessageKind::Text("a".to_string())),
        ConversationMessage::new(MessageRole::Error, MessageKind::Error("boom".to_string())),
        ConversationMessage::new(MessageRole::Tool, MessageKind::Text("tool text".to_string())),
        ConversationMessage::new(
            MessageRole::Assistant,
            MessageKind::ToolCall(ToolInvocation {
                id: "t1".to_string(),
                name: "ls".to_string(),
                arguments: "{}".to_string(),
                partial: false,
            }),
        ),
        ConversationMessage::new(
            MessageRole::Tool,
            MessageKind::ToolResult(ToolResult::success("t1".to_string(), "ls".to_string(), "a.txt".to_string())),
        ),
    ];
    let chat = to_chat_messages(&msgs);
    assert_eq!(chat.len(), 4);
    assert_eq!(chat[0].role, ChatRole::User);
    assert!(matches!(&chat[0].body, ChatBody::Text(t) if t == "q"));
    assert_eq!(chat[1].role, ChatRole::Assistant);
    match &chat[2].body {
        ChatBody::ToolUse(calls) => {
            assert_eq!(calls.len(), 1);
            assert_eq!(calls[0].call_type, "function");
            assert_eq!(calls[0].function.arguments, "{}");
        }
        other => panic!("unexpected {:?}", other),
    }
    match &chat[3].body {
        ChatBody::ToolResult(calls) => assert_eq!(calls[0].function.arguments, "a.txt"),
        other => panic!("unexpected {:?}", other),
    }
    assert_eq!(chat[3].role, ChatRole::Assistant);
}

#[test]
fn identifiers_are_version_four_uuids() {
    for _ in 0..20 {
        let c = ConversationId::new().0;
        assert_eq!((c >> 76) & 0xf, 4);
        assert_eq!((c >> 62) & 3, 2);
        let m = llm::conversation::MessageId::new().0;
        assert_eq!((m >> 76) & 0xf, 4);
        assert_eq!((m >> 62) & 3, 2);
    }
    assert_ne!(ConversationId::new(), ConversationId::new());
}

fn is_v4(v: u128) -> bool {
    (v >> 76) & 0xf == 4 && (v >> 62) & 3 == 2
}

#[test]
fn new_and_forked_conversations_get_fresh_version_four_ids() {
    let c = Conversation::new("openai".to_string(), None, None);
    assert!(is_v4(c.id.0));
    let m = ConversationMessage::new(MessageRole::User, MessageKind::Text("hi".to_string()));
    assert!(is_v4(m.id.0));
    let mut manager = ConversationManager::new();
    let first = manager.new_conversation("openai".to_string(), None, None);
    assert!(is_v4(first.0));
    let fork = manager.fork_conversation(first).unwrap();
    assert!(is_v4(fork.0));
    assert_ne!(fork, first);
}

fn sel(provider: &str, model: Option<&str>) -> ProviderSelection {
    ProviderSelection { provider_id: provider.to_string(), model: model.map(|m| m.to_string()) }
}

#[test]
fn refuses_new_with_conversation() {
    let r = TuiOptions::from_args(
        true,
        Some("00000000-0000-0000-0000-000000000000"),
        None,
        None,
        false,
        None,
        None,
        None,
    );
    assert!(r.is_err());
    assert!(matches!(r, Err(LaunchArgsError::NewWithConversation)));
}

#[test]
fn selection_from_command_uses_second_arg_as_model() {
    // The first word `openai` names the provider `openai` with no model.
    let options = TuiOptions::from_args(
        false,
        None,
        None,
        Some(sel("openai", None)),
        false,
        Some("gpt-4o-mini".to_string()),
        None,
        None,
    )
    .unwrap();
    let selection = options.initial_selection.unwrap();
    assert_eq!(selection.provider_id.as_str(), "openai");
    assert_eq!(selection.model.as_deref(), Some("gpt-4o-mini"));
}

#[test]
fn conversation_ids_are_read_as_uuids() {
    let options = TuiOptions::from_args(
        false,
        Some("00000000-0000-0000-0000-00000000002a"),
        None,
        None,
        false,
        None,
        None,
        Some("be brief".to_string()),
    )
    .unwrap();
    assert_eq!(options.conversation_id, Some(ConversationId(42)));
    assert_eq!(options.system_prompt.as_deref(), Some("be brief"));
    assert!(!options.force_new);
    assert!(!options.first_run);
    assert!(options.initial_selection.is_none());
    let braced = TuiOptions::from_args(
        false,
        Some("67e5504410b1426f9247bb680e5fe0c8"),
        None,
        None,
        false,
        None,
        None,
        None,
    )
    .unwrap();
    assert_eq!(braced.conversation_id, Some(ConversationId(0x67e5504410b1426f9247bb680e5fe0c8)));
    match TuiOptions::from_args(false, Some("not-an-id"), None, None, false, None, None, None) {
        Err(LaunchArgsError::InvalidConversationId(text)) => assert_eq!(text, "not-an-id"),
        other => panic!("unexpected {:?}", other),
    }
    // An invalid identifier is reported before the conflict with `--new`.
    assert!(matches!(
        TuiOptions::from_args(true, Some("zz"), None, None, false, None, None, None),
        Err(LaunchArgsError::InvalidConversationId(_))
    ));
    let fresh = TuiOptions::from_args(true, None, None, None, false, None, None, None).unwrap();
    assert!(fresh.force_new);
    assert!(fresh.conversation_id.is_none());
}

#[test]
fn provider_flag_comes_before_the_first_word() {
    let options = TuiOptions::from_args(
        false,
        None,
        Some(sel("groq", Some("llama"))),
        Some(sel("openai", None)),
        false,
        Some("gpt-4o-mini".to_string()),
        None,
        None,
    )
    .unwrap();
    let s = options.initial_selection.unwrap();
    assert_eq!(s.provider_id, "groq");
    assert_eq!(s.model.as_deref(), Some("llama"));
    // `--model` wins over the model written with the provider.
    let options = TuiOptions::from_args(
        false,
        None,
        Some(sel("groq", Some("llama"))),
        None,
        false,
        None,
        Some("mixtral".to_string()),
        None,
    )
    .unwrap();
    assert_eq!(options.initial_selection.unwrap().model.as_deref(), Some("mixtral"));
    // The model written with the first word wins over the second word.
    let options = TuiOptions::from_args(
        false,
        None,
        None,
        Some(sel("openai", Some("gpt-4o"))),
        false,
        Some("gpt-4o-mini".to_string()),
        None,
        None,
    )
    .unwrap();
    assert_eq!(options.initial_selection.unwrap().model.as_deref(), Some("gpt-4o"));
    // A subcommand names no provider.
    let options = TuiOptions::from_args(
        false,
        None,
        None,
        Some(sel("chat", None)),
        true,
        Some("x".to_string()),
        None,
        None,
    )
    .unwrap();
    assert!(options.initial_selection.is_none());
}
