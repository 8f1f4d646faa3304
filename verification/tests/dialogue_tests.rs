use llm::dialogue::{
    DialogueMode, DialogueParticipant, ParticipantBuilder, ParticipantColor, ParticipantId, ParticipantParams,
    StopReason,
};

#[test]
fn from_provider_model_parses_valid_format() {
    let participant = DialogueParticipant::from_provider_model("openai:gpt-4", 0, ParticipantId(1));
    assert!(participant.is_some());
    let p = participant.unwrap();
    assert_eq!(p.provider_id, "openai");
    assert_eq!(p.model_id, "gpt-4");
    assert_eq!(p.display_name, "gpt-4");
    assert!(p.active);
}

#[test]
fn from_provider_model_rejects_invalid_format() {
    assert!(DialogueParticipant::from_provider_model("invalid", 0, ParticipantId(1)).is_none());
    assert!(DialogueParticipant::from_provider_model("too:many:colons", 0, ParticipantId(1)).is_none());
    assert!(DialogueParticipant::from_provider_model("", 0, ParticipantId(1)).is_none());
}

#[test]
fn color_cycles_correctly() {
    assert_eq!(ParticipantColor::for_index(0), ParticipantColor::Orange);
    assert_eq!(ParticipantColor::for_index(1), ParticipantColor::Cyan);
    assert_eq!(ParticipantColor::for_index(8), ParticipantColor::Orange); // wraps around
}

#[test]
fn color_rgb_returns_valid_values() {
    let (r, g, b) = ParticipantColor::Orange.rgb();
    assert!(r > 0 && g > 0 && b > 0);
}

#[test]
fn participant_keeps_id_color_and_model() {
    let p = DialogueParticipant::from_provider_model("mistral:large", 10, ParticipantId(7)).unwrap();
    assert_eq!(p.id, ParticipantId(7));
    assert_eq!(p.color, ParticipantColor::Green);
    assert!(p.system_prompt.is_none());
    assert_eq!(p.provider_model(), "mistral:large");
    let q = DialogueParticipant::from_provider_model("ollama:", 3, ParticipantId(2)).unwrap();
    assert_eq!(q.provider_id, "ollama");
    assert_eq!(q.model_id, "");
}

#[test]
fn palette_values() {
    assert_eq!(ParticipantColor::for_index(7), ParticipantColor::White);
    assert_eq!(ParticipantColor::for_index(15), ParticipantColor::White);
    assert_eq!(ParticipantColor::Blue.rgb(), (100, 150, 220));
    assert_eq!(ParticipantColor::White.rgb(), (220, 220, 220));
    assert_eq!(ParticipantColor::default(), ParticipantColor::Orange);
}

#[test]
fn mode_names_and_descriptions() {
    assert_eq!(DialogueMode::default(), DialogueMode::FreeForm);
    assert_eq!(DialogueMode::FreeForm.display_name(), "Free");
    assert_eq!(DialogueMode::Debate.display_name(), "Debate");
    assert_eq!(DialogueMode::Critique.description(), "One generates, others critique and improve");
    assert_eq!(DialogueMode::Custom.description(), "User-defined behavior via system prompts");
}

#[test]
fn stop_reasons_read() {
    assert_eq!(StopReason::UserRequested.to_string(), "User requested stop");
    assert_eq!(StopReason::Error("boom".to_string()).to_string(), "Error: boom");
    assert_eq!(StopReason::AllParticipantsLeft.to_string(), "All participants left");
    assert_eq!(StopReason::Completed.to_string(), "Dialogue completed");
}

#[test]
fn participants_are_built_one_setting_at_a_time() {
    let p = DialogueParticipant::builder("openai".to_string(), "gpt-4".to_string(), ParticipantId(3)).build();
    assert_eq!(p.id, ParticipantId(3));
    assert_eq!(p.provider_id, "openai");
    assert_eq!(p.model_id, "gpt-4");
    assert_eq!(p.display_name, "gpt-4");
    assert!(p.system_prompt.is_none());
    assert_eq!(p.params.max_tokens, None);
    assert!(p.params.stop_sequences.is_empty());
    assert_eq!(p.color, ParticipantColor::Orange);
    assert!(p.active);
    let params = ParticipantParams::builder()
        .max_tokens(256)
        .stop_sequences(vec!["END".to_string()])
        .build();
    let q = ParticipantBuilder::new("groq".to_string(), "llama".to_string(), ParticipantId(4))
        .display_name("Critic".to_string())
        .system_prompt("find flaws".to_string())
        .params(params)
        .color_index(9)
        .build();
    assert_eq!(q.display_name, "Critic");
    assert_eq!(q.system_prompt.as_deref(), Some("find flaws"));
    assert_eq!(q.params.max_tokens, Some(256));
    assert_eq!(q.params.stop_sequences, vec!["END".to_string()]);
    assert_eq!(q.color, ParticipantColor::Cyan);
    let r = ParticipantBuilder::new("a".to_string(), "b".to_string(), ParticipantId(5))
        .color(ParticipantColor::Red)
        .build();
    assert_eq!(r.color, ParticipantColor::Red);
    assert_eq!(r.model_id, "b");
}
