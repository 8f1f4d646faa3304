use llm::chain::condition::evaluate_condition;
use llm::chain::config::{
    format_of_extension, has_multiple_providers, is_completion_mode, provider_info, split_provider,
    step_position, step_provider, ChainConfig, FileFormat, InteractiveConfig, StepConfig,
};
use llm::chain::memory::Memory;
use llm::chain::menu::{
    clip, completion_percentage, current_step_index, jump_choice, menu_key, next_prompt, step_status,
    variable_kind, MenuKey, StepStatus, VarKind,
};
use llm::chain::run::{is_interactive, ChainAction, ChainRun, ChoiceOutcome, InteractiveChoice};
use llm::chain::template::apply_template;

fn step(id: &str, template: &str, condition: Option<&str>) -> StepConfig {
    StepConfig {
        id: id.to_string(),
        template: template.to_string(),
        provider_id: None,
        mode: "chat".to_string(),
        max_tokens: None,
        condition: condition.map(|c| c.to_string()),
        interactive: false,
    }
}

fn chain(steps: Vec<StepConfig>) -> ChainConfig {
    ChainConfig {
        name: "test".to_string(),
        description: None,
        default_provider: Some("openai:gpt-4o".to_string()),
        steps,
        input_var: "input".to_string(),
        interactive_config: InteractiveConfig {
            auto_start: false,
            default_steps: vec!["s3".to_string()],
            timeout: 300,
            save_path: None,
        },
    }
}

fn memory(pairs: &[(&str, &str)]) -> Memory {
    let mut m = Memory::new();
    for (k, v) in pairs {
        m.insert(k.to_string(), v.to_string());
    }
    m
}

#[test]
fn memory_binds_and_rebinds() {
    let mut m = memory(&[("a", "1"), ("b", "2")]);
    assert_eq!(m.len(), 2);
    m.insert("a".to_string(), "3".to_string());
    assert_eq!(m.len(), 2);
    assert_eq!(m.get("a").map(|s| s.as_str()), Some("3"));
    assert_eq!(m.get("b").map(|s| s.as_str()), Some("2"));
    assert!(m.get("c").is_none());
    assert!(m.contains_key("b"));
    assert_eq!(m.last_value().map(|s| s.as_str()), Some("2"));
    assert!(Memory::new().last_value().is_none());
}

#[test]
fn fills_placeholders() {
    let m = memory(&[("name", "Bob"), ("sys.os", "linux")]);
    assert_eq!(apply_template("Hi {{name}}, {{name}}! On {{sys.os}}.", &m), "Hi Bob, Bob! On linux.");
    assert_eq!(apply_template("{{missing}} {name}", &m), "{{missing}} {name}");
    assert_eq!(apply_template("", &m), "");
    assert_eq!(apply_template("plain {name} text", &m), "plain {name} text");
}

#[test]
fn template_placeholders_fill_in_binding_order() {
    let m = memory(&[("a", "{{b}}"), ("b", "x")]);
    assert_eq!(apply_template("{{a}}", &m), "x");
    let n = memory(&[("b", "x"), ("a", "{{b}}")]);
    assert_eq!(apply_template("{{a}}", &n), "{{b}}");
}

#[test]
fn conditions() {
    let m = memory(&[("topic", "rust"), ("empty", ""), ("library_check", "none")]);
    assert!(evaluate_condition(&None, &m));
    assert!(evaluate_condition(&Some(String::new()), &m));
    assert!(evaluate_condition(&Some("topic=rust".to_string()), &m));
    assert!(evaluate_condition(&Some(" topic = rust ".to_string()), &m));
    assert!(!evaluate_condition(&Some("topic=go".to_string()), &m));
    assert!(!evaluate_condition(&Some("nothing=rust".to_string()), &m));
    assert!(evaluate_condition(&Some("topic contains 'us'".to_string()), &m));
    assert!(evaluate_condition(&Some("topic contains \"ru\"".to_string()), &m));
    assert!(!evaluate_condition(&Some("topic contains go".to_string()), &m));
    assert!(!evaluate_condition(&Some("topic contains a contains b".to_string()), &m));
    assert!(!evaluate_condition(&Some("nothing contains r".to_string()), &m));
    assert!(evaluate_condition(&Some("!missing".to_string()), &m));
    assert!(evaluate_condition(&Some("!empty".to_string()), &m));
    assert!(!evaluate_condition(&Some("!topic".to_string()), &m));
    assert!(evaluate_condition(&Some("topic".to_string()), &m));
    assert!(!evaluate_condition(&Some("empty".to_string()), &m));
    assert!(!evaluate_condition(&Some("missing".to_string()), &m));
    // `!name=value` holds when the variable does not hold that value.
    assert!(!evaluate_condition(&Some("!library_check=none".to_string()), &m));
}

#[test]
fn negated_equality_runs_when_the_value_differs() {
    let numpy = memory(&[("library_check", "numpy")]);
    assert!(evaluate_condition(&Some("!library_check=none".to_string()), &numpy));
    assert!(evaluate_condition(&Some(" ! library_check = none ".to_string()), &numpy));
    let none = memory(&[("library_check", "none")]);
    assert!(!evaluate_condition(&Some("!library_check=none".to_string()), &none));
    let unbound = memory(&[("topic", "rust")]);
    assert!(evaluate_condition(&Some("!library_check=none".to_string()), &unbound));
}

#[test]
fn runs_steps_in_order_skipping_failed_conditions() {
    let config = chain(vec![
        step("s1", "Say {{input}} on {{sys.os}}", None),
        step("s2", "never", Some("s1=skip")),
        step("s3", "{{s1}}!", None),
    ]);
    let sys = memory(&[("sys.os", "linux")]);
    let mut run = ChainRun::start(&config, Some("hi".to_string()), &sys, false);
    assert_eq!(run.memory().get("input").map(|s| s.as_str()), Some("hi"));
    match run.next(&config) {
        ChainAction::Ask { index, prompt, completion, review } => {
            assert_eq!(index, 0);
            assert_eq!(prompt, "Say hi on linux");
            assert!(!completion);
            assert!(!review);
        }
        other => panic!("unexpected {:?}", other),
    }
    run.record(&config, "ok".to_string());
    assert!(matches!(run.next(&config), ChainAction::Skip(1)));
    match run.next(&config) {
        ChainAction::Ask { index, prompt, .. } => {
            assert_eq!(index, 2);
            assert_eq!(prompt, "ok!");
        }
        other => panic!("unexpected {:?}", other),
    }
    run.record(&config, "done".to_string());
    assert!(matches!(run.next(&config), ChainAction::Done));
    assert_eq!(run.final_result(&config).map(|s| s.as_str()), Some("done"));
    assert_eq!(run.results().len(), 2);
    assert!(run.results().get("s2").is_none());
}

#[test]
fn piped_input_defaults_to_empty() {
    let config = chain(vec![step("s1", "[{{input}}]", None)]);
    let mut run = ChainRun::start(&config, None, &Memory::new(), true);
    match run.next(&config) {
        ChainAction::Ask { prompt, review, .. } => {
            assert_eq!(prompt, "[]");
            assert!(!review);
        }
        other => panic!("unexpected {:?}", other),
    }
}

#[test]
fn interactive_choices() {
    let config = chain(vec![step("s1", "a", None), step("s2", "b", None), step("s3", "c", None)]);
    let mut run = ChainRun::start(&config, None, &Memory::new(), true);
    run.record(&config, "r1".to_string());
    run.record(&config, "r2".to_string());
    match run.next(&config) {
        ChainAction::Ask { index, review, .. } => {
            assert_eq!(index, 2);
            assert!(review);
        }
        other => panic!("unexpected {:?}", other),
    }
    assert!(matches!(
        run.apply_choice(&config, InteractiveChoice::ModifyPrompt("new".to_string()), "x".to_string()),
        ChoiceOutcome::Reask(p) if p == "new"
    ));
    assert_eq!(run.step(), 2);
    assert!(matches!(run.apply_choice(&config, InteractiveChoice::Quit, "x".to_string()), ChoiceOutcome::Stop));
    assert_eq!(run.step(), 2);
    assert!(matches!(
        run.apply_choice(&config, InteractiveChoice::SkipToStep("s1".to_string()), "x".to_string()),
        ChoiceOutcome::Continue
    ));
    assert_eq!(run.step(), 0);
    assert!(matches!(
        run.apply_choice(&config, InteractiveChoice::EditResponse("edited".to_string()), "x".to_string()),
        ChoiceOutcome::Continue
    ));
    assert_eq!(run.step(), 1);
    assert_eq!(run.results().get("s1").map(|s| s.as_str()), Some("edited"));
    run.apply_choice(&config, InteractiveChoice::SkipToStep("nowhere".to_string()), "kept".to_string());
    assert_eq!(run.step(), 2);
    assert_eq!(run.results().get("s2").map(|s| s.as_str()), Some("kept"));
    run.apply_choice(&config, InteractiveChoice::Accept, "last".to_string());
    assert_eq!(run.final_result(&config).map(|s| s.as_str()), Some("last"));
    assert_eq!(run.results().last_value().map(|s| s.as_str()), Some("last"));
}

#[test]
fn interactive_mode_rules() {
    let mut config = chain(vec![]);
    assert!(is_interactive(&config, false, false));
    assert!(!is_interactive(&config, true, false));
    assert!(!is_interactive(&config, false, true));
    config.interactive_config.auto_start = true;
    assert!(is_interactive(&config, true, true));
}

#[test]
fn completion_mode_by_name() {
    assert!(is_completion_mode("completion"));
    assert!(is_completion_mode("Completion"));
    assert!(!is_completion_mode("chat"));
    assert!(!is_completion_mode(""));
}

#[test]
fn providers() {
    let (p, m) = split_provider("openai:gpt-4o");
    assert_eq!(p, "openai");
    assert_eq!(m.as_deref(), Some("gpt-4o"));
    let (p, m) = split_provider("a:b:c");
    assert_eq!(p, "a");
    assert_eq!(m.as_deref(), Some("b"));
    let (p, m) = split_provider("ollama");
    assert_eq!(p, "ollama");
    assert!(m.is_none());
    let mut config = chain(vec![step("s1", "x", None)]);
    assert_eq!(provider_info(Some("groq:llama"), &config), Some(("groq".to_string(), Some("llama".to_string()))));
    assert_eq!(provider_info(None, &config), Some(("openai".to_string(), Some("gpt-4o".to_string()))));
    config.default_provider = None;
    assert_eq!(provider_info(None, &config), None);
    assert!(!has_multiple_providers(&config));
    config.steps[0].provider_id = Some("anthropic".to_string());
    assert!(has_multiple_providers(&config));
}

#[test]
fn file_formats() {
    assert_eq!(format_of_extension("json"), Some(FileFormat::Json));
    assert_eq!(format_of_extension("yaml"), Some(FileFormat::Yaml));
    assert_eq!(format_of_extension("yml"), Some(FileFormat::Yaml));
    assert_eq!(format_of_extension("toml"), None);
    assert_eq!(format_of_extension("JSON"), None);
}

#[test]
fn menu_keys() {
    assert_eq!(menu_key(" A "), MenuKey::Accept);
    assert_eq!(menu_key("1"), MenuKey::Accept);
    assert_eq!(menu_key("e"), MenuKey::Edit);
    assert_eq!(menu_key("3"), MenuKey::Modify);
    assert_eq!(menu_key("S\n"), MenuKey::Skip);
    assert_eq!(menu_key("v"), MenuKey::Variables);
    assert_eq!(menu_key("6"), MenuKey::Help);
    assert_eq!(menu_key("Q"), MenuKey::Quit);
    assert_eq!(menu_key("quit"), MenuKey::Invalid);
    assert_eq!(menu_key(""), MenuKey::Invalid);
}

#[test]
fn review_helpers() {
    let config = chain(vec![step("s1", "a", None), step("s2", "about {{s1}}", None)]);
    assert_eq!(step_position(&config, "s2"), Some(1));
    assert_eq!(step_position(&config, "zz"), None);
    assert_eq!(current_step_index(&config, "s2"), 1);
    assert_eq!(current_step_index(&config, "zz"), 0);
    let m = memory(&[("s1", "rust")]);
    assert_eq!(next_prompt(&config, "s1", &m), Some((1, "about rust".to_string())));
    assert_eq!(next_prompt(&config, "s2", &m), None);
    assert!(matches!(jump_choice(&config, " 2 "), Some(InteractiveChoice::SkipToStep(id)) if id == "s2"));
    assert!(jump_choice(&config, "0").is_none());
    assert!(jump_choice(&config, "3").is_none());
    assert!(jump_choice(&config, "two").is_none());
    assert_eq!(variable_kind(&config, "sys.os"), VarKind::System);
    assert_eq!(variable_kind(&config, "input"), VarKind::Input);
    assert_eq!(variable_kind(&config, "s1"), VarKind::Step);
    assert_eq!(variable_kind(&config, "other"), VarKind::Custom);
    assert_eq!(step_status(&config, 1, "s2", 1), StepStatus::Current);
    assert_eq!(step_status(&config, 0, "s2", 1), StepStatus::Completed);
    assert_eq!(step_status(&config, 1, "s1", 0), StepStatus::Pending);
}

#[test]
fn display_helpers() {
    assert_eq!(clip("abcdef", 4, 2), "ab...");
    assert_eq!(clip("abcd", 4, 2), "abcd");
    assert_eq!(clip("é€xyz", 5, 2), "é...");
    assert_eq!(completion_percentage(1, 3), 33);
    assert_eq!(completion_percentage(3, 3), 100);
    assert_eq!(completion_percentage(0, 0), 0);
}

#[test]
fn each_step_asks_its_own_provider_only_in_multi_provider_runs() {
    let mut named = step("a", "x", None);
    named.provider_id = Some("groq".to_string());
    let config = chain(vec![named, step("b", "y", None)]);
    assert_eq!(step_provider(&config, 0, true, "openai"), "groq");
    assert_eq!(step_provider(&config, 1, true, "openai"), "openai");
    assert_eq!(step_provider(&config, 0, false, "openai"), "openai");
}

#[test]
fn result_rows_follow_the_steps_and_cut_long_replies() {
    let config = chain(vec![step("a", "x", None), step("b", "y", None), step("c", "z", None)]);
    let long = "word ".repeat(120);
    let results = memory(&[("c", "short"), ("a", long.as_str())]);
    let rows = llm::chain::report::result_rows(&results, &config);
    assert_eq!(rows.len(), 2);
    assert_eq!(rows[0].0, "a");
    assert_eq!(rows[0].1, format!("{}...", textwrap::fill(&long[0..497], 100)));
    assert_eq!(rows[1], ("c".to_string(), "short".to_string()));
    let exact = "b".repeat(500);
    let results = memory(&[("b", exact.as_str())]);
    let rows = llm::chain::report::result_rows(&results, &config);
    assert_eq!(rows, vec![("b".to_string(), textwrap::fill(&exact, 100))]);
}
