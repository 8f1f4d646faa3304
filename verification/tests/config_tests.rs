use llm::args::CommandKind;
use llm::config::{
    config_dir_in, data_dir_in, logs_dir_in, path_join, secured_mode, ConfigPaths, LoggingConfig,
    NavigationMode, StorageConfig, ToolExecutionMode, ToolsConfig, UiConfig, DEFAULT_LOG_ROTATE_KEEP,
    DEFAULT_LOG_ROTATE_SIZE,
};

#[test]
fn default_theme_is_warm() {
    let config = UiConfig::default();
    assert_eq!(config.theme, "warm");
}

#[test]
fn default_navigation_is_simple() {
    let config = UiConfig::default();
    assert_eq!(config.navigation_mode, NavigationMode::Simple);
}

#[test]
fn ui_defaults_show_timestamps_without_wrapping_code() {
    let config = UiConfig::default();
    assert!(config.timestamps);
    assert!(!config.wrap_code);
    assert_eq!(NavigationMode::default(), NavigationMode::Simple);
}

#[test]
fn logging_defaults() {
    let config = LoggingConfig::default();
    assert_eq!(config.level, "info");
    assert!(config.path.is_none());
    assert_eq!(config.rotate_size, 10 * 1024 * 1024);
    assert_eq!(config.rotate_size, DEFAULT_LOG_ROTATE_SIZE);
    assert_eq!(config.rotate_keep, 5);
    assert_eq!(DEFAULT_LOG_ROTATE_KEEP, 5);
}

#[test]
fn storage_and_tools_defaults() {
    let storage = StorageConfig::default();
    assert!(storage.autosave);
    assert!(storage.data_dir.is_none());
    let tools = ToolsConfig::default();
    assert_eq!(tools.execution, ToolExecutionMode::Ask);
    assert!(tools.enabled.is_empty());
    assert!(tools.allowed_paths.is_empty());
    assert_eq!(tools.timeout_ms, 5_000);
}

#[test]
fn joins_paths_with_one_separator() {
    assert_eq!(path_join("/home/u", "x"), "/home/u/x");
    assert_eq!(path_join("/home/u/", "x"), "/home/u/x");
    assert_eq!(path_join("", "x"), "x");
    assert_eq!(path_join("/a", "/b"), "/b");
    assert_eq!(path_join("/a", ""), "/a/");
}

#[test]
fn default_directories_under_home() {
    assert_eq!(config_dir_in("/home/u"), "/home/u/.config/llm");
    assert_eq!(data_dir_in("/home/u/"), "/home/u/.local/share/llm");
    assert_eq!(logs_dir_in("/home/u"), "/home/u/.local/share/llm/logs");
}

#[test]
fn user_tools_file_is_in_config_dir() {
    let paths = ConfigPaths {
        config_file: "/c/config.toml".to_string(),
        config_dir: "/c".to_string(),
        data_dir: "/d".to_string(),
        logs_dir: "/d/logs".to_string(),
    };
    assert_eq!(paths.user_tools_file(), "/c/tools.yaml");
}

#[test]
fn override_file_sits_in_its_parent_directory() {
    match ConfigPaths::resolve(Some("/tmp/somewhere/custom.toml".to_string())) {
        Ok(paths) => {
            assert_eq!(paths.config_file, "/tmp/somewhere/custom.toml");
            assert_eq!(paths.config_dir, "/tmp/somewhere");
            assert!(paths.logs_dir.ends_with("/.local/share/llm/logs"));
        }
        Err(e) => assert!(matches!(e, llm::config::ConfigError::MissingHome)),
    }
}

#[test]
fn override_without_parent_is_refused() {
    let r = ConfigPaths::resolve(Some(String::new()));
    assert!(matches!(r, Err(llm::config::ConfigError::MissingHome)));
}

#[test]
fn default_config_file_is_config_toml() {
    if let Ok(paths) = ConfigPaths::resolve(None) {
        assert!(paths.config_file.ends_with("/.config/llm/config.toml"));
        assert_eq!(paths.config_file, format!("{}/config.toml", paths.config_dir));
    }
}

#[test]
fn permissions_are_tightened_only_when_shared() {
    assert_eq!(secured_mode(0o644), Some(0o600));
    assert_eq!(secured_mode(0o100640), Some(0o600));
    assert_eq!(secured_mode(0o600), None);
    assert_eq!(secured_mode(0o100700), None);
}

#[test]
fn parses_commands_in_any_case() {
    assert_eq!(CommandKind::parse("set"), Some(CommandKind::SetValue));
    assert_eq!(CommandKind::parse("GET"), Some(CommandKind::Get));
    assert_eq!(CommandKind::parse("Delete"), Some(CommandKind::Delete));
    assert_eq!(CommandKind::parse("default"), Some(CommandKind::Default));
    assert_eq!(CommandKind::parse("cHaT"), Some(CommandKind::Chat));
    assert_eq!(CommandKind::parse("openai"), None);
    assert_eq!(CommandKind::parse(""), None);
    assert_eq!(CommandKind::from_lowercase("Set"), None);
}

#[test]
fn paths_under_a_given_home() {
    let p = ConfigPaths::resolve_in(Some("/home/u"), None).unwrap();
    assert_eq!(p.config_dir, "/home/u/.config/llm");
    assert_eq!(p.config_file, "/home/u/.config/llm/config.toml");
    assert_eq!(p.data_dir, "/home/u/.local/share/llm");
    assert_eq!(p.logs_dir, "/home/u/.local/share/llm/logs");
    let o = ConfigPaths::resolve_in(Some("/home/u"), Some("/etc/llm/c.toml".to_string())).unwrap();
    assert_eq!(o.config_file, "/etc/llm/c.toml");
    assert_eq!(o.config_dir, "/etc/llm");
    assert_eq!(o.data_dir, "/home/u/.local/share/llm");
    assert!(matches!(
        ConfigPaths::resolve_in(None, None),
        Err(llm::config::ConfigError::MissingHome)
    ));
    assert!(matches!(
        ConfigPaths::resolve_in(None, Some("/etc/llm/c.toml".to_string())),
        Err(llm::config::ConfigError::MissingHome)
    ));
    assert!(matches!(
        ConfigPaths::resolve_in(Some("/home/u"), Some(String::new())),
        Err(llm::config::ConfigError::MissingHome)
    ));
}
