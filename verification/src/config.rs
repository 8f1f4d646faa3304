//! The client's configuration: its sections with their defaults, and where the
//! configuration, data and log files live.
use vstd::prelude::*;

use crate::strings::{chars_of, opt_view};

verus! {

/// Autosave is on unless the configuration turns it off.
pub const DEFAULT_AUTOSAVE: bool = true;

/// How long a tool may run, in milliseconds.
pub const DEFAULT_TOOL_TIMEOUT_MS: u64 = 5_000;

/// The size at which the log file is rotated, in bytes.
pub const DEFAULT_LOG_ROTATE_SIZE: u64 = 10 * 1024 * 1024;

/// How many rotated log files are kept.
pub const DEFAULT_LOG_ROTATE_KEEP: usize = 5;

/// Why the configuration could not be loaded, saved or placed.
#[derive(Debug)]
pub enum ConfigError {
    /// Reading or writing a file failed.
    Io(std::io::Error),
    /// The configuration file is not valid TOML for the configuration.
    Toml(toml::de::Error),
    /// The configuration could not be written as TOML.
    TomlSerialize(toml::ser::Error),
    /// No home directory to put the default paths under.
    MissingHome,
}

/// How the text user interface is navigated.
#[derive(Debug, Clone, Copy, PartialEq, Eq, Structural)]
pub enum NavigationMode {
    /// Arrow keys.
    Simple,
    /// Vim key bindings.
    Vi,
}

impl Default for NavigationMode {
    fn default() -> (m: Self)
        ensures
            m == NavigationMode::Simple,
    {
        NavigationMode::Simple
    }
}

/// The text user interface's settings.
#[derive(Debug, Clone)]
pub struct UiConfig {
    /// Theme name: "warm" (the default), "cool", "mono", or "codex" (an older name for "warm").
    pub theme: String,
    /// Whether messages show their time.
    pub timestamps: bool,
    /// Whether code blocks are wrapped.
    pub wrap_code: bool,
    /// Arrow keys or vim key bindings.
    pub navigation_mode: NavigationMode,
}

impl Default for UiConfig {
    fn default() -> (c: Self)
        ensures
            c.theme@ == "warm"@,
            c.timestamps,
            !c.wrap_code,
            c.navigation_mode == NavigationMode::Simple,
    {
        UiConfig {
            theme: String::from_str("warm"),
            timestamps: true,
            wrap_code: false,
            navigation_mode: NavigationMode::Simple,
        }
    }
}

/// Logging settings.
#[derive(Debug, Clone)]
pub struct LoggingConfig {
    /// The least severe level that is written.
    pub level: String,
    /// The log file, when not the default one.
    pub path: Option<String>,
    /// The size at which the log file is rotated, in bytes.
    pub rotate_size: u64,
    /// How many rotated files are kept.
    pub rotate_keep: usize,
}

impl Default for LoggingConfig {
    fn default() -> (c: Self)
        ensures
            c.level@ == "info"@,
            c.path is None,
            c.rotate_size == DEFAULT_LOG_ROTATE_SIZE,
            c.rotate_keep == DEFAULT_LOG_ROTATE_KEEP,
    {
        LoggingConfig {
            level: String::from_str("info"),
            path: None,
            rotate_size: DEFAULT_LOG_ROTATE_SIZE,
            rotate_keep: DEFAULT_LOG_ROTATE_KEEP,
        }
    }
}

/// Where conversations are stored.
#[derive(Debug, Clone)]
pub struct StorageConfig {
    /// Whether conversations are saved as they change.
    pub autosave: bool,
    /// The data directory, when not the default one.
    pub data_dir: Option<String>,
}

impl Default for StorageConfig {
    fn default() -> (c: Self)
        ensures
            c.autosave == DEFAULT_AUTOSAVE,
            c.data_dir is None,
    {
        StorageConfig { autosave: DEFAULT_AUTOSAVE, data_dir: None }
    }
}

/// Whether tool calls run without asking.
#[derive(Debug, Clone, Copy, PartialEq, Eq, Structural)]
pub enum ToolExecutionMode {
    Always,
    Ask,
    Never,
}

/// Tool settings.
#[derive(Debug, Clone)]
pub struct ToolsConfig {
    /// Whether tool calls run without asking.
    pub execution: ToolExecutionMode,
    /// The tools that are turned on.
    pub enabled: Vec<String>,
    /// The paths tools may touch.
    pub allowed_paths: Vec<String>,
    /// How long a tool may run, in milliseconds.
    pub timeout_ms: u64,
}

impl Default for ToolsConfig {
    fn default() -> (c: Self)
        ensures
            c.execution == ToolExecutionMode::Ask,
            c.enabled@.len() == 0,
            c.allowed_paths@.len() == 0,
            c.timeout_ms == DEFAULT_TOOL_TIMEOUT_MS,
    {
        ToolsConfig {
            execution: ToolExecutionMode::Ask,
            enabled: Vec::new(),
            allowed_paths: Vec::new(),
            timeout_ms: DEFAULT_TOOL_TIMEOUT_MS,
        }
    }
}

/// How a conversation that outgrows the context is cut down.
#[derive(Debug, Clone, Copy, PartialEq, Eq, Structural)]
pub enum TrimStrategy {
    SlidingWindow,
    Summarize,
}

/// The permission bits a configuration file is given when group or others
/// may read, write or run it: owner read and write only; `None` when it is
/// private already and is left as it is.
pub fn secured_mode(mode: u32) -> (r: Option<u32>)
    ensures
        r == (if (mode & 0o777) & 0o077 != 0 {
            Some(0o600u32)
        } else {
            None
        }),
{
    if (mode & 0o777) & 0o077 != 0 {
        Some(0o600)
    } else {
        None
    }
}

/// `base` and `name` joined as a path: an absolute `name` (starting with `/`)
/// replaces `base`; else a `/` goes between them unless `base` is empty or
/// already ends in one.
pub open spec fn join_spec(base: Seq<char>, name: Seq<char>) -> Seq<char> {
    if name.len() > 0 && name[0] == '/' {
        name
    } else if base.len() == 0 || base.last() == '/' {
        base + name
    } else {
        base + seq!['/'] + name
    }
}

/// `base` joined with `name` as `Path::join` does it.
pub fn path_join(base: &str, name: &str) -> (p: String)
    ensures
        p@ == join_spec(base@, name@),
{
    let name_chars = chars_of(name);
    if name_chars.len() > 0 && name_chars[0] == '/' {
        return String::from_str(name);
    }
    let chars = chars_of(base);
    let mut out = String::from_str(base);
    if chars.len() > 0 && chars[chars.len() - 1] != '/' {
        out.append("/");
        proof {
            reveal_strlit("/");
        }
    }
    out.append(name);
    out
}

/// The configuration directory under home directory `h`: `.config/llm`.
pub open spec fn config_dir_spec(h: Seq<char>) -> Seq<char> {
    join_spec(join_spec(h, ".config"@), "llm"@)
}

/// The data directory under home directory `h`: `.local/share/llm`.
pub open spec fn data_dir_spec(h: Seq<char>) -> Seq<char> {
    join_spec(join_spec(join_spec(h, ".local"@), "share"@), "llm"@)
}

/// The log directory under home directory `h`: `logs` in the data directory.
pub open spec fn logs_dir_spec(h: Seq<char>) -> Seq<char> {
    join_spec(data_dir_spec(h), "logs"@)
}

/// What `Path::parent` gives for a path: the path without its last component.
pub uninterp spec fn parent_of(p: Seq<char>) -> Option<Seq<char>>;

/// `dirs::home_dir`, as text (lossily where the path is not UTF-8). It reads
/// the environment and the user database, so nothing is stated of the result.
#[verifier::external_body]
fn home_dir() -> (h: Option<String>) {
    match dirs::home_dir() {
        Some(p) => Some(p.to_string_lossy().into_owned()),
        None => None,
    }
}

/// `Path::parent` on `p`: what `parent_of` names. Its documentation says the
/// empty path has no parent and that the parent is the path without its
/// final component, so a shorter prefix of it.
#[verifier::external_body]
fn path_parent(p: &str) -> (r: Option<String>)
    ensures
        match r {
            Some(q) => parent_of(p@) == Some(q@) && q@.len() < p@.len() && q@ == p@.subrange(
                0,
                q@.len() as int,
            ),
            None => parent_of(p@) is None,
        },
        p@.len() == 0 ==> r is None,
{
    match std::path::Path::new(p).parent() {
        Some(q) => Some(q.to_string_lossy().into_owned()),
        None => None,
    }
}

/// The configuration directory under home directory `home`.
pub fn config_dir_in(home: &str) -> (d: String)
    ensures
        d@ == config_dir_spec(home@),
{
    proof {
        reveal_strlit(".config");
        reveal_strlit("llm");
    }
    let c = path_join(home, ".config");
    path_join(c.as_str(), "llm")
}

/// The data directory under home directory `home`.
pub fn data_dir_in(home: &str) -> (d: String)
    ensures
        d@ == data_dir_spec(home@),
{
    proof {
        reveal_strlit(".local");
        reveal_strlit("share");
        reveal_strlit("llm");
    }
    let l = path_join(home, ".local");
    let s = path_join(l.as_str(), "share");
    path_join(s.as_str(), "llm")
}

/// The log directory under home directory `home`.
pub fn logs_dir_in(home: &str) -> (d: String)
    ensures
        d@ == logs_dir_spec(home@),
{
    proof {
        reveal_strlit("logs");
    }
    let data = data_dir_in(home);
    path_join(data.as_str(), "logs")
}

/// Where the configuration file and the client's directories are.
#[derive(Debug, Clone)]
pub struct ConfigPaths {
    pub config_file: String,
    pub config_dir: String,
    pub data_dir: String,
    pub logs_dir: String,
}

/// The paths under home directory `home` (`None` when there is none), for
/// an override `config_override` of the configuration file: `MissingHome`
/// when the override has no parent or there is no home; else, with an
/// override, that file in its parent directory, without one `config.toml` in
/// the configuration directory under the home; the data and log directories
/// are always those under the home.
pub open spec fn paths_outcome(
    r: Result<ConfigPaths, ConfigError>,
    home: Option<Seq<char>>,
    config_override: Option<Seq<char>>,
) -> bool {
    let missing = r matches Err(e) && e is MissingHome;
    match config_override {
        Some(o) => match (parent_of(o), home) {
            (Some(d), Some(h)) => r matches Ok(p) && p.config_file@ == o && p.config_dir@ == d
                && p.data_dir@ == data_dir_spec(h) && p.logs_dir@ == logs_dir_spec(h),
            _ => missing,
        },
        None => match home {
            Some(h) => r matches Ok(p) && p.config_dir@ == config_dir_spec(h) && p.config_file@
                == join_spec(config_dir_spec(h), "config.toml"@) && p.data_dir@ == data_dir_spec(h)
                && p.logs_dir@ == logs_dir_spec(h),
            None => missing,
        },
    }
}

impl ConfigPaths {
    /// The paths for home directory `home` (see [`paths_outcome`]).
    pub fn resolve_in(home: Option<&str>, config_override: Option<String>) -> (r: Result<
        Self,
        ConfigError,
    >)
        ensures
            paths_outcome(
                r,
                match home {
                    Some(h) => Some(h@),
                    None => None,
                },
                opt_view(config_override),
            ),
    {
        match config_override {
            Some(path) => {
                let dir = match path_parent(path.as_str()) {
                    Some(d) => d,
                    None => return Err(ConfigError::MissingHome),
                };
                let h = match home {
                    Some(h) => h,
                    None => return Err(ConfigError::MissingHome),
                };
                let data = data_dir_in(h);
                let logs = logs_dir_in(h);
                Ok(Self::from_dirs(dir, data, logs, path))
            },
            None => {
                let h = match home {
                    Some(h) => h,
                    None => return Err(ConfigError::MissingHome),
                };
                let config_dir = config_dir_in(h);
                proof {
                    reveal_strlit("config.toml");
                }
                let config_file = path_join(config_dir.as_str(), "config.toml");
                Ok(Self::from_dirs(config_dir, data_dir_in(h), logs_dir_in(h), config_file))
            },
        }
    }

    /// The paths under the user's home directory, read once (see
    /// [`paths_outcome`]); which home that is depends on the environment.
    pub fn resolve(config_override: Option<String>) -> (r: Result<Self, ConfigError>)
        ensures
            exists|h: Option<Seq<char>>| #[trigger] paths_outcome(r, h, opt_view(config_override)),
    {
        let ghost o = opt_view(config_override);
        let home = home_dir();
        let r = match &home {
            Some(h) => Self::resolve_in(Some(h.as_str()), config_override),
            None => Self::resolve_in(None, config_override),
        };
        assert(paths_outcome(r, opt_view(home), o));
        r
    }

    fn from_dirs(config_dir: String, data_dir: String, logs_dir: String, config_file: String) -> (p:
        Self)
        ensures
            p.config_file == config_file,
            p.config_dir == config_dir,
            p.data_dir == data_dir,
            p.logs_dir == logs_dir,
    {
        ConfigPaths { config_file, config_dir, data_dir, logs_dir }
    }

    /// The file of user-defined tools: `tools.yaml` in the configuration directory.
    pub fn user_tools_file(&self) -> (p: String)
        ensures
            p@ == join_spec(self.config_dir@, "tools.yaml"@),
    {
        proof {
            reveal_strlit("tools.yaml");
        }
        path_join(self.config_dir.as_str(), "tools.yaml")
    }
}

/// What `Path::file_stem` gives for a path: its file name without the extension.
pub uninterp spec fn file_stem_of(p: Seq<char>) -> Option<Seq<char>>;

/// `Path::file_stem` on `p`: what `file_stem_of` names.
#[verifier::external_body]
fn path_file_stem(p: &str) -> (r: Option<String>)
    ensures
        match r {
            Some(q) => file_stem_of(p@) == Some(q@),
            None => file_stem_of(p@) is None,
        },
{
    match std::path::Path::new(p).file_stem() {
        Some(q) => Some(q.to_string_lossy().into_owned()),
        None => None,
    }
}

/// The log file: the configured one, else `llm.log` in the log directory.
pub open spec fn log_path_spec(config_path: Option<Seq<char>>, logs_dir: Seq<char>) -> Seq<char> {
    match config_path {
        Some(p) => p,
        None => join_spec(logs_dir, "llm.log"@),
    }
}

/// Where the log is written: the directory of the log file (the log
/// directory when it has none), and the file's name without extension
/// (`llm` when it has none).
pub fn log_location(config: &LoggingConfig, paths: &ConfigPaths) -> (r: (String, String))
    ensures
        ({
            let p = log_path_spec(
                match config.path {
                    Some(s) => Some(s@),
                    None => None,
                },
                paths.logs_dir@,
            );
            &&& r.0@ == match parent_of(p) {
                Some(d) => d,
                None => paths.logs_dir@,
            }
            &&& r.1@ == match file_stem_of(p) {
                Some(b) => b,
                None => "llm"@,
            }
        }),
{
    let log_path = match &config.path {
        Some(p) => p.clone(),
        None => {
            proof {
                reveal_strlit("llm.log");
            }
            path_join(paths.logs_dir.as_str(), "llm.log")
        },
    };
    let directory = match path_parent(log_path.as_str()) {
        Some(d) => d,
        None => paths.logs_dir.clone(),
    };
    let basename = match path_file_stem(log_path.as_str()) {
        Some(b) => b,
        None => String::from_str("llm"),
    };
    (directory, basename)
}

} // verus!
