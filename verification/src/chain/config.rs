//! A chain's description: its steps, each a prompt template with an
//! optional condition, and its interactive settings.
use vstd::prelude::*;

use crate::strings::{chars_of, lowercase_of, opt_view, string_from_chars, to_lowercase};
use crate::text::same_text;

verus! {

/// One step of a chain (its sampling temperature is kept by the caller).
#[derive(Debug, Clone)]
pub struct StepConfig {
    /// The step's name; its reply is bound to this variable.
    pub id: String,
    /// The prompt, with `{{variable}}` placeholders.
    pub template: String,
    /// The provider for this step, in multi-provider chains.
    pub provider_id: Option<String>,
    /// "chat" or "completion".
    pub mode: String,
    /// The most tokens the reply may have.
    pub max_tokens: Option<u32>,
    /// Runs the step only when it holds.
    pub condition: Option<String>,
    /// Whether the user reviews the reply in interactive mode.
    pub interactive: bool,
}

/// Interactive settings of a chain.
#[derive(Debug, Clone)]
pub struct InteractiveConfig {
    /// Whether interactive mode starts even when the output is piped or JSON.
    pub auto_start: bool,
    /// The steps whose replies the user reviews.
    pub default_steps: Vec<String>,
    /// Seconds before continuing without the user.
    pub timeout: u32,
    /// Where the history of interactions is saved.
    pub save_path: Option<String>,
}

/// A chain of prompts.
#[derive(Debug, Clone)]
pub struct ChainConfig {
    pub name: String,
    pub description: Option<String>,
    /// The provider, as `provider:model`, used when none is given.
    pub default_provider: Option<String>,
    pub steps: Vec<StepConfig>,
    /// The variable piped input is bound to.
    pub input_var: String,
    pub interactive_config: InteractiveConfig,
}

/// The abstract value of a step.
pub struct StepModel {
    pub id: Seq<char>,
    pub template: Seq<char>,
    pub provider_id: Option<Seq<char>>,
    pub mode: Seq<char>,
    pub condition: Option<Seq<char>>,
    pub interactive: bool,
}

impl View for StepConfig {
    type V = StepModel;

    open spec fn view(&self) -> StepModel {
        StepModel {
            id: self.id@,
            template: self.template@,
            provider_id: opt_view(self.provider_id),
            mode: self.mode@,
            condition: opt_view(self.condition),
            interactive: self.interactive,
        }
    }
}

impl ChainConfig {
    /// The steps' abstract values.
    pub open spec fn steps_view(&self) -> Seq<StepModel> {
        self.steps@.map_values(|s: StepConfig| s@)
    }

    /// The names of the steps reviewed in interactive mode by default.
    pub open spec fn default_steps_view(&self) -> Seq<Seq<char>> {
        self.interactive_config.default_steps@.map_values(|s: String| s@)
    }
}

/// The index of the first step named `id`.
pub open spec fn position_spec(steps: Seq<StepModel>, id: Seq<char>) -> Option<int> {
    if exists|i: int| 0 <= i < steps.len() && #[trigger] steps[i].id == id {
        Some(
            choose|i: int|
                0 <= i < steps.len() && #[trigger] steps[i].id == id && forall|j: int|
                    0 <= j < i ==> steps[j].id != id,
        )
    } else {
        None
    }
}

/// The index of the first step named `id`.
pub fn step_position(config: &ChainConfig, id: &str) -> (r: Option<usize>)
    ensures
        match r {
            Some(i) => i < config.steps@.len() && config.steps_view()[i as int].id == id@
                && forall|j: int| 0 <= j < i ==> #[trigger] config.steps_view()[j].id != id@,
            None => forall|j: int|
                0 <= j < config.steps@.len() ==> #[trigger] config.steps_view()[j].id != id@,
        },
        r matches Some(i) ==> position_spec(config.steps_view(), id@) == Some(i as int),
        r is None ==> position_spec(config.steps_view(), id@) is None,
{
    let ghost steps = config.steps_view();
    let mut i: usize = 0;
    while i < config.steps.len()
        invariant
            0 <= i <= config.steps@.len(),
            steps == config.steps_view(),
            forall|j: int| 0 <= j < i ==> #[trigger] steps[j].id != id@,
        decreases config.steps.len() - i,
    {
        assert(steps[i as int] == config.steps@[i as int]@);
        if same_text(config.steps[i].id.as_str(), id) {
            proof {
                let w = choose|k: int|
                    0 <= k < steps.len() && #[trigger] steps[k].id == id@ && forall|j: int|
                        0 <= j < k ==> steps[j].id != id@;
                assert(0 <= i < steps.len() && steps[i as int].id == id@ && forall|j: int|
                    0 <= j < i ==> steps[j].id != id@);
                if w < i {
                    assert(steps[w].id != id@);
                } else if w > i {
                    assert(steps[i as int].id != id@);
                }
            }
            return Some(i);
        }
        i = i + 1;
    }
    None
}

/// Some step names its own provider.
pub open spec fn multiple_providers_spec(steps: Seq<StepModel>) -> bool {
    exists|i: int| 0 <= i < steps.len() && (#[trigger] steps[i]).provider_id is Some
}

/// Whether the chain needs more than its default provider: some step names its own.
pub fn has_multiple_providers(config: &ChainConfig) -> (b: bool)
    ensures
        b == multiple_providers_spec(config.steps_view()),
{
    let ghost steps = config.steps_view();
    let mut i: usize = 0;
    while i < config.steps.len()
        invariant
            0 <= i <= config.steps@.len(),
            steps == config.steps_view(),
            forall|j: int| 0 <= j < i ==> (#[trigger] steps[j]).provider_id is None,
        decreases config.steps.len() - i,
    {
        assert(steps[i as int] == config.steps@[i as int]@);
        if config.steps[i].provider_id.is_some() {
            return true;
        }
        i = i + 1;
    }
    false
}

/// The provider a step asks: in a chain run with several providers, the one
/// the step names, when it names one; else `default`.
pub open spec fn step_provider_spec(step: StepModel, multi_provider: bool, default: Seq<char>) -> Seq<char> {
    if multi_provider && step.provider_id is Some {
        step.provider_id->0
    } else {
        default
    }
}

/// The provider step `index` asks (see [`step_provider_spec`]).
pub fn step_provider<'a>(
    config: &'a ChainConfig,
    index: usize,
    multi_provider: bool,
    default: &'a str,
) -> (p: &'a str)
    requires
        index < config.steps@.len(),
    ensures
        p@ == step_provider_spec(config.steps_view()[index as int], multi_provider, default@),
{
    assert(config.steps_view()[index as int] == config.steps@[index as int]@);
    if multi_provider {
        match &config.steps[index].provider_id {
            Some(p) => p.as_str(),
            None => default,
        }
    } else {
        default
    }
}

/// Whether a step's mode asks for a completion rather than a chat reply.
pub fn is_completion_mode(mode: &str) -> (b: bool)
    ensures
        b == (lowercase_of(mode@) == "completion"@),
{
    let lower = to_lowercase(mode);
    same_text(lower.as_str(), "completion")
}

/// The index of the first `:` in `s` at or after `k`.
pub open spec fn colon_from(s: Seq<char>, k: int) -> Option<int>
    decreases s.len() - k,
{
    if k < 0 || k >= s.len() {
        None
    } else if s[k] == ':' {
        Some(k)
    } else {
        colon_from(s, k + 1)
    }
}

/// The first two `:`-separated parts of `s`: the provider, and the model if there is one.
pub open spec fn provider_parts(s: Seq<char>) -> (Seq<char>, Option<Seq<char>>) {
    match colon_from(s, 0) {
        None => (s, None),
        Some(i) => (
            s.subrange(0, i),
            Some(
                match colon_from(s, i + 1) {
                    Some(j) => s.subrange(i + 1, j),
                    None => s.subrange(i + 1, s.len() as int),
                },
            ),
        ),
    }
}

proof fn lemma_colon_from(s: Seq<char>, k: int)
    requires
        0 <= k,
    ensures
        match colon_from(s, k) {
            Some(i) => k <= i < s.len() && s[i] == ':' && forall|j: int|
                k <= j < i ==> s[j] != ':',
            None => forall|j: int| k <= j < s.len() ==> s[j] != ':',
        },
    decreases s.len() - k,
{
    if k < s.len() && s[k] != ':' {
        lemma_colon_from(s, k + 1);
    }
}

/// The first `:` of `v` at or after `k`.
fn find_colon(v: &Vec<char>, k: usize) -> (r: Option<usize>)
    requires
        k <= v.len(),
    ensures
        match r {
            Some(i) => colon_from(v@, k as int) == Some(i as int),
            None => colon_from(v@, k as int) is None,
        },
{
    let mut i = k;
    while i < v.len()
        invariant
            k <= i <= v.len(),
            colon_from(v@, k as int) == colon_from(v@, i as int),
        decreases v.len() - i,
    {
        if v[i] == ':' {
            return Some(i);
        }
        i = i + 1;
    }
    None
}

/// `provider:model` split into the provider and, if present, the model
/// (what follows a third part is ignored).
pub fn split_provider(s: &str) -> (r: (String, Option<String>))
    ensures
        r.0@ == provider_parts(s@).0,
        opt_view(r.1) == provider_parts(s@).1,
{
    let v = chars_of(s);
    match find_colon(&v, 0) {
        None => {
            assert(v@.subrange(0, v.len() as int) =~= v@);
            (string_from_chars(v.as_slice()), None)
        },
        Some(i) => {
            proof {
                lemma_colon_from(v@, 0);
            }
            let provider = string_from_chars(&v.as_slice()[0..i]);
            let end = match find_colon(&v, i + 1) {
                Some(j) => {
                    proof {
                        lemma_colon_from(v@, i + 1);
                    }
                    j
                },
                None => v.len(),
            };
            let model = string_from_chars(&v.as_slice()[i + 1..end]);
            (provider, Some(model))
        },
    }
}

/// The provider and model a chain runs with: from the command line, else
/// from the chain's default; `None` when neither gives one (the caller then
/// looks in the stored settings).
pub fn provider_info(cli_provider: Option<&str>, config: &ChainConfig) -> (r: Option<
    (String, Option<String>),
>)
    ensures
        match cli_provider {
            Some(p) => r matches Some(x) && x.0@ == provider_parts(p@).0 && opt_view(x.1)
                == provider_parts(p@).1,
            None => match config.default_provider {
                Some(p) => r matches Some(x) && x.0@ == provider_parts(p@).0 && opt_view(x.1)
                    == provider_parts(p@).1,
                None => r is None,
            },
        },
{
    match cli_provider {
        Some(p) => Some(split_provider(p)),
        None => match &config.default_provider {
            Some(p) => Some(split_provider(p.as_str())),
            None => None,
        },
    }
}

/// The formats a chain file is read from and written in.
#[derive(Debug, Clone, Copy, PartialEq, Eq, Structural)]
pub enum FileFormat {
    Json,
    Yaml,
}

/// The format a file extension names: `json`, or `yaml` and `yml`.
pub open spec fn format_named(ext: Seq<char>) -> Option<FileFormat> {
    if ext == "json"@ {
        Some(FileFormat::Json)
    } else if ext == "yaml"@ || ext == "yml"@ {
        Some(FileFormat::Yaml)
    } else {
        None
    }
}

/// The format of a chain file with extension `ext`; `None` for any other
/// extension, which is refused.
pub fn format_of_extension(ext: &str) -> (f: Option<FileFormat>)
    ensures
        f == format_named(ext@),
{
    if same_text(ext, "json") {
        Some(FileFormat::Json)
    } else if same_text(ext, "yaml") || same_text(ext, "yml") {
        Some(FileFormat::Yaml)
    } else {
        None
    }
}

} // verus!
