//! The decisions behind the interactive review of a reply: reading the
//! user's key, which step a jump goes to, the prompt a modification starts
//! from, and how steps, variables and long values are shown.
use vstd::prelude::*;
use vstd::utf8::*;

use crate::chain::config::{step_position, position_spec, ChainConfig};
use crate::chain::memory::Memory;
use crate::chain::run::InteractiveChoice;
use crate::chain::template::{apply_template, fill_spec};
use crate::strings::{byte_len, chars_of, lowercase_of, string_from_chars, substr, to_lowercase, utf8};
use crate::text::{has_prefix, parse_usize, parse_usize_spec, same_text, starts_with, trim, trim_bounds};

verus! {

/// What the user's answer at the review prompt asks for.
#[derive(Debug, Clone, Copy, PartialEq, Eq, Structural)]
pub enum MenuKey {
    /// `a` or `1`: keep the reply.
    Accept,
    /// `e` or `2`: edit the reply.
    Edit,
    /// `m` or `3`: change the next step's prompt.
    Modify,
    /// `s` or `4`: jump to another step.
    Skip,
    /// `v` or `5`: show the variables.
    Variables,
    /// `h` or `6`: show help.
    Help,
    /// `q` or `7`: stop the chain.
    Quit,
    /// Anything else.
    Invalid,
}

/// The key a trimmed, lowercased answer names.
pub open spec fn key_named(s: Seq<char>) -> MenuKey {
    if s == "a"@ || s == "1"@ {
        MenuKey::Accept
    } else if s == "e"@ || s == "2"@ {
        MenuKey::Edit
    } else if s == "m"@ || s == "3"@ {
        MenuKey::Modify
    } else if s == "s"@ || s == "4"@ {
        MenuKey::Skip
    } else if s == "v"@ || s == "5"@ {
        MenuKey::Variables
    } else if s == "h"@ || s == "6"@ {
        MenuKey::Help
    } else if s == "q"@ || s == "7"@ {
        MenuKey::Quit
    } else {
        MenuKey::Invalid
    }
}

/// Whether `s` is `a` or `b`.
fn either(s: &str, a: &str, b: &str) -> (r: bool)
    ensures
        r == (s@ == a@ || s@ == b@),
{
    same_text(s, a) || same_text(s, b)
}

/// The key the user's answer `line` names, whatever its case and the white
/// space around it.
pub fn menu_key(line: &str) -> (k: MenuKey)
    ensures
        k == key_named(lowercase_of(trim(line@))),
{
    let v = chars_of(line);
    let (lo, hi) = trim_bounds(&v);
    let trimmed = string_from_chars(&v.as_slice()[lo..hi]);
    let lower = to_lowercase(trimmed.as_str());
    let s = lower.as_str();
    if either(s, "a", "1") {
        MenuKey::Accept
    } else if either(s, "e", "2") {
        MenuKey::Edit
    } else if either(s, "m", "3") {
        MenuKey::Modify
    } else if either(s, "s", "4") {
        MenuKey::Skip
    } else if either(s, "v", "5") {
        MenuKey::Variables
    } else if either(s, "h", "6") {
        MenuKey::Help
    } else if either(s, "q", "7") {
        MenuKey::Quit
    } else {
        MenuKey::Invalid
    }
}

/// The index of step `step_id`, or 0 when no step has that name.
pub fn current_step_index(config: &ChainConfig, step_id: &str) -> (i: usize)
    ensures
        i == match position_spec(config.steps_view(), step_id@) {
            Some(k) => k,
            None => 0,
        },
{
    match step_position(config, step_id) {
        Some(i) => i,
        None => 0,
    }
}

/// The step after `step_id` and its prompt filled from `memory`, to modify
/// before it runs; `None` when `step_id` is the last step.
pub fn next_prompt(config: &ChainConfig, step_id: &str, memory: &Memory) -> (r: Option<(usize, String)>)
    ensures
        ({
            let cur = match position_spec(config.steps_view(), step_id@) {
                Some(k) => k,
                None => 0,
            };
            if cur + 1 < config.steps@.len() {
                r matches Some(x) && x.0 == cur + 1 && x.1@ == fill_spec(
                    config.steps_view()[cur + 1].template,
                    memory@,
                )
            } else {
                r is None
            }
        }),
{
    let cur = current_step_index(config, step_id);
    if cur < config.steps.len() && cur + 1 < config.steps.len() {
        let next = &config.steps[cur + 1];
        assert(config.steps_view()[cur + 1] == next@);
        Some((cur + 1, apply_template(next.template.as_str(), memory)))
    } else {
        None
    }
}

/// The step an answer to "jump to step #" names: a number from 1 to the
/// number of steps, white space around it ignored.
pub open spec fn jump_index(input: Seq<char>, n: int) -> Option<int> {
    match parse_usize_spec(trim(input)) {
        Some(k) => if 0 < k <= n {
            Some(k - 1)
        } else {
            None
        },
        None => None,
    }
}

/// The jump the answer `input` asks for: to the step it numbers from 1.
pub fn jump_choice(config: &ChainConfig, input: &str) -> (r: Option<InteractiveChoice>)
    ensures
        match jump_index(input@, config.steps@.len() as int) {
            Some(i) => r matches Some(InteractiveChoice::SkipToStep(id)) && id@
                == config.steps_view()[i].id,
            None => r is None,
        },
{
    let v = chars_of(input);
    let (lo, hi) = trim_bounds(&v);
    let t = &v.as_slice()[lo..hi];
    assert(t@ == trim(input@));
    match parse_usize(t) {
        Some(k) => {
            if k > 0 && k <= config.steps.len() {
                assert(config.steps_view()[k - 1] == config.steps@[k - 1]@);
                Some(InteractiveChoice::SkipToStep(config.steps[k - 1].id.clone()))
            } else {
                None
            }
        },
        None => None,
    }
}

/// What a variable is, as the variable table shows it.
#[derive(Debug, Clone, Copy, PartialEq, Eq, Structural)]
pub enum VarKind {
    /// Set by the program: its name starts with `sys.`.
    System,
    /// The chain's input variable.
    Input,
    /// The reply of a step.
    Step,
    /// Any other.
    Custom,
}

/// The kind of variable `key` in `config`.
pub open spec fn var_kind_spec(config: &ChainConfig, key: Seq<char>) -> VarKind {
    if starts_with(key, "sys."@) {
        VarKind::System
    } else if key == config.input_var@ {
        VarKind::Input
    } else if exists|i: int|
        0 <= i < config.steps@.len() && #[trigger] config.steps_view()[i].id == key {
        VarKind::Step
    } else {
        VarKind::Custom
    }
}

/// The kind of variable `key`.
pub fn variable_kind(config: &ChainConfig, key: &str) -> (k: VarKind)
    ensures
        k == var_kind_spec(config, key@),
{
    let v = chars_of(key);
    let sys = ['s', 'y', 's', '.'];
    proof {
        reveal_strlit("sys.");
    }
    assert(sys@ =~= "sys."@);
    if has_prefix(v.as_slice(), sys.as_slice()) {
        VarKind::System
    } else if same_text(key, config.input_var.as_str()) {
        VarKind::Input
    } else if step_position(config, key).is_some() {
        VarKind::Step
    } else {
        VarKind::Custom
    }
}

/// How a step is listed when the user picks where to jump.
#[derive(Debug, Clone, Copy, PartialEq, Eq, Structural)]
pub enum StepStatus {
    Current,
    Completed,
    Pending,
}

/// The status of the step at `i` while step `step_id`, at `current`, is reviewed.
pub fn step_status(config: &ChainConfig, i: usize, step_id: &str, current: usize) -> (s: StepStatus)
    requires
        i < config.steps@.len(),
    ensures
        s == if config.steps_view()[i as int].id == step_id@ {
            StepStatus::Current
        } else if i < current {
            StepStatus::Completed
        } else {
            StepStatus::Pending
        },
{
    assert(config.steps_view()[i as int] == config.steps@[i as int]@);
    if same_text(config.steps[i].id.as_str(), step_id) {
        StepStatus::Current
    } else if i < current {
        StepStatus::Completed
    } else {
        StepStatus::Pending
    }
}

/// `v` as a table shows it: when longer than `max` bytes, its first `keep`
/// bytes and `...`; else all of it.
pub open spec fn clip_spec(v: Seq<char>, max: usize, keep: usize) -> Seq<char> {
    if byte_len(v) > max {
        decode_utf8(utf8(v).subrange(0, keep as int)) + "..."@
    } else {
        v
    }
}

/// `v` cut for display; a cut must fall between chars.
pub fn clip(v: &str, max: usize, keep: usize) -> (s: String)
    requires
        keep <= max,
        byte_len(v@) > max ==> is_char_boundary(utf8(v@), keep as int),
    ensures
        s@ == clip_spec(v@, max, keep),
{
    if v.len() > max {
        proof {
            assert(utf8(v@).len() >= keep) by {
                if utf8(v@).len() < keep {
                    assert(byte_len(v@) == utf8(v@).len() as usize);
                }
            }
            encode_utf8_valid_utf8(v@);
            assert(is_char_boundary(utf8(v@), 0));
        }
        let head = substr(v, 0, keep);
        let mut s = String::from_str(head);
        s.append("...");
        s
    } else {
        String::from_str(v)
    }
}

/// The share of steps completed, in whole percent (0 for a chain without steps).
pub fn completion_percentage(completed: usize, total: usize) -> (p: usize)
    requires
        completed * 100 <= usize::MAX,
    ensures
        p == if total > 0 {
            (completed * 100) / (total as int)
        } else {
            0
        },
{
    if total > 0 {
        (completed * 100) / total
    } else {
        0
    }
}

} // verus!
