//! Which conversation the text interface opens with: the one asked for, a
//! new one, or the active one (a new one when there is none).
use vstd::prelude::*;

use crate::conversation::manager::{active_spec, find_spec, ConversationManager, ManagerModel};
use crate::conversation::message::ConversationId;
use crate::strings::opt_view;

verus! {

/// A provider and, when chosen, a model.
#[derive(Debug, Clone)]
pub struct ProviderSelection {
    pub provider_id: String,
    pub model: Option<String>,
}

/// How the text interface was asked to start (the provider settings given
/// on the command line are kept by the caller).
#[derive(Debug, Clone)]
pub struct TuiOptions {
    /// The provider chosen on the command line.
    pub initial_selection: Option<ProviderSelection>,
    /// The conversation to open.
    pub conversation_id: Option<ConversationId>,
    /// Start a new conversation.
    pub force_new: bool,
    pub system_prompt: Option<String>,
    /// No configuration yet: set one up first.
    pub first_run: bool,
}

/// What the interface does first.
#[derive(Debug, Clone, Copy, PartialEq, Eq, Structural)]
pub enum LaunchOutcome {
    /// Walk the user through setting up a provider.
    Onboarding,
    /// Show the active conversation.
    Ready,
}

/// Why the interface could not start.
#[derive(Debug, Clone, Copy, PartialEq, Eq, Structural)]
pub enum LaunchError {
    /// No conversation has the requested identifier.
    ConversationNotFound(ConversationId),
}

/// The settings a new conversation falls back on.
#[derive(Debug, Clone)]
pub struct LaunchDefaults {
    /// The default provider from the stored settings or the configuration.
    pub default_selection: Option<ProviderSelection>,
    /// The configuration's default model.
    pub default_model: Option<String>,
    /// The configuration's system prompt.
    pub system_prompt: Option<String>,
}

/// A selection's provider and model.
pub open spec fn selection_view(s: ProviderSelection) -> (Seq<char>, Option<Seq<char>>) {
    (s.provider_id@, opt_view(s.model))
}

/// The provider, model and system prompt a new conversation gets: the
/// chosen provider, else the default one, else `openai` with the default
/// model; the given system prompt, else the configured one.
pub open spec fn new_conversation_settings(
    selection: Option<(Seq<char>, Option<Seq<char>>)>,
    system_prompt: Option<Seq<char>>,
    defaults: LaunchDefaults,
) -> (Seq<char>, Option<Seq<char>>, Option<Seq<char>>) {
    let (p, m) = match selection {
        Some(s) => s,
        None => match defaults.default_selection {
            Some(s) => selection_view(s),
            None => ("openai"@, opt_view(defaults.default_model)),
        },
    };
    let sys = match system_prompt {
        Some(s) => Some(s),
        None => opt_view(defaults.system_prompt),
    };
    (p, m, sys)
}

/// `m` after a new conversation with these settings was added in front and made active.
pub open spec fn started(m: ManagerModel, before: ManagerModel, settings: (Seq<char>, Option<Seq<char>>, Option<Seq<char>>)) -> bool {
    &&& m.conversations.len() == before.conversations.len() + 1
    &&& m.conversations.subrange(1, m.conversations.len() as int) == before.conversations
    &&& m.active_id == Some(m.conversations[0].id)
    &&& m.conversations[0].provider_id == settings.0
    &&& m.conversations[0].model == settings.1
    &&& m.conversations[0].system_prompt == settings.2
    &&& m.conversations[0].messages.len() == 0
}

/// Starts a new conversation with the chosen or default settings; its identifier.
pub fn create_new_conversation(
    manager: &mut ConversationManager,
    selection: Option<&ProviderSelection>,
    system_prompt: Option<&str>,
    defaults: &LaunchDefaults,
) -> (id: ConversationId)
    ensures
        started(
            final(manager)@,
            old(manager)@,
            new_conversation_settings(
                match selection {
                    Some(s) => Some(selection_view(*s)),
                    None => None,
                },
                match system_prompt {
                    Some(s) => Some(s@),
                    None => None,
                },
                *defaults,
            ),
        ),
        final(manager)@.active_id == Some(id),
{
    let (provider_id, model) = match selection {
        Some(sel) => (sel.provider_id.clone(), clone_opt(&sel.model)),
        None => match &defaults.default_selection {
            Some(sel) => (sel.provider_id.clone(), clone_opt(&sel.model)),
            None => (String::from_str("openai"), clone_opt(&defaults.default_model)),
        },
    };
    let system = match system_prompt {
        Some(value) => Some(String::from_str(value)),
        None => clone_opt(&defaults.system_prompt),
    };
    manager.new_conversation(provider_id, model, system)
}

fn clone_opt(o: &Option<String>) -> (r: Option<String>)
    ensures
        opt_view(r) == opt_view(*o),
{
    match o {
        Some(s) => Some(s.clone()),
        None => None,
    }
}

/// The settings a new conversation started under `options` gets.
pub open spec fn options_settings(options: TuiOptions, defaults: LaunchDefaults) -> (
    Seq<char>,
    Option<Seq<char>>,
    Option<Seq<char>>,
) {
    new_conversation_settings(
        match options.initial_selection {
            Some(s) => Some(selection_view(s)),
            None => None,
        },
        opt_view(options.system_prompt),
        defaults,
    )
}

/// Starts a new conversation when none is active; whether it did.
pub fn ensure_default_conversation(
    manager: &mut ConversationManager,
    options: &TuiOptions,
    defaults: &LaunchDefaults,
) -> (created: bool)
    ensures
        active_spec(old(manager)@) is Some ==> !created && final(manager)@ == old(manager)@,
        active_spec(old(manager)@) is None ==> created && started(
            final(manager)@,
            old(manager)@,
            options_settings(*options, *defaults),
        ),
{
    if manager.active().is_some() {
        return false;
    }
    let system = match &options.system_prompt {
        Some(s) => Some(s.as_str()),
        None => None,
    };
    create_new_conversation(manager, options.initial_selection.as_ref(), system, defaults);
    true
}

/// Opens the interface's first conversation: onboarding on a first run;
/// else the requested conversation is made active (refused when there is
/// none), and then a new one is started when asked for or when none is active.
pub fn apply_launch_options(
    manager: &mut ConversationManager,
    options: &TuiOptions,
    defaults: &LaunchDefaults,
) -> (r: Result<LaunchOutcome, LaunchError>)
    ensures
        ({
            let m0 = old(manager)@;
            let m1 = match options.conversation_id {
                Some(id) => ManagerModel { active_id: Some(id), ..m0 },
                None => m0,
            };
            let settings = options_settings(*options, *defaults);
            if options.first_run {
                r == Ok::<LaunchOutcome, LaunchError>(LaunchOutcome::Onboarding) && final(manager)@ == m0
            } else if options.conversation_id matches Some(id) && find_spec(m0.conversations, id) is None {
                r == Err::<LaunchOutcome, LaunchError>(LaunchError::ConversationNotFound(options.conversation_id->0))
                    && final(manager)@ == m0
            } else {
                &&& r == Ok::<LaunchOutcome, LaunchError>(LaunchOutcome::Ready)
                &&& if options.force_new || active_spec(m1) is None {
                    started(final(manager)@, m1, settings)
                } else {
                    final(manager)@ == m1
                }
            }
        }),
        r == Ok::<LaunchOutcome, LaunchError>(LaunchOutcome::Ready) ==> active_spec(final(manager)@) is Some,
{
    if options.first_run {
        return Ok(LaunchOutcome::Onboarding);
    }
    if let Some(id) = options.conversation_id {
        if !manager.set_active(id) {
            return Err(LaunchError::ConversationNotFound(id));
        }
    }
    if options.force_new {
        let system = match &options.system_prompt {
            Some(s) => Some(s.as_str()),
            None => None,
        };
        create_new_conversation(manager, options.initial_selection.as_ref(), system, defaults);
        proof {
            law_started_is_active(manager@, old(manager)@, options_settings(*options, *defaults));
        }
        return Ok(LaunchOutcome::Ready);
    }
    ensure_default_conversation(manager, options, defaults);
    Ok(LaunchOutcome::Ready)
}

/// Why the command line does not describe a way to start the interface.
#[derive(Debug, Clone)]
pub enum LaunchArgsError {
    /// `--conversation` is not an identifier; the text given.
    InvalidConversationId(String),
    /// `--new` together with `--conversation`.
    NewWithConversation,
}

/// What `uuid::Uuid::parse_str` reads from `s`, as its 128-bit number.
pub uninterp spec fn parsed_uuid(s: Seq<char>) -> Option<u128>;

/// `uuid::Uuid::parse_str` on `raw`, the identifier as its 128-bit number
/// (`Uuid::as_u128`), or `None` where the crate refuses the text. Which texts
/// it reads, and to what, is the crate's and is named, not stated.
#[verifier::external_body]
fn parse_uuid(raw: &str) -> (r: Option<u128>)
    ensures
        r == parsed_uuid(raw@),
{
    match uuid::Uuid::parse_str(raw) {
        Ok(u) => Some(u.as_u128()),
        Err(_) => None,
    }
}

/// `a`, else `b`.
pub open spec fn first_some(a: Option<Seq<char>>, b: Option<Seq<char>>) -> Option<Seq<char>> {
    if a is Some {
        a
    } else {
        b
    }
}

/// An optional selection's provider and model.
pub open spec fn opt_selection_view(s: Option<ProviderSelection>) -> Option<(Seq<char>, Option<Seq<char>>)> {
    match s {
        Some(s) => Some(selection_view(s)),
        None => None,
    }
}

/// The provider the command line chooses: the one `--provider` names, with
/// `--model` before the model written there; else, when the first word is
/// not a subcommand, the provider that word names, with `--model`, else the
/// model written in that word, else the second word as the model.
pub open spec fn command_line_selection(
    provider: Option<(Seq<char>, Option<Seq<char>>)>,
    command: Option<(Seq<char>, Option<Seq<char>>)>,
    command_is_subcommand: bool,
    provider_or_key: Option<Seq<char>>,
    model: Option<Seq<char>>,
) -> Option<(Seq<char>, Option<Seq<char>>)> {
    match provider {
        Some((p, m)) => Some((p, first_some(model, m))),
        None => if command_is_subcommand {
            None
        } else {
            match command {
                Some((p, m)) => Some((p, first_some(first_some(model, m), provider_or_key))),
                None => None,
            }
        },
    }
}

/// What the interface is started with, given the conversation identifier
/// text `conversation`, what it reads as (`parsed`), and the chosen provider:
/// a text that is no identifier is refused; `--new` with an identifier is
/// refused; else the options carry `new`, the identifier, the system prompt
/// and the selection, and no first run.
pub open spec fn launch_args_outcome(
    r: Result<TuiOptions, LaunchArgsError>,
    new: bool,
    conversation: Option<Seq<char>>,
    parsed: Option<u128>,
    selection: Option<(Seq<char>, Option<Seq<char>>)>,
    system: Option<Seq<char>>,
) -> bool {
    if conversation is Some && parsed is None {
        r matches Err(LaunchArgsError::InvalidConversationId(text)) && text@ == conversation->0
    } else if new && conversation is Some {
        r matches Err(LaunchArgsError::NewWithConversation)
    } else {
        &&& r matches Ok(o)
        &&& o.force_new == new
        &&& o.conversation_id == (if conversation is Some {
            Some(ConversationId(parsed->0))
        } else {
            None
        })
        &&& opt_view(o.system_prompt) == system
        &&& opt_selection_view(o.initial_selection) == selection
        &&& !o.first_run
    }
}

fn or_string(a: Option<String>, b: Option<String>) -> (r: Option<String>)
    ensures
        opt_view(r) == first_some(opt_view(a), opt_view(b)),
{
    match a {
        Some(x) => Some(x),
        None => b,
    }
}

impl TuiOptions {
    /// The options the interface starts with, given what the conversation
    /// identifier text reads as (`parsed`, used only when `conversation` is
    /// given), and the providers `--provider` and the first word name
    /// (`provider`, `command`).
    pub fn from_parsed(
        new: bool,
        conversation: Option<&str>,
        parsed: Option<u128>,
        provider: Option<ProviderSelection>,
        command: Option<ProviderSelection>,
        command_is_subcommand: bool,
        provider_or_key: Option<String>,
        model: Option<String>,
        system: Option<String>,
    ) -> (r: Result<TuiOptions, LaunchArgsError>)
        ensures
            launch_args_outcome(
                r,
                new,
                match conversation {
                    Some(c) => Some(c@),
                    None => None,
                },
                parsed,
                command_line_selection(
                    opt_selection_view(provider),
                    opt_selection_view(command),
                    command_is_subcommand,
                    opt_view(provider_or_key),
                    opt_view(model),
                ),
                opt_view(system),
            ),
    {
        let conversation_id = match conversation {
            Some(raw) => match parsed {
                Some(v) => Some(ConversationId(v)),
                None => return Err(LaunchArgsError::InvalidConversationId(String::from_str(raw))),
            },
            None => None,
        };
        if new && conversation_id.is_some() {
            return Err(LaunchArgsError::NewWithConversation);
        }
        let initial_selection = match provider {
            Some(p) => Some(ProviderSelection { provider_id: p.provider_id, model: or_string(model, p.model) }),
            None => if command_is_subcommand {
                None
            } else {
                match command {
                    Some(c) => Some(ProviderSelection {
                        provider_id: c.provider_id,
                        model: or_string(or_string(model, c.model), provider_or_key),
                    }),
                    None => None,
                }
            },
        };
        Ok(TuiOptions { initial_selection, conversation_id, force_new: new, system_prompt: system, first_run: false })
    }

    /// The options the interface starts with, from the command line: the
    /// `--conversation` text is read by `uuid::Uuid::parse_str`; `provider` and
    /// `command` are the providers `--provider` and the first word name.
    pub fn from_args(
        new: bool,
        conversation: Option<&str>,
        provider: Option<ProviderSelection>,
        command: Option<ProviderSelection>,
        command_is_subcommand: bool,
        provider_or_key: Option<String>,
        model: Option<String>,
        system: Option<String>,
    ) -> (r: Result<TuiOptions, LaunchArgsError>)
        ensures
            launch_args_outcome(
                r,
                new,
                match conversation {
                    Some(c) => Some(c@),
                    None => None,
                },
                match conversation {
                    Some(c) => parsed_uuid(c@),
                    None => None,
                },
                command_line_selection(
                    opt_selection_view(provider),
                    opt_selection_view(command),
                    command_is_subcommand,
                    opt_view(provider_or_key),
                    opt_view(model),
                ),
                opt_view(system),
            ),
    {
        let parsed = match conversation {
            Some(raw) => parse_uuid(raw),
            None => None,
        };
        TuiOptions::from_parsed(
            new,
            conversation,
            parsed,
            provider,
            command,
            command_is_subcommand,
            provider_or_key,
            model,
            system,
        )
    }
}

/// A conversation just started is the active one.
pub proof fn law_started_is_active(
    m: ManagerModel,
    before: ManagerModel,
    settings: (Seq<char>, Option<Seq<char>>, Option<Seq<char>>),
)
    requires
        started(m, before, settings),
    ensures
        active_spec(m) == Some(0int),
{
    crate::conversation::manager::lemma_find_spec(m.conversations, m.conversations[0].id);
}

} // verus!
