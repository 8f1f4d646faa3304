//! The subcommands the command line knows by name.
use vstd::prelude::*;

use crate::strings::{lowercase_of, to_lowercase};
use crate::text::same_text;

verus! {

/// A subcommand given as the first word on the command line.
#[derive(Clone, Copy, Debug, Eq, PartialEq, Structural)]
pub enum CommandKind {
    /// `set`: stores a value under a key.
    SetValue,
    Get,
    Delete,
    Default,
    Chat,
}

/// The subcommand an already lowercased word names, if any.
pub open spec fn command_named(s: Seq<char>) -> Option<CommandKind> {
    if s == "set"@ {
        Some(CommandKind::SetValue)
    } else if s == "get"@ {
        Some(CommandKind::Get)
    } else if s == "delete"@ {
        Some(CommandKind::Delete)
    } else if s == "default"@ {
        Some(CommandKind::Default)
    } else if s == "chat"@ {
        Some(CommandKind::Chat)
    } else {
        None
    }
}

impl CommandKind {
    /// The subcommand `raw` names, whatever its case.
    pub fn parse(raw: &str) -> (r: Option<Self>)
        ensures
            r == command_named(lowercase_of(raw@)),
    {
        let lower = to_lowercase(raw);
        Self::from_lowercase(lower.as_str())
    }

    /// The subcommand a lowercased word names: `set`, `get`, `delete`,
    /// `default` or `chat`.
    pub fn from_lowercase(s: &str) -> (r: Option<Self>)
        ensures
            r == command_named(s@),
    {
        if same_text(s, "set") {
            Some(CommandKind::SetValue)
        } else if same_text(s, "get") {
            Some(CommandKind::Get)
        } else if same_text(s, "delete") {
            Some(CommandKind::Delete)
        } else if same_text(s, "default") {
            Some(CommandKind::Default)
        } else if same_text(s, "chat") {
            Some(CommandKind::Chat)
        } else {
            None
        }
    }
}

} // verus!
