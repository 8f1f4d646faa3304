//! A conversation: its messages, its title, and when it last changed.
use vstd::prelude::*;

use crate::conversation::message::{
    copy_opt, is_random_uuid, now_millis, ConversationId, ConversationMessage, KindModel, MessageKind,
    MessageModel, MessageRole,
};
use crate::strings::{chars_of, opt_view, string_from_chars};
use crate::text::{trim, trim_bounds};

verus! {

/// The most chars of a conversation's first message its title keeps.
pub const TITLE_MAX_CHARS: usize = 48;

/// The title of a conversation whose first user message is `text`: the
/// message trimmed, cut to its first `TITLE_MAX_CHARS` chars with `...` when
/// longer, or `Conversation` when nothing is left.
pub open spec fn title_spec(text: Seq<char>) -> Seq<char> {
    let t = trim(text);
    if t.len() == 0 {
        "Conversation"@
    } else if t.len() > TITLE_MAX_CHARS {
        t.subrange(0, TITLE_MAX_CHARS as int) + "..."@
    } else {
        t
    }
}

/// The title for a conversation whose first user message is `text`.
pub fn truncate_title(text: &str) -> (title: String)
    ensures
        title@ == title_spec(text@),
{
    let v = chars_of(text);
    let (lo, hi) = trim_bounds(&v);
    if lo == hi {
        return String::from_str("Conversation");
    }
    if hi - lo > TITLE_MAX_CHARS {
        let mut title = string_from_chars(&v.as_slice()[lo..lo + TITLE_MAX_CHARS]);
        assert(title@ =~= trim(text@).subrange(0, TITLE_MAX_CHARS as int));
        title.append("...");
        title
    } else {
        string_from_chars(&v.as_slice()[lo..hi])
    }
}

/// A conversation with one provider and model.
#[derive(Debug, Clone)]
pub struct Conversation {
    pub id: ConversationId,
    /// The conversation this one was forked from.
    pub parent_id: Option<ConversationId>,
    pub title: String,
    /// When it was made, in milliseconds since the Unix epoch.
    pub created_at: i64,
    /// When it last changed, in milliseconds since the Unix epoch.
    pub updated_at: i64,
    pub provider_id: String,
    pub model: Option<String>,
    pub system_prompt: Option<String>,
    pub messages: Vec<ConversationMessage>,
    /// Whether it changed since it was saved.
    pub dirty: bool,
}

/// The abstract value of a conversation.
pub struct ConversationModel {
    pub id: ConversationId,
    pub parent_id: Option<ConversationId>,
    pub title: Seq<char>,
    pub created_at: i64,
    pub updated_at: i64,
    pub provider_id: Seq<char>,
    pub model: Option<Seq<char>>,
    pub system_prompt: Option<Seq<char>>,
    pub messages: Seq<MessageModel>,
    pub dirty: bool,
}

/// The abstract values of messages.
pub open spec fn messages_view(v: Seq<ConversationMessage>) -> Seq<MessageModel> {
    v.map_values(|m: ConversationMessage| m@)
}

impl View for Conversation {
    type V = ConversationModel;

    open spec fn view(&self) -> ConversationModel {
        ConversationModel {
            id: self.id,
            parent_id: self.parent_id,
            title: self.title@,
            created_at: self.created_at,
            updated_at: self.updated_at,
            provider_id: self.provider_id@,
            model: opt_view(self.model),
            system_prompt: opt_view(self.system_prompt),
            messages: messages_view(self.messages@),
            dirty: self.dirty,
        }
    }
}

/// The index of the first message from the user.
pub open spec fn first_user(msgs: Seq<MessageModel>) -> Option<int> {
    if exists|i: int| 0 <= i < msgs.len() && #[trigger] msgs[i].role == MessageRole::User {
        Some(
            choose|i: int|
                0 <= i < msgs.len() && #[trigger] msgs[i].role == MessageRole::User && forall|j: int|
                    0 <= j < i ==> msgs[j].role != MessageRole::User,
        )
    } else {
        None
    }
}

impl Conversation {
    /// A new, empty conversation titled "New conversation", with a fresh
    /// identifier, made and changed now, and not yet changed since saving.
    pub fn new(provider_id: String, model: Option<String>, system_prompt: Option<String>) -> (c: Self)
        ensures
            is_random_uuid(c@.id.0),
            c@.parent_id is None,
            c@.title == "New conversation"@,
            c@.created_at == c@.updated_at,
            c@.provider_id == provider_id@,
            c@.model == opt_view(model),
            c@.system_prompt == opt_view(system_prompt),
            c@.messages.len() == 0,
            !c@.dirty,
    {
        let now = now_millis();
        let c = Conversation {
            id: ConversationId::new(),
            parent_id: None,
            title: String::from_str("New conversation"),
            created_at: now,
            updated_at: now,
            provider_id,
            model,
            system_prompt,
            messages: Vec::new(),
            dirty: false,
        };
        assert(c@.messages =~= Seq::<MessageModel>::empty());
        c
    }

    /// Adds `message` at the end; the conversation has changed now.
    pub fn push_message(&mut self, message: ConversationMessage)
        ensures
            final(self)@ == (ConversationModel {
                messages: old(self)@.messages.push(message@),
                updated_at: final(self)@.updated_at,
                dirty: true,
                ..old(self)@
            }),
    {
        let ghost m = message@;
        self.messages.push(message);
        assert(messages_view(self.messages@) =~= old(self)@.messages.push(m));
        self.updated_at = now_millis();
        self.dirty = true;
    }

    /// Titles the conversation after its first user message, when that is text.
    pub fn title_from_first_user(&mut self)
        ensures
            match first_user(old(self)@.messages) {
                Some(i) => match old(self)@.messages[i].kind {
                    KindModel::Text(t) => final(self)@ == (ConversationModel {
                        title: title_spec(t),
                        ..old(self)@
                    }),
                    _ => final(self)@ == old(self)@,
                },
                None => final(self)@ == old(self)@,
            },
    {
        let ghost msgs = old(self)@.messages;
        let mut i: usize = 0;
        while i < self.messages.len()
            invariant
                0 <= i <= self.messages@.len(),
                msgs == messages_view(self.messages@),
                self@ == old(self)@,
                forall|j: int| 0 <= j < i ==> msgs[j].role != MessageRole::User,
            decreases self.messages.len() - i,
        {
            assert(msgs[i as int] == self.messages@[i as int]@);
            if self.messages[i].role == MessageRole::User {
                proof {
                    let w = choose|k: int|
                        0 <= k < msgs.len() && #[trigger] msgs[k].role == MessageRole::User
                            && forall|j: int| 0 <= j < k ==> msgs[j].role != MessageRole::User;
                    assert(0 <= i < msgs.len() && msgs[i as int].role == MessageRole::User
                        && forall|j: int| 0 <= j < i ==> msgs[j].role != MessageRole::User);
                    if w < i {
                        assert(msgs[w].role != MessageRole::User);
                    } else if w > i {
                        assert(msgs[i as int].role != MessageRole::User);
                    }
                }
                assert(first_user(msgs) == Some(i as int));
                let title = match &self.messages[i].kind {
                    MessageKind::Text(text) => truncate_title(text.as_str()),
                    _ => {
                        return;
                    },
                };
                self.title = title;
                return;
            }
            i = i + 1;
        }
        assert(first_user(msgs) is None) by {
            if exists|k: int| 0 <= k < msgs.len() && #[trigger] msgs[k].role == MessageRole::User {
                let k = choose|k: int| 0 <= k < msgs.len() && #[trigger] msgs[k].role == MessageRole::User;
                assert(msgs[k].role != MessageRole::User);
            }
        }
    }

    /// A copy of this conversation.
    pub fn copy(&self) -> (c: Self)
        ensures
            c@ == self@,
    {
        let mut messages: Vec<ConversationMessage> = Vec::new();
        let mut i: usize = 0;
        while i < self.messages.len()
            invariant
                0 <= i <= self.messages@.len(),
                messages_view(messages@) == messages_view(self.messages@).subrange(0, i as int),
            decreases self.messages.len() - i,
        {
            let m = self.messages[i].copy();
            let ghost before = messages@;
            messages.push(m);
            assert(messages_view(messages@) =~= messages_view(self.messages@).subrange(0, i + 1)) by {
                assert(messages@ == before.push(m));
                assert(messages_view(before).len() == before.len());
            }
            i = i + 1;
        }
        assert(messages_view(self.messages@).subrange(0, i as int) =~= messages_view(self.messages@));
        Conversation {
            id: self.id,
            parent_id: self.parent_id,
            title: self.title.clone(),
            created_at: self.created_at,
            updated_at: self.updated_at,
            provider_id: self.provider_id.clone(),
            model: copy_opt(&self.model),
            system_prompt: copy_opt(&self.system_prompt),
            messages,
            dirty: self.dirty,
        }
    }
}

} // verus!
