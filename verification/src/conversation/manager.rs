//! The conversations of a session, newest first, and which one is active.
use vstd::prelude::*;

use crate::conversation::message::{is_random_uuid, new_uuid, now_millis, ConversationId};
use crate::conversation::state::{Conversation, ConversationModel};
use crate::strings::opt_view;

verus! {

/// The index of the first conversation with identifier `id`.
pub open spec fn find_spec(cs: Seq<ConversationModel>, id: ConversationId) -> Option<int> {
    if exists|i: int| 0 <= i < cs.len() && #[trigger] cs[i].id == id {
        Some(
            choose|i: int|
                0 <= i < cs.len() && #[trigger] cs[i].id == id && forall|j: int|
                    0 <= j < i ==> cs[j].id != id,
        )
    } else {
        None
    }
}

/// The abstract value of a manager.
pub struct ManagerModel {
    /// Newest first.
    pub conversations: Seq<ConversationModel>,
    pub active_id: Option<ConversationId>,
}

/// The index of the active conversation.
pub open spec fn active_spec(m: ManagerModel) -> Option<int> {
    match m.active_id {
        Some(id) => find_spec(m.conversations, id),
        None => None,
    }
}

/// `m` with `c` added in front and made active.
pub open spec fn add_spec(m: ManagerModel, c: ConversationModel) -> ManagerModel {
    ManagerModel { conversations: seq![c] + m.conversations, active_id: Some(c.id) }
}

/// The abstract values of conversations.
pub open spec fn conversations_view(v: Seq<Conversation>) -> Seq<ConversationModel> {
    v.map_values(|c: Conversation| c@)
}

/// The conversations of a session.
#[derive(Debug)]
pub struct ConversationManager {
    conversations: Vec<Conversation>,
    active_id: Option<ConversationId>,
}

impl View for ConversationManager {
    type V = ManagerModel;

    closed spec fn view(&self) -> ManagerModel {
        ManagerModel {
            conversations: conversations_view(self.conversations@),
            active_id: self.active_id,
        }
    }
}

proof fn lemma_find_is_first(cs: Seq<ConversationModel>, id: ConversationId, i: int)
    requires
        0 <= i < cs.len(),
        cs[i].id == id,
        forall|j: int| 0 <= j < i ==> cs[j].id != id,
    ensures
        find_spec(cs, id) == Some(i),
{
    let w = choose|k: int|
        0 <= k < cs.len() && #[trigger] cs[k].id == id && forall|j: int| 0 <= j < k ==> cs[j].id != id;
    assert(0 <= i < cs.len() && cs[i].id == id && forall|j: int| 0 <= j < i ==> cs[j].id != id);
    if w < i {
        assert(cs[w].id != id);
    } else if w > i {
        assert(cs[i].id != id);
    }
}

proof fn lemma_first_exists(cs: Seq<ConversationModel>, id: ConversationId, k: int)
    requires
        0 <= k < cs.len(),
        cs[k].id == id,
    ensures
        exists|i: int|
            0 <= i < cs.len() && #[trigger] cs[i].id == id && forall|j: int|
                0 <= j < i ==> cs[j].id != id,
    decreases k,
{
    if exists|j: int| 0 <= j < k && #[trigger] cs[j].id == id {
        let j = choose|j: int| 0 <= j < k && #[trigger] cs[j].id == id;
        lemma_first_exists(cs, id, j);
    } else {
        assert(0 <= k < cs.len() && cs[k].id == id && forall|j: int| 0 <= j < k ==> cs[j].id != id);
    }
}

/// What `find_spec` gives: the first position of `id`, or none anywhere.
pub proof fn lemma_find_spec(cs: Seq<ConversationModel>, id: ConversationId)
    ensures
        match find_spec(cs, id) {
            Some(i) => 0 <= i < cs.len() && cs[i].id == id && forall|j: int|
                0 <= j < i ==> cs[j].id != id,
            None => forall|j: int| 0 <= j < cs.len() ==> cs[j].id != id,
        },
{
    if exists|k: int| 0 <= k < cs.len() && #[trigger] cs[k].id == id {
        let k = choose|k: int| 0 <= k < cs.len() && #[trigger] cs[k].id == id;
        lemma_first_exists(cs, id, k);
    }
}

impl ConversationManager {
    /// No conversations, none active.
    pub fn new() -> (m: Self)
        ensures
            m@.conversations.len() == 0,
            m@.active_id is None,
    {
        let m = ConversationManager { conversations: Vec::new(), active_id: None };
        assert(m@.conversations =~= Seq::<ConversationModel>::empty());
        m
    }

    /// Adds `conversation` in front and makes it the active one.
    pub fn add(&mut self, conversation: Conversation)
        ensures
            final(self)@ == add_spec(old(self)@, conversation@),
    {
        let id = conversation.id;
        let ghost c = conversation@;
        let ghost before = self.conversations@;
        self.conversations.insert(0, conversation);
        assert(conversations_view(self.conversations@) =~= seq![c] + conversations_view(before)) by {
            assert forall|k: int| 0 <= k < self.conversations@.len() implies #[trigger] conversations_view(
                self.conversations@,
            )[k] == (seq![c] + conversations_view(before))[k] by {
                if k > 0 {
                    assert(self.conversations@[k] == before[k - 1]);
                }
            }
        }
        self.active_id = Some(id);
    }

    /// The conversations, newest first.
    pub fn list(&self) -> (v: &Vec<Conversation>)
        ensures
            conversations_view(v@) == self@.conversations,
    {
        &self.conversations
    }

    /// The position of the first conversation with identifier `id`.
    fn find(&self, id: ConversationId) -> (r: Option<usize>)
        ensures
            match r {
                Some(i) => find_spec(self@.conversations, id) == Some(i as int),
                None => find_spec(self@.conversations, id) is None,
            },
    {
        let ghost cs = self@.conversations;
        let mut i: usize = 0;
        while i < self.conversations.len()
            invariant
                0 <= i <= self.conversations@.len(),
                cs == conversations_view(self.conversations@),
                forall|j: int| 0 <= j < i ==> cs[j].id != id,
            decreases self.conversations.len() - i,
        {
            assert(cs[i as int] == self.conversations@[i as int]@);
            if self.conversations[i].id == id {
                proof {
                    lemma_find_is_first(cs, id, i as int);
                }
                return Some(i);
            }
            i = i + 1;
        }
        assert(find_spec(cs, id) is None) by {
            if exists|k: int| 0 <= k < cs.len() && #[trigger] cs[k].id == id {
                let k = choose|k: int| 0 <= k < cs.len() && #[trigger] cs[k].id == id;
                assert(cs[k].id != id);
            }
        }
        None
    }

    /// The active conversation, if there is one.
    pub fn active(&self) -> (r: Option<&Conversation>)
        ensures
            match active_spec(self@) {
                Some(i) => r matches Some(c) && c@ == self@.conversations[i],
                None => r is None,
            },
    {
        let id = match self.active_id {
            Some(id) => id,
            None => return None,
        };
        match self.find(id) {
            Some(i) => {
                proof {
                    lemma_find_spec(self@.conversations, id);
                }
                assert(self@.conversations[i as int] == self.conversations@[i as int]@);
                Some(&self.conversations[i])
            },
            None => None,
        }
    }

    /// The position of the active conversation, to change it in place
    /// through [`Self::active_mut`].
    pub fn active_index(&self) -> (r: Option<usize>)
        ensures
            match active_spec(self@) {
                Some(i) => r matches Some(k) && k == i,
                None => r is None,
            },
    {
        match self.active_id {
            Some(id) => self.find(id),
            None => None,
        }
    }

    /// The active conversation, to change it in place.
    pub fn active_mut(&mut self) -> (r: Option<&mut Conversation>)
        ensures
            match active_spec(old(self)@) {
                None => r.is_none() && final(self)@ == old(self)@,
                Some(i) => r.is_some() && (*r.unwrap())@ == old(self)@.conversations[i]
                    && final(self)@ == (ManagerModel {
                    conversations: old(self)@.conversations.update(i, (*final(r.unwrap()))@),
                    ..old(self)@
                }),
            },
    {
        let i = match self.active_index() {
            Some(i) => i,
            None => return None,
        };
        proof {
            lemma_find_spec(self@.conversations, self.active_id->0);
        }
        let ghost before = self.conversations@;
        let c = &mut self.conversations[i];
        assert(conversations_view(before.update(i as int, *final(c))) =~= conversations_view(
            before,
        ).update(i as int, (*final(c))@));
        Some(c)
    }

    /// Makes the conversation `id` active, when there is one; whether there was.
    pub fn set_active(&mut self, id: ConversationId) -> (b: bool)
        ensures
            b == find_spec(old(self)@.conversations, id) is Some,
            b ==> final(self)@ == (ManagerModel { active_id: Some(id), ..old(self)@ }),
            !b ==> final(self)@ == old(self)@,
    {
        if self.find(id).is_some() {
            self.active_id = Some(id);
            true
        } else {
            false
        }
    }

    /// Starts a new conversation, in front and active; its identifier.
    pub fn new_conversation(
        &mut self,
        provider_id: String,
        model: Option<String>,
        system_prompt: Option<String>,
    ) -> (id: ConversationId)
        ensures
            final(self)@.conversations.len() == old(self)@.conversations.len() + 1,
            final(self)@.conversations.subrange(1, final(self)@.conversations.len() as int) == old(
                self,
            )@.conversations,
            final(self)@.active_id == Some(id),
            final(self)@.conversations[0].id == id,
            is_random_uuid(id.0),
            final(self)@.conversations[0].title == "New conversation"@,
            final(self)@.conversations[0].messages.len() == 0,
            final(self)@.conversations[0].provider_id == provider_id@,
            final(self)@.conversations[0].model == opt_view(model),
            final(self)@.conversations[0].system_prompt == opt_view(system_prompt),
            final(self)@.conversations[0].parent_id is None,
            !final(self)@.conversations[0].dirty,
    {
        let conversation = Conversation::new(provider_id, model, system_prompt);
        let id = conversation.id;
        self.add(conversation);
        assert(final(self)@.conversations.subrange(1, final(self)@.conversations.len() as int)
            =~= old(self)@.conversations);
        id
    }

    /// Copies the conversation `id` into a new one titled "Copy of" its title,
    /// forked from it, made now and not saved, in front and active; the new
    /// identifier, or `None` (and no change) when there is no such conversation.
    pub fn fork_conversation(&mut self, id: ConversationId) -> (r: Option<ConversationId>)
        ensures
            match find_spec(old(self)@.conversations, id) {
                None => r is None && final(self)@ == old(self)@,
                Some(i) => {
                    let src = old(self)@.conversations[i];
                    let copy = final(self)@.conversations[0];
                    &&& r == Some(copy.id)
                    &&& is_random_uuid(copy.id.0)
                    &&& final(self)@ == add_spec(old(self)@, copy)
                    &&& copy.parent_id == Some(id)
                    &&& copy.title == "Copy of "@ + src.title
                    &&& copy.messages == src.messages
                    &&& copy.provider_id == src.provider_id
                    &&& copy.model == src.model
                    &&& copy.system_prompt == src.system_prompt
                    &&& copy.created_at == copy.updated_at
                    &&& copy.dirty
                },
            },
    {
        let i = match self.find(id) {
            Some(i) => i,
            None => return None,
        };
        proof {
            lemma_find_spec(self@.conversations, id);
        }
        assert(self@.conversations[i as int] == self.conversations@[i as int]@);
        let mut cloned = self.conversations[i].copy();
        let now = now_millis();
        cloned.id = ConversationId(new_uuid());
        cloned.parent_id = Some(id);
        cloned.created_at = now;
        cloned.updated_at = now;
        let mut title = String::from_str("Copy of ");
        title.append(cloned.title.as_str());
        cloned.title = title;
        cloned.dirty = true;
        self.add(cloned);
        self.active_id
    }

    /// The identifier of the active conversation.
    pub fn active_id(&self) -> (r: Option<ConversationId>)
        ensures
            r == self@.active_id,
    {
        self.active_id
    }
}

/// Adding a conversation makes it the active one, whatever the others are.
pub proof fn law_added_is_active(m: ManagerModel, c: ConversationModel)
    ensures
        active_spec(add_spec(m, c)) == Some(0int),
        add_spec(m, c).conversations[0] == c,
{
    let cs = add_spec(m, c).conversations;
    lemma_find_is_first(cs, c.id, 0);
}

/// Activating a conversation that is there makes it the active one; the
/// list of conversations does not change.
pub proof fn law_set_active_finds(m: ManagerModel, id: ConversationId)
    requires
        find_spec(m.conversations, id) is Some,
    ensures
        active_spec(ManagerModel { active_id: Some(id), ..m }) == find_spec(m.conversations, id),
        m.conversations[find_spec(m.conversations, id)->0].id == id,
{
    lemma_find_spec(m.conversations, id);
}

} // verus!
