//! Snapshots of conversations to roll back to: one is taken each time a
//! conversation has changed since its last snapshot.
use vstd::prelude::*;

use crate::conversation::message::{now_millis, ConversationId};
use crate::conversation::state::{Conversation, ConversationModel};

verus! {

/// The identifier of a conversation snapshot.
#[derive(Debug, Clone, Copy, Eq, PartialEq, Hash, Structural)]
pub struct SnapshotId(u64);

impl SnapshotId {
    /// The identifier numbered `value`.
    pub fn new(value: u64) -> (id: Self)
        ensures
            id.value() == value,
    {
        SnapshotId(value)
    }

    /// The identifier's number.
    pub closed spec fn value(&self) -> u64 {
        self.0
    }
}

/// What a list of snapshots shows of one.
#[derive(Debug, Clone)]
pub struct SnapshotSummary {
    pub id: SnapshotId,
    pub title: String,
    /// When it was taken, in milliseconds since the Unix epoch.
    pub created_at: i64,
    pub message_count: usize,
}

/// A conversation as it was.
#[derive(Debug, Clone)]
pub struct Snapshot {
    pub id: SnapshotId,
    pub conversation: Conversation,
    /// When it was taken, in milliseconds since the Unix epoch.
    pub created_at: i64,
    pub message_count: usize,
}

/// The abstract value of a snapshot.
pub struct SnapModel {
    pub id: u64,
    pub conversation: ConversationModel,
    pub created_at: i64,
    pub message_count: nat,
}

/// The abstract value of a summary.
pub struct SummaryModel {
    pub id: u64,
    pub title: Seq<char>,
    pub created_at: i64,
    pub message_count: nat,
}

impl View for Snapshot {
    type V = SnapModel;

    open spec fn view(&self) -> SnapModel {
        SnapModel {
            id: self.id.value(),
            conversation: self.conversation@,
            created_at: self.created_at,
            message_count: self.message_count as nat,
        }
    }
}

impl View for SnapshotSummary {
    type V = SummaryModel;

    open spec fn view(&self) -> SummaryModel {
        SummaryModel {
            id: self.id.value(),
            title: self.title@,
            created_at: self.created_at,
            message_count: self.message_count as nat,
        }
    }
}

/// What a snapshot's summary shows.
pub open spec fn summary_spec(s: SnapModel) -> SummaryModel {
    SummaryModel {
        id: s.id,
        title: s.conversation.title,
        created_at: s.created_at,
        message_count: s.message_count,
    }
}

/// A snapshot still shows `c`: as many messages, and the same last change.
pub open spec fn matches_spec(s: SnapModel, c: ConversationModel) -> bool {
    s.message_count == c.messages.len() && s.conversation.updated_at == c.updated_at
}

impl Snapshot {
    fn new(id: SnapshotId, conversation: Conversation) -> (s: Self)
        ensures
            s@.id == id.value(),
            s@.conversation == conversation@,
            s@.message_count == conversation@.messages.len(),
    {
        let message_count = conversation.messages.len();
        Snapshot { id, created_at: now_millis(), message_count, conversation }
    }

    fn summary(&self) -> (s: SnapshotSummary)
        ensures
            s@ == summary_spec(self@),
    {
        SnapshotSummary {
            id: self.id,
            title: self.conversation.title.clone(),
            created_at: self.created_at,
            message_count: self.message_count,
        }
    }

    fn matches(&self, conversation: &Conversation) -> (b: bool)
        ensures
            b == matches_spec(self@, conversation@),
    {
        self.message_count == conversation.messages.len() && self.conversation.updated_at
            == conversation.updated_at
    }
}

/// The abstract value of the snapshot store: for each conversation that
/// has been recorded, its snapshots in order; and the next number to give.
pub struct BacktrackModel {
    pub entries: Seq<(ConversationId, Seq<SnapModel>)>,
    pub next_id: u64,
}

/// The position of conversation `id` in `entries`.
pub open spec fn entry_of(entries: Seq<(ConversationId, Seq<SnapModel>)>, id: ConversationId) -> Option<int>
    decreases entries.len(),
{
    if entries.len() == 0 {
        None
    } else if entries.last().0 == id {
        Some(entries.len() - 1)
    } else {
        entry_of(entries.drop_last(), id)
    }
}

/// The snapshots of conversation `id`.
pub open spec fn snaps_of(m: BacktrackModel, id: ConversationId) -> Seq<SnapModel> {
    match entry_of(m.entries, id) {
        Some(i) => m.entries[i].1,
        None => Seq::empty(),
    }
}

/// `m` with conversation `id` holding `snaps`.
pub open spec fn with_snaps(m: BacktrackModel, id: ConversationId, snaps: Seq<SnapModel>) -> BacktrackModel {
    BacktrackModel {
        entries: match entry_of(m.entries, id) {
            Some(i) => m.entries.update(i, (id, snaps)),
            None => m.entries.push((id, snaps)),
        },
        next_id: m.next_id,
    }
}

/// Recording `c` at time `now`: nothing new when its last snapshot still
/// shows it (the conversation is then known, with its snapshots); else a
/// snapshot of it, numbered with the next number, which then goes up by one
/// (staying at the largest), and its summary.
pub open spec fn record_spec(m: BacktrackModel, c: ConversationModel, now: i64) -> (BacktrackModel, Option<SummaryModel>) {
    let snaps = snaps_of(m, c.id);
    if snaps.len() > 0 && matches_spec(snaps.last(), c) {
        (with_snaps(m, c.id, snaps), None)
    } else {
        let s = SnapModel {
            id: m.next_id,
            conversation: c,
            created_at: now,
            message_count: c.messages.len(),
        };
        let m2 = with_snaps(m, c.id, snaps.push(s));
        (
            BacktrackModel {
                next_id: if m.next_id == u64::MAX {
                    m.next_id
                } else {
                    (m.next_id + 1) as u64
                },
                ..m2
            },
            Some(summary_spec(s)),
        )
    }
}

proof fn lemma_entry_of(entries: Seq<(ConversationId, Seq<SnapModel>)>, id: ConversationId)
    ensures
        entry_of(entries, id) matches Some(i) ==> 0 <= i < entries.len() && entries[i].0 == id,
    decreases entries.len(),
{
    if entries.len() > 0 && entries.last().0 != id {
        lemma_entry_of(entries.drop_last(), id);
    }
}

proof fn lemma_entry_after_update(
    entries: Seq<(ConversationId, Seq<SnapModel>)>,
    id: ConversationId,
    snaps: Seq<SnapModel>,
)
    ensures
        ({
            let e2 = match entry_of(entries, id) {
                Some(i) => entries.update(i, (id, snaps)),
                None => entries.push((id, snaps)),
            };
            entry_of(e2, id) matches Some(j) && e2[j].1 == snaps
        }),
    decreases entries.len(),
{
    lemma_entry_of(entries, id);
    match entry_of(entries, id) {
        None => {
            assert(entries.push((id, snaps)).last().0 == id);
        },
        Some(i) => {
            if i == entries.len() - 1 {
                assert(entries.update(i, (id, snaps)).last().0 == id);
            } else {
                let e2 = entries.update(i, (id, snaps));
                assert(entries.last().0 != id);
                assert(entry_of(entries.drop_last(), id) == Some(i));
                assert(e2.last() == entries.last());
                assert(e2.drop_last() =~= entries.drop_last().update(i, (id, snaps)));
                lemma_entry_after_update(entries.drop_last(), id, snaps);
                lemma_entry_of(e2.drop_last(), id);
                let j = entry_of(e2.drop_last(), id)->0;
                assert(e2[j] == e2.drop_last()[j]);
            }
        },
    }
}

/// The snapshot store.
#[derive(Debug)]
pub struct BacktrackState {
    snapshots: Vec<(ConversationId, Vec<Snapshot>)>,
    next_id: u64,
}

/// The abstract values of snapshots.
pub open spec fn snaps_view(v: Seq<Snapshot>) -> Seq<SnapModel> {
    v.map_values(|s: Snapshot| s@)
}

impl View for BacktrackState {
    type V = BacktrackModel;

    closed spec fn view(&self) -> BacktrackModel {
        BacktrackModel {
            entries: self.snapshots@.map_values(
                |e: (ConversationId, Vec<Snapshot>)| (e.0, snaps_view(e.1@)),
            ),
            next_id: self.next_id,
        }
    }
}

impl Default for BacktrackState {
    fn default() -> (b: Self)
        ensures
            b@.entries.len() == 0,
            b@.next_id == 0,
    {
        BacktrackState { snapshots: Vec::new(), next_id: 0 }
    }
}

impl BacktrackState {
    /// The position of conversation `id`.
    fn entry(&self, id: ConversationId) -> (r: Option<usize>)
        ensures
            match r {
                Some(i) => entry_of(self@.entries, id) == Some(i as int),
                None => entry_of(self@.entries, id) is None,
            },
    {
        let ghost es = self@.entries;
        let mut k: usize = self.snapshots.len();
        assert(es.subrange(0, es.len() as int) =~= es);
        while k > 0
            invariant
                k <= self.snapshots@.len(),
                es == self@.entries,
                es.len() == self.snapshots@.len(),
                entry_of(es, id) == entry_of(es.subrange(0, k as int), id),
            decreases k,
        {
            let ghost pre = es.subrange(0, k as int);
            assert(pre.last() == es[k - 1]);
            assert(pre.drop_last() =~= es.subrange(0, k - 1));
            assert(es[k - 1].0 == self.snapshots@[k - 1].0);
            if self.snapshots[k - 1].0 == id {
                return Some(k - 1);
            }
            k = k - 1;
        }
        None
    }

    /// Takes a snapshot of `conversation` unless its last one still shows
    /// it; the new snapshot's summary, or `None`.
    pub fn record(&mut self, conversation: &Conversation) -> (r: Option<SnapshotSummary>)
        ensures
            exists|now: i64|
                {
                    let (m2, s) = #[trigger] record_spec(old(self)@, conversation@, now);
                    &&& final(self)@ == m2
                    &&& match r {
                        Some(x) => s == Some(x@),
                        None => s is None,
                    }
                },
    {
        let ghost m = self@;
        let ghost c = conversation@;
        let i = match self.entry(conversation.id) {
            Some(i) => i,
            None => {
                let ghost before = self.snapshots@;
                let fresh: Vec<Snapshot> = Vec::new();
                assert(snaps_view(fresh@) =~= Seq::<SnapModel>::empty());
                self.snapshots.push((conversation.id, fresh));
                assert(self.snapshots@ == before.push((conversation.id, fresh)));
                assert(self@.entries =~= m.entries.push((c.id, Seq::<SnapModel>::empty())));
                self.snapshots.len() - 1
            },
        };
        proof {
            lemma_entry_of(m.entries, c.id);
        }
        assert(snaps_view(self.snapshots@[i as int].1@) == snaps_of(m, c.id));
        let n = self.snapshots[i].1.len();
        if n > 0 && self.snapshots[i].1[n - 1].matches(conversation) {
            proof {
                let snaps = snaps_of(m, c.id);
                assert(snaps.last() == self.snapshots@[i as int].1@[n - 1]@);
                assert(self@ == with_snaps(m, c.id, snaps)) by {
                    match entry_of(m.entries, c.id) {
                        Some(j) => {
                            assert(self@.entries =~= m.entries.update(j, (c.id, snaps)));
                        },
                        None => {},
                    }
                }
                assert(record_spec(m, c, 0).0 == self@);
            }
            return None;
        }
        let id = SnapshotId::new(self.next_id);
        self.next_id = self.next_id.saturating_add(1);
        let snapshot = Snapshot::new(id, conversation.copy());
        let ghost sm = snapshot@;
        let summary = snapshot.summary();
        let mut entry = (conversation.id, Vec::new());
        std::mem::swap(&mut entry, &mut self.snapshots[i]);
        let ghost old_snaps = entry.1@;
        entry.1.push(snapshot);
        std::mem::swap(&mut entry, &mut self.snapshots[i]);
        proof {
            let snaps = snaps_of(m, c.id);
            assert(snaps_view(old_snaps) == snaps);
            assert(snaps_view(self.snapshots@[i as int].1@) =~= snaps.push(sm));
            let t = sm.created_at;
            let (m2, s) = record_spec(m, c, t);
            assert(sm == SnapModel { id: m.next_id, conversation: c, created_at: t, message_count: c.messages.len() });
            assert(self@.entries =~= m2.entries) by {
                match entry_of(m.entries, c.id) {
                    Some(j) => {
                        assert(m2.entries =~= m.entries.update(j, (c.id, snaps.push(sm))));
                    },
                    None => {
                        assert(m2.entries =~= m.entries.push((c.id, snaps.push(sm))));
                    },
                }
            }
            assert(self@ == m2);
            assert(s == Some(summary@));
        }
        Some(summary)
    }

    /// The summaries of the snapshots of `conversation_id`, oldest first.
    pub fn list(&self, conversation_id: ConversationId) -> (v: Vec<SnapshotSummary>)
        ensures
            v@.map_values(|s: SnapshotSummary| s@) == snaps_of(self@, conversation_id).map_values(
                |s: SnapModel| summary_spec(s),
            ),
    {
        let mut out: Vec<SnapshotSummary> = Vec::new();
        let i = match self.entry(conversation_id) {
            Some(i) => i,
            None => {
                assert(out@.map_values(|s: SnapshotSummary| s@) =~= Seq::<SummaryModel>::empty());
                assert(snaps_of(self@, conversation_id).map_values(|s: SnapModel| summary_spec(s))
                    =~= Seq::<SummaryModel>::empty());
                return out;
            },
        };
        proof {
            lemma_entry_of(self@.entries, conversation_id);
        }
        let items = &self.snapshots[i].1;
        let ghost want = snaps_view(items@).map_values(|s: SnapModel| summary_spec(s));
        assert(snaps_view(items@) == snaps_of(self@, conversation_id));
        let mut k: usize = 0;
        while k < items.len()
            invariant
                0 <= k <= items@.len(),
                want == snaps_view(items@).map_values(|s: SnapModel| summary_spec(s)),
                out@.map_values(|s: SnapshotSummary| s@) == want.subrange(0, k as int),
            decreases items.len() - k,
        {
            let s = items[k].summary();
            let ghost before = out@;
            out.push(s);
            assert(out@.map_values(|s: SnapshotSummary| s@) =~= want.subrange(0, k + 1)) by {
                assert(out@ == before.push(s));
                assert(before.map_values(|s: SnapshotSummary| s@).len() == before.len());
            }
            k = k + 1;
        }
        assert(want.subrange(0, k as int) =~= want);
        out
    }

    /// The snapshot `snapshot_id` of `conversation_id`, if there is one.
    pub fn get(&self, conversation_id: ConversationId, snapshot_id: SnapshotId) -> (r: Option<&Snapshot>)
        ensures
            match r {
                Some(s) => snaps_of(self@, conversation_id).contains(s@) && s@.id == snapshot_id.value(),
                None => forall|k: int|
                    0 <= k < snaps_of(self@, conversation_id).len() ==> (#[trigger] snaps_of(
                        self@,
                        conversation_id,
                    )[k]).id != snapshot_id.value(),
            },
    {
        let i = match self.entry(conversation_id) {
            Some(i) => i,
            None => return None,
        };
        proof {
            lemma_entry_of(self@.entries, conversation_id);
        }
        let items = &self.snapshots[i].1;
        let ghost snaps = snaps_view(items@);
        assert(snaps == snaps_of(self@, conversation_id));
        let mut k: usize = 0;
        while k < items.len()
            invariant
                0 <= k <= items@.len(),
                snaps == snaps_view(items@),
                snaps == snaps_of(self@, conversation_id),
                forall|j: int| 0 <= j < k ==> (#[trigger] snaps[j]).id != snapshot_id.value(),
            decreases items.len() - k,
        {
            assert(snaps[k as int] == items@[k as int]@);
            if items[k].id == snapshot_id {
                assert(snaps.contains(snaps[k as int]));
                return Some(&items[k]);
            }
            k = k + 1;
        }
        None
    }
}

/// Recording a conversation that has not changed since it was last
/// recorded takes no second snapshot.
pub proof fn law_unchanged_records_once(m: BacktrackModel, c: ConversationModel, t1: i64, t2: i64)
    ensures
        record_spec(record_spec(m, c, t1).0, c, t2).1 is None,
{
    let (m1, _) = record_spec(m, c, t1);
    let snaps = snaps_of(m, c.id);
    if snaps.len() > 0 && matches_spec(snaps.last(), c) {
        lemma_entry_after_update(m.entries, c.id, snaps);
    } else {
        let s = SnapModel { id: m.next_id, conversation: c, created_at: t1, message_count: c.messages.len() };
        lemma_entry_after_update(m.entries, c.id, snaps.push(s));
        assert(snaps_of(m1, c.id) == snaps.push(s));
    }
}

} // verus!
