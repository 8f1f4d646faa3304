//! Recall of previously submitted inputs, newest last.
use vstd::prelude::*;

use crate::strings::opt_view;

use crate::text::{all_ws, is_blank};

verus! {

/// Submitted inputs, where browsing stands among them, and the input that was
/// being typed when browsing began.
pub struct InputHistory {
    entries: Vec<String>,
    cursor: Option<usize>,
    draft: Option<String>,
}

/// The abstract state of an [`InputHistory`].
pub struct HistoryModel {
    pub entries: Seq<Seq<char>>,
    pub cursor: Option<int>,
    pub draft: Option<Seq<char>>,
}

impl View for InputHistory {
    type V = HistoryModel;

    closed spec fn view(&self) -> HistoryModel {
        HistoryModel {
            entries: self.entries@.map_values(|e: String| e@),
            cursor: match self.cursor {
                Some(c) => Some(c as int),
                None => None,
            },
            draft: match self.draft {
                Some(d) => Some(d@),
                None => None,
            },
        }
    }
}

/// Recording an entry: blank entries and repeats of the newest entry are
/// ignored; otherwise the entry is appended and browsing starts over.
pub open spec fn record_spec(m: HistoryModel, entry: Seq<char>) -> HistoryModel {
    if all_ws(entry) || (m.entries.len() > 0 && m.entries.last() == entry) {
        m
    } else {
        HistoryModel { entries: m.entries.push(entry), cursor: None, draft: None }
    }
}

/// Stepping back one entry: the first step keeps `current` as the draft and
/// shows the newest entry; later steps go back one entry, stopping at the oldest.
pub open spec fn previous_spec(m: HistoryModel, current: Seq<char>) -> (HistoryModel, Option<Seq<char>>) {
    if m.entries.len() == 0 {
        (m, None)
    } else {
        let (next_cursor, draft) = match m.cursor {
            None => (m.entries.len() - 1, Some(current)),
            Some(idx) => (if idx >= 1 { idx - 1 } else { 0 }, m.draft),
        };
        (
            HistoryModel { entries: m.entries, cursor: Some(next_cursor), draft },
            if 0 <= next_cursor < m.entries.len() {
                Some(m.entries[next_cursor])
            } else {
                None
            },
        )
    }
}

/// Stepping forward one entry: shows the next newer entry, or, past the
/// newest, ends browsing and gives back the draft.
pub open spec fn next_spec(m: HistoryModel) -> (HistoryModel, Option<Seq<char>>) {
    match m.cursor {
        None => (m, None),
        Some(idx) => if idx + 1 < m.entries.len() {
            (
                HistoryModel { entries: m.entries, cursor: Some(idx + 1), draft: m.draft },
                if 0 <= idx + 1 { Some(m.entries[idx + 1]) } else { None },
            )
        } else {
            (HistoryModel { entries: m.entries, cursor: None, draft: None }, m.draft)
        },
    }
}

/// While browsing at entry `k > 0`, stepping back shows entry `k - 1` and
/// browses there, keeping the entries and the draft.
pub proof fn law_previous_steps_back_one(m: HistoryModel, current: Seq<char>, k: int)
    requires
        0 < k < m.entries.len(),
        m.cursor == Some(k),
    ensures
        previous_spec(m, current).1 == Some(m.entries[k - 1]),
        previous_spec(m, current).0 == (HistoryModel { cursor: Some(k - 1), ..m }),
{
}

/// While browsing at entry `k > 0`, stepping back and then forward comes
/// back to entry `k`, showing it, with the state as it was.
pub proof fn law_next_undoes_previous(m: HistoryModel, current: Seq<char>, k: int)
    requires
        0 < k < m.entries.len(),
        m.cursor == Some(k),
    ensures
        next_spec(previous_spec(m, current).0) == (m, Some(m.entries[k])),
{
}

/// Stepping back when not browsing shows the newest entry and keeps what
/// was being typed; stepping forward from there gives it back and ends
/// browsing.
pub proof fn law_browsing_restores_draft(m: HistoryModel, current: Seq<char>)
    requires
        m.entries.len() > 0,
        m.cursor is None,
    ensures
        previous_spec(m, current).1 == Some(m.entries.last()),
        next_spec(previous_spec(m, current).0) == (HistoryModel { cursor: None, draft: None, ..m }, Some(current)),
{
}

impl InputHistory {
    /// Records a submitted input.
    pub fn record(&mut self, entry: String)
        ensures
            final(self)@ == record_spec(old(self)@, entry@),
    {
        if is_blank(entry.as_str()) {
            return;
        }
        let n = self.entries.len();
        if n > 0 && self.entries[n - 1] == entry {
            assert(self@.entries.last() == self.entries@[n - 1]@);
            return;
        }
        let ghost before = self.entries@;
        self.entries.push(entry);
        assert(self.entries@.map_values(|e: String| e@) =~= before.map_values(|e: String| e@).push(
            entry@,
        ));
        self.cursor = None;
        self.draft = None;
    }

    /// Steps back to the previous (older) entry, keeping `current` as the draft
    /// when browsing starts.
    pub fn previous(&mut self, current: &str) -> (r: Option<String>)
        ensures
            (final(self)@, opt_view(r)) == previous_spec(old(self)@, current@),
    {
        if self.entries.len() == 0 {
            return None;
        }
        let next_cursor = match self.cursor {
            None => {
                self.draft = Some(current.to_owned());
                self.entries.len() - 1
            },
            Some(idx) => idx.saturating_sub(1),
        };
        self.cursor = Some(next_cursor);
        if next_cursor < self.entries.len() {
            Some(self.entries[next_cursor].clone())
        } else {
            None
        }
    }

    /// Steps forward to the next (newer) entry, or back to the draft after the newest.
    pub fn next(&mut self) -> (r: Option<String>)
        ensures
            (final(self)@, opt_view(r)) == next_spec(old(self)@),
    {
        let idx = match self.cursor {
            Some(i) => i,
            None => return None,
        };
        if idx < self.entries.len() && idx + 1 < self.entries.len() {
            let next_idx = idx + 1;
            self.cursor = Some(next_idx);
            return Some(self.entries[next_idx].clone());
        }
        self.cursor = None;
        let mut out = None;
        core::mem::swap(&mut out, &mut self.draft);
        out
    }
}

impl Default for InputHistory {
    fn default() -> (h: Self)
        ensures
            h@.entries.len() == 0,
            h@.cursor is None,
            h@.draft is None,
    {
        InputHistory { entries: Vec::new(), cursor: None, draft: None }
    }
}

/// Starting to browse and stepping straight forward again gives back exactly
/// the input that was being typed, and ends browsing.
pub proof fn law_previous_then_next_restores_draft(m: HistoryModel, current: Seq<char>)
    requires
        m.cursor is None,
        m.entries.len() > 0,
    ensures
        next_spec(previous_spec(m, current).0).1 == Some(current),
        next_spec(previous_spec(m, current).0).0.cursor is None,
        next_spec(previous_spec(m, current).0).0.entries == m.entries,
{
}

/// The first step back shows the newest entry.
pub proof fn law_previous_shows_newest_first(m: HistoryModel, current: Seq<char>)
    requires
        m.cursor is None,
        m.entries.len() > 0,
    ensures
        previous_spec(m, current).1 == Some(m.entries.last()),
{
}

/// Stepping back from the oldest entry stays on it.
pub proof fn law_previous_stops_at_oldest(m: HistoryModel, current: Seq<char>)
    requires
        m.cursor == Some(0int),
        m.entries.len() > 0,
    ensures
        previous_spec(m, current).0 == m,
        previous_spec(m, current).1 == Some(m.entries[0]),
{
}

/// Recording the same input twice in a row keeps one copy.
pub proof fn law_record_twice_is_once(m: HistoryModel, entry: Seq<char>)
    ensures
        record_spec(record_spec(m, entry), entry) == record_spec(m, entry),
{
}

/// Recording a new entry ends browsing: stepping forward then yields nothing,
/// and stepping back shows that entry.
pub proof fn law_record_resets_browsing(m: HistoryModel, entry: Seq<char>, current: Seq<char>)
    requires
        !all_ws(entry),
        m.entries.len() == 0 || m.entries.last() != entry,
    ensures
        next_spec(record_spec(m, entry)).1 is None,
        previous_spec(record_spec(m, entry), current).1 == Some(entry),
{
}

} // verus!
