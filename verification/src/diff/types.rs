//! A unified diff as files, hunks and lines, with a review decision per hunk.
use vstd::prelude::*;

verus! {

/// What a diff line does.
#[derive(Debug, Clone, Copy, PartialEq, Eq, Structural)]
pub enum LineKind {
    Context,
    Add,
    Remove,
}

/// One line of a hunk, without its leading marker.
#[derive(Debug, Clone)]
pub struct DiffLine {
    pub kind: LineKind,
    pub content: String,
}

/// The review decision on a hunk.
#[derive(Debug, Clone, Copy, PartialEq, Eq, Structural)]
pub enum HunkDecision {
    Pending,
    Accepted,
    Rejected,
    Skipped,
}

/// One `@@` hunk: its header line, where it starts in the old and new file, and its lines.
#[derive(Debug, Clone)]
pub struct DiffHunk {
    pub header: String,
    pub old_start: usize,
    pub new_start: usize,
    pub lines: Vec<DiffLine>,
    pub decision: HunkDecision,
}

/// The hunks for one file, with the file's old and new path.
#[derive(Debug, Clone)]
pub struct DiffFile {
    pub old_path: String,
    pub new_path: String,
    pub hunks: Vec<DiffHunk>,
}

/// A whole diff.
#[derive(Debug, Clone)]
pub struct DiffView {
    pub files: Vec<DiffFile>,
}

/// The abstract value of a hunk.
pub struct HunkModel {
    pub header: Seq<char>,
    pub old_start: int,
    pub new_start: int,
    pub lines: Seq<(LineKind, Seq<char>)>,
    pub decision: HunkDecision,
}

/// The abstract value of a file's part of a diff.
pub struct FileModel {
    pub old_path: Seq<char>,
    pub new_path: Seq<char>,
    pub hunks: Seq<HunkModel>,
}

impl View for DiffLine {
    type V = (LineKind, Seq<char>);

    open spec fn view(&self) -> (LineKind, Seq<char>) {
        (self.kind, self.content@)
    }
}

impl View for DiffHunk {
    type V = HunkModel;

    open spec fn view(&self) -> HunkModel {
        HunkModel {
            header: self.header@,
            old_start: self.old_start as int,
            new_start: self.new_start as int,
            lines: self.lines@.map_values(|l: DiffLine| l@),
            decision: self.decision,
        }
    }
}

impl View for DiffFile {
    type V = FileModel;

    open spec fn view(&self) -> FileModel {
        FileModel {
            old_path: self.old_path@,
            new_path: self.new_path@,
            hunks: self.hunks@.map_values(|h: DiffHunk| h@),
        }
    }
}

impl View for DiffView {
    type V = Seq<FileModel>;

    open spec fn view(&self) -> Seq<FileModel> {
        self.files@.map_values(|f: DiffFile| f@)
    }
}

impl DiffHunk {
    /// Records the review decision on this hunk.
    pub fn set_decision(&mut self, decision: HunkDecision)
        ensures
            final(self)@ == (HunkModel { decision, ..old(self)@ }),
    {
        self.decision = decision;
    }
}

impl Default for DiffView {
    fn default() -> (d: Self)
        ensures
            d@.len() == 0,
    {
        DiffView { files: Vec::new() }
    }
}

} // verus!
