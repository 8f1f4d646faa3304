//! Applying the accepted hunks of a diff to a file's lines.
use vstd::prelude::*;

use crate::diff::parser::files_view;
use crate::diff::types::{DiffFile, DiffHunk, DiffLine, DiffView, FileModel, HunkDecision, HunkModel, LineKind};
use crate::strings::{chars_of, string_from_chars};
use crate::text::{lines_spec, split_lines, vv_view, first_nl_from, strip_cr};

verus! {

/// Why a diff could not be applied.
#[derive(Debug)]
pub enum DiffApplyError {
    /// No hunk of the diff is accepted.
    NothingToApply,
    /// A target path that is absolute or climbs out of the base directory.
    InvalidPath(String),
    /// A context or removed line does not match the file.
    ContextMismatch,
    /// A file whose old and new paths are both `/dev/null`.
    MissingFile,
    /// Reading or writing a file failed.
    Io(std::io::Error),
}

/// The abstract value of a [`DiffApplyError`].
pub enum ApplyErr {
    NothingToApply,
    InvalidPath(Seq<char>),
    ContextMismatch,
    MissingFile,
    Io,
}

impl View for DiffApplyError {
    type V = ApplyErr;

    open spec fn view(&self) -> ApplyErr {
        match self {
            DiffApplyError::NothingToApply => ApplyErr::NothingToApply,
            DiffApplyError::InvalidPath(s) => ApplyErr::InvalidPath(s@),
            DiffApplyError::ContextMismatch => ApplyErr::ContextMismatch,
            DiffApplyError::MissingFile => ApplyErr::MissingFile,
            DiffApplyError::Io(_) => ApplyErr::Io,
        }
    }
}

/// The path `/dev/null`, which stands for "no file" in a diff header.
pub open spec fn dev_null() -> Seq<char> {
    seq!['/', 'd', 'e', 'v', '/', 'n', 'u', 'l', 'l']
}

/// A path starting at the root (Unix: it begins with '/').
pub open spec fn is_absolute_path(p: Seq<char>) -> bool {
    p.len() > 0 && p[0] == '/'
}

/// A path with a `..` component (Unix: a '/'-separated segment that is exactly `..`).
pub open spec fn has_parent_component(p: Seq<char>) -> bool {
    exists|i: int| #[trigger] parent_at(p, i)
}

/// A `..` segment of `p` starts at `i`.
pub open spec fn parent_at(p: Seq<char>, i: int) -> bool {
    &&& 0 <= i && i + 1 < p.len()
    &&& (i == 0 || p[i - 1] == '/')
    &&& p[i] == '.'
    &&& p[i + 1] == '.'
    &&& (i + 2 == p.len() || p[i + 2] == '/')
}

/// The path a file's hunks apply to: its new path, or its old one when the
/// new is `/dev/null`; refused when both are, or when it is absolute or has a `..`.
pub open spec fn target_path_spec(old_path: Seq<char>, new_path: Seq<char>) -> Result<Seq<char>, ApplyErr> {
    let path = if new_path != dev_null() {
        new_path
    } else {
        old_path
    };
    if new_path == dev_null() && old_path == dev_null() {
        Err(ApplyErr::MissingFile)
    } else if is_absolute_path(path) || has_parent_component(path) {
        Err(ApplyErr::InvalidPath(path))
    } else {
        Ok(path)
    }
}

fn is_dev_null(p: &String) -> (b: bool)
    ensures
        b == (p@ == dev_null()),
{
    let v = chars_of(p.as_str());
    let target = ['/', 'd', 'e', 'v', '/', 'n', 'u', 'l', 'l'];
    assert(target@ =~= dev_null());
    if v.len() != target.len() {
        return false;
    }
    let mut i: usize = 0;
    while i < v.len()
        invariant
            0 <= i <= v.len(),
            v.len() == target@.len(),
            v@ == p@,
            target@ == dev_null(),
            forall|j: int| 0 <= j < i ==> v@[j] == target@[j],
        decreases v.len() - i,
    {
        if v[i] != target[i] {
            assert(p@[i as int] != dev_null()[i as int]);
            return false;
        }
        i = i + 1;
    }
    assert(v@ =~= target@);
    true
}

fn sanitize_path(raw: &String) -> (r: Result<String, DiffApplyError>)
    ensures
        match r {
            Ok(p) => p@ == raw@ && !is_absolute_path(raw@) && !has_parent_component(raw@),
            Err(e) => e@ == ApplyErr::InvalidPath(raw@) && (is_absolute_path(raw@)
                || has_parent_component(raw@)),
        },
{
    let v = chars_of(raw.as_str());
    if v.len() > 0 && v[0] == '/' {
        return Err(DiffApplyError::InvalidPath(raw.clone()));
    }
    let mut i: usize = 0;
    while i < v.len()
        invariant
            0 <= i <= v.len(),
            v@ == raw@,
            !is_absolute_path(raw@),
            forall|j: int| 0 <= j < i ==> !#[trigger] parent_at(raw@, j),
        decreases v.len() - i,
    {
        let here = i + 1 < v.len() && (i == 0 || v[i - 1] == '/') && v[i] == '.' && v[i + 1]
            == '.' && (i + 2 == v.len() || v[i + 2] == '/');
        assert(here == parent_at(raw@, i as int));
        if here {
            return Err(DiffApplyError::InvalidPath(raw.clone()));
        }
        i = i + 1;
    }
    assert forall|j: int| !#[trigger] parent_at(raw@, j) by {}
    Ok(raw.clone())
}

/// The path, relative to the base directory, that `file`'s hunks apply to.
pub fn resolve_target_path(file: &DiffFile) -> (r: Result<String, DiffApplyError>)
    ensures
        match r {
            Ok(p) => target_path_spec(file.old_path@, file.new_path@) == Ok::<Seq<char>, ApplyErr>(p@),
            Err(e) => target_path_spec(file.old_path@, file.new_path@) == Err::<Seq<char>, ApplyErr>(e@),
        },
{
    let path = if !is_dev_null(&file.new_path) {
        &file.new_path
    } else if !is_dev_null(&file.old_path) {
        &file.old_path
    } else {
        return Err(DiffApplyError::MissingFile);
    };
    sanitize_path(path)
}

/// The chars of each string.
pub open spec fn strings_view(v: Seq<String>) -> Seq<Seq<char>> {
    v.map_values(|s: String| s@)
}

/// Applying the hunk lines from the `k`-th on at line `index` of `original`,
/// with `out` written so far: added lines are written, context lines are
/// checked and copied, removed lines are checked and skipped. Gives the next
/// line of `original` and the output, or `None` when a line does not match.
pub open spec fn hunk_lines_spec(
    lines: Seq<(LineKind, Seq<char>)>,
    original: Seq<Seq<char>>,
    k: int,
    index: int,
    out: Seq<Seq<char>>,
) -> Option<(int, Seq<Seq<char>>)>
    decreases lines.len() - k,
{
    if k < 0 || k >= lines.len() {
        Some((index, out))
    } else {
        let (kind, content) = lines[k];
        if kind == LineKind::Add {
            hunk_lines_spec(lines, original, k + 1, index, out.push(content))
        } else if 0 <= index < original.len() && original[index] == content {
            hunk_lines_spec(
                lines,
                original,
                k + 1,
                index + 1,
                if kind == LineKind::Context {
                    out.push(original[index])
                } else {
                    out
                },
            )
        } else {
            None
        }
    }
}

/// What applying a file's hunks to its lines comes to.
pub enum ApplyOutcome {
    /// The new lines.
    Applied(Seq<Seq<char>>),
    /// A hunk starts past the end of the file, or a line does not match.
    Mismatch,
    /// An accepted hunk starts before the end of the previous one (the lines
    /// between them cannot be copied).
    Overlap,
}

/// Applying the accepted hunks from the `h`-th on, with the lines before
/// `index` of `original` already dealt with and `out` written so far.
pub open spec fn file_apply_spec(
    hunks: Seq<HunkModel>,
    original: Seq<Seq<char>>,
    h: int,
    index: int,
    out: Seq<Seq<char>>,
) -> ApplyOutcome
    decreases hunks.len() - h,
{
    if h < 0 || h >= hunks.len() {
        ApplyOutcome::Applied(out + original.subrange(index, original.len() as int))
    } else if hunks[h].decision != HunkDecision::Accepted {
        file_apply_spec(hunks, original, h + 1, index, out)
    } else {
        let start = if hunks[h].old_start >= 1 {
            hunks[h].old_start - 1
        } else {
            0
        };
        if start > original.len() {
            ApplyOutcome::Mismatch
        } else if start < index {
            ApplyOutcome::Overlap
        } else {
            match hunk_lines_spec(
                hunks[h].lines,
                original,
                0,
                start,
                out + original.subrange(index, start),
            ) {
                None => ApplyOutcome::Mismatch,
                Some((next, out2)) => file_apply_spec(hunks, original, h + 1, next, out2),
            }
        }
    }
}

/// The lines of a file after applying the accepted hunks of `file` to `original`.
pub open spec fn apply_file_spec(file: FileModel, original: Seq<Seq<char>>) -> ApplyOutcome {
    file_apply_spec(file.hunks, original, 0, 0, seq![])
}

proof fn lemma_hunk_lines_index(
    lines: Seq<(LineKind, Seq<char>)>,
    original: Seq<Seq<char>>,
    k: int,
    index: int,
    out: Seq<Seq<char>>,
)
    requires
        0 <= index <= original.len(),
    ensures
        hunk_lines_spec(lines, original, k, index, out) matches Some((i, _)) ==> index <= i
            <= original.len(),
    decreases lines.len() - k,
{
    if 0 <= k < lines.len() {
        let (kind, content) = lines[k];
        if kind == LineKind::Add {
            lemma_hunk_lines_index(lines, original, k + 1, index, out.push(content));
        } else if 0 <= index < original.len() && original[index] == content {
            lemma_hunk_lines_index(
                lines,
                original,
                k + 1,
                index + 1,
                if kind == LineKind::Context {
                    out.push(original[index])
                } else {
                    out
                },
            );
        }
    }
}

fn apply_hunk_lines(
    hunk: &DiffHunk,
    original: &Vec<String>,
    index: &mut usize,
    output: &mut Vec<String>,
) -> (r: Result<(), DiffApplyError>)
    requires
        *old(index) <= original.len(),
    ensures
        match hunk_lines_spec(
            hunk@.lines,
            strings_view(original@),
            0,
            *old(index) as int,
            strings_view(old(output)@),
        ) {
            Some((i, o)) => r is Ok && *final(index) == i && strings_view(final(output)@) == o,
            None => r matches Err(e) && e@ == ApplyErr::ContextMismatch,
        },
{
    let ghost orig = strings_view(original@);
    let ghost lines = hunk@.lines;
    let mut k: usize = 0;
    while k < hunk.lines.len()
        invariant
            0 <= k <= hunk.lines.len(),
            *index <= original.len(),
            orig == strings_view(original@),
            lines == hunk@.lines,
            hunk_lines_spec(lines, orig, 0, *old(index) as int, strings_view(old(output)@))
                == hunk_lines_spec(lines, orig, k as int, *index as int, strings_view(output@)),
        decreases hunk.lines.len() - k,
    {
        let line = &hunk.lines[k];
        assert(lines[k as int] == line@);
        let ghost before = strings_view(output@);
        match line.kind {
            LineKind::Add => {
                output.push(line.content.clone());
                assert(strings_view(output@) =~= before.push(line.content@));
            },
            _ => {
                if *index < original.len() && original[*index] == line.content {
                    if line.kind == LineKind::Context {
                        output.push(original[*index].clone());
                        assert(strings_view(output@) =~= before.push(orig[*index as int]));
                    }
                    *index = *index + 1;
                } else {
                    return Err(DiffApplyError::ContextMismatch);
                }
            },
        }
        k = k + 1;
    }
    Ok(())
}

/// Copies `original[from..to]` onto the end of `output`.
fn copy_lines(original: &Vec<String>, from: usize, to: usize, output: &mut Vec<String>)
    requires
        from <= to <= original.len(),
    ensures
        strings_view(final(output)@) == strings_view(old(output)@) + strings_view(
            original@,
        ).subrange(from as int, to as int),
{
    let mut i = from;
    while i < to
        invariant
            from <= i <= to <= original.len(),
            strings_view(output@) == strings_view(old(output)@) + strings_view(original@).subrange(
                from as int,
                i as int,
            ),
        decreases to - i,
    {
        let ghost before = strings_view(output@);
        output.push(original[i].clone());
        assert(strings_view(output@) =~= before.push(original@[i as int]@));
        assert(strings_view(original@).subrange(from as int, i + 1) =~= strings_view(
            original@,
        ).subrange(from as int, i as int).push(original@[i as int]@));
        i = i + 1;
    }
}

/// Applies the accepted hunks of `file` to `original`; `Err(true)` when two
/// accepted hunks overlap, `Err(false)` when a hunk does not match.
fn apply_file_outcome(file: &DiffFile, original: &Vec<String>) -> (r: Result<Vec<String>, bool>)
    ensures
        match apply_file_spec(file@, strings_view(original@)) {
            ApplyOutcome::Applied(lines) => r matches Ok(v) && strings_view(v@) == lines,
            ApplyOutcome::Mismatch => r == Err::<Vec<String>, bool>(false),
            ApplyOutcome::Overlap => r == Err::<Vec<String>, bool>(true),
        },
{
    let ghost orig = strings_view(original@);
    let ghost hunks = file@.hunks;
    let mut output: Vec<String> = Vec::new();
    let mut index: usize = 0;
    let mut h: usize = 0;
    assert(strings_view(output@) =~= Seq::<Seq<char>>::empty());
    while h < file.hunks.len()
        invariant
            0 <= h <= file.hunks.len(),
            index <= original.len(),
            orig == strings_view(original@),
            hunks == file@.hunks,
            file_apply_spec(hunks, orig, 0, 0, seq![]) == file_apply_spec(
                hunks,
                orig,
                h as int,
                index as int,
                strings_view(output@),
            ),
        decreases file.hunks.len() - h,
    {
        let hunk = &file.hunks[h];
        assert(hunks[h as int] == hunk@);
        if hunk.decision == HunkDecision::Accepted {
            let start = hunk.old_start.saturating_sub(1);
            if start > original.len() {
                return Err(false);
            }
            if start < index {
                return Err(true);
            }
            copy_lines(original, index, start, &mut output);
            index = start;
            proof {
                lemma_hunk_lines_index(hunk@.lines, orig, 0, start as int, strings_view(output@));
            }
            match apply_hunk_lines(hunk, original, &mut index, &mut output) {
                Ok(()) => {},
                Err(_) => {
                    return Err(false);
                },
            }
        }
        h = h + 1;
    }
    copy_lines(original, index, original.len(), &mut output);
    Ok(output)
}

/// Whether two accepted hunks of `file` overlap when applied to `original`
/// (applying such a file is refused by [`apply_file`]'s precondition).
pub fn hunks_overlap(file: &DiffFile, original: &Vec<String>) -> (b: bool)
    ensures
        b == apply_file_spec(file@, strings_view(original@)) is Overlap,
{
    match apply_file_outcome(file, original) {
        Err(true) => true,
        _ => false,
    }
}

/// The new lines of a file whose old lines are `original`, after applying
/// the accepted hunks of `file` in order.
pub fn apply_file(file: &DiffFile, original: &Vec<String>) -> (r: Result<Vec<String>, DiffApplyError>)
    requires
        !(apply_file_spec(file@, strings_view(original@)) is Overlap),
    ensures
        match apply_file_spec(file@, strings_view(original@)) {
            ApplyOutcome::Applied(lines) => r matches Ok(v) && strings_view(v@) == lines,
            _ => r matches Err(e) && e@ == ApplyErr::ContextMismatch,
        },
{
    match apply_file_outcome(file, original) {
        Ok(v) => Ok(v),
        Err(_) => Err(DiffApplyError::ContextMismatch),
    }
}

/// The files of `diff` that have an accepted hunk, by index, in order; none is refused.
pub fn plan_apply(diff: &DiffView) -> (r: Result<Vec<usize>, DiffApplyError>)
    ensures
        match r {
            Ok(v) => v@.len() > 0 && (forall|i: int|
                0 <= i < v@.len() ==> #[trigger] v@[i] < diff@.len() && has_accepted(diff@[v@[i] as int]))
                && (forall|i: int, j: int| 0 <= i < j < v@.len() ==> v@[i] < v@[j]) && (forall|f: int|
                0 <= f < diff@.len() && has_accepted(#[trigger] diff@[f]) ==> v@.contains(f as usize)),
            Err(e) => e@ == ApplyErr::NothingToApply && forall|f: int|
                0 <= f < diff@.len() ==> !has_accepted(#[trigger] diff@[f]),
        },
{
    let mut out: Vec<usize> = Vec::new();
    let mut f: usize = 0;
    while f < diff.files.len()
        invariant
            0 <= f <= diff.files.len(),
            forall|i: int| 0 <= i < out@.len() ==> #[trigger] out@[i] < f && has_accepted(diff@[out@[i] as int]),
            forall|i: int, j: int| 0 <= i < j < out@.len() ==> out@[i] < out@[j],
            forall|g: int| 0 <= g < f && has_accepted(#[trigger] diff@[g]) ==> out@.contains(g as usize),
        decreases diff.files.len() - f,
    {
        assert(diff@[f as int] == diff.files@[f as int]@);
        if has_accepted_hunk(&diff.files[f]) {
            let ghost before = out@;
            out.push(f);
            assert(out@.last() == f);
            assert forall|g: int| 0 <= g < f + 1 && has_accepted(#[trigger] diff@[g]) implies out@.contains(g as usize) by {
                if g < f {
                    assert(before.contains(g as usize));
                    let k = choose|k: int| 0 <= k < before.len() && before[k] == g as usize;
                    assert(out@[k] == g as usize);
                } else {
                    assert(out@[out@.len() - 1] == g as usize);
                }
            }
        }
        f = f + 1;
    }
    if out.len() == 0 {
        assert forall|g: int| 0 <= g < diff@.len() implies !has_accepted(#[trigger] diff@[g]) by {
            if has_accepted(diff@[g]) {
                assert(out@.contains(g as usize));
            }
        }
        return Err(DiffApplyError::NothingToApply);
    }
    Ok(out)
}

/// `lines` joined with line feeds between them.
pub open spec fn join_lines(lines: Seq<Seq<char>>) -> Seq<char>
    decreases lines.len(),
{
    if lines.len() == 0 {
        seq![]
    } else if lines.len() == 1 {
        lines[0]
    } else {
        lines[0] + seq!['\n'] + join_lines(lines.drop_first())
    }
}

/// A file's text from its lines: joined by line feeds, with a final line feed when `had_newline`.
pub open spec fn contents_spec(lines: Seq<Seq<char>>, had_newline: bool) -> Seq<char> {
    join_lines(lines) + if had_newline {
        seq!['\n']
    } else {
        seq![]
    }
}

/// `s` ends with a line feed.
pub open spec fn ends_with_nl(s: Seq<char>) -> bool {
    s.len() > 0 && s.last() == '\n'
}

/// A file's lines (as `str::lines` splits them) and whether it ends with a line feed.
pub fn file_lines(contents: &str) -> (r: (Vec<String>, bool))
    ensures
        strings_view(r.0@) == lines_spec(contents@),
        r.1 == ends_with_nl(contents@),
{
    let chars = chars_of(contents);
    let lines = split_lines(&chars);
    let mut out: Vec<String> = Vec::new();
    let mut i: usize = 0;
    while i < lines.len()
        invariant
            0 <= i <= lines.len(),
            strings_view(out@) == vv_view(lines@).subrange(0, i as int),
        decreases lines.len() - i,
    {
        let ghost before = out@;
        assert(strings_view(before).len() == before.len());
        let line = string_from_chars(lines[i].as_slice());
        assert(line@ == vv_view(lines@)[i as int]);
        out.push(line);
        assert(out@ == before.push(line));
        assert(strings_view(out@) =~= vv_view(lines@).subrange(0, i + 1)) by {
            assert forall|k: int| 0 <= k < i + 1 implies #[trigger] strings_view(out@)[k] == vv_view(lines@)[k] by {
                if k < i {
                    assert(out@[k] == before[k]);
                    assert(strings_view(before)[k] == vv_view(lines@)[k]);
                }
            }
        }
        i = i + 1;
    }
    assert(vv_view(lines@).subrange(0, lines.len() as int) =~= vv_view(lines@));
    let had_newline = chars.len() > 0 && chars[chars.len() - 1] == '\n';
    (out, had_newline)
}

/// The text of a file with these lines, ending in a line feed when `had_newline`.
pub fn file_contents(lines: &Vec<String>, had_newline: bool) -> (s: String)
    ensures
        s@ == contents_spec(strings_view(lines@), had_newline),
{
    let mut out: Vec<char> = Vec::new();
    let mut i: usize = lines.len();
    let ghost lv = strings_view(lines@);
    while i > 0
        invariant
            0 <= i <= lines.len(),
            lv == strings_view(lines@),
            i < lines.len() ==> out@ == join_lines(lv.subrange(i as int, lv.len() as int)),
            i == lines.len() ==> out@.len() == 0,
        decreases i,
    {
        let piece = chars_of(lines[i - 1].as_str());
        let mut next: Vec<char> = piece;
        if i < lines.len() {
            next.push('\n');
        }
        let mut j: usize = 0;
        let ghost head = next@;
        while j < out.len()
            invariant
                0 <= j <= out.len(),
                next@ == head + out@.subrange(0, j as int),
            decreases out.len() - j,
        {
            next.push(out[j]);
            assert(next@ =~= head + out@.subrange(0, j + 1));
            j = j + 1;
        }
        proof {
            let tail = lv.subrange(i - 1, lv.len() as int);
            assert(tail[0] == lines@[i - 1]@);
            if i < lines.len() {
                assert(tail.drop_first() =~= lv.subrange(i as int, lv.len() as int));
                assert(next@ =~= tail[0] + seq!['\n'] + join_lines(tail.drop_first()));
            } else {
                assert(tail.len() == 1);
                assert(next@ =~= tail[0]);
            }
        }
        out = next;
        i = i - 1;
    }
    if had_newline {
        out.push('\n');
    }
    proof {
        if lines.len() == 0 {
            assert(join_lines(lv) =~= Seq::<char>::empty());
        } else {
            assert(lv.subrange(0, lv.len() as int) =~= lv);
        }
    }
    string_from_chars(out.as_slice())
}

/// Some hunk of the file is accepted.
pub open spec fn has_accepted(f: FileModel) -> bool {
    exists|k: int| 0 <= k < f.hunks.len() && #[trigger] f.hunks[k].decision == HunkDecision::Accepted
}

/// Whether some hunk of `file` is accepted.
pub fn has_accepted_hunk(file: &DiffFile) -> (b: bool)
    ensures
        b == has_accepted(file@),
{
    let mut k: usize = 0;
    while k < file.hunks.len()
        invariant
            0 <= k <= file.hunks.len(),
            forall|j: int| 0 <= j < k ==> #[trigger] file@.hunks[j].decision != HunkDecision::Accepted,
        decreases file.hunks.len() - k,
    {
        assert(file@.hunks[k as int] == file.hunks@[k as int]@);
        if file.hunks[k].decision == HunkDecision::Accepted {
            assert(file@.hunks[k as int].decision == HunkDecision::Accepted);
            return true;
        }
        k = k + 1;
    }
    false
}

proof fn lemma_skip_unaccepted(hunks: Seq<HunkModel>, original: Seq<Seq<char>>, h: int)
    requires
        0 <= h <= hunks.len(),
        forall|k: int| 0 <= k < hunks.len() ==> #[trigger] hunks[k].decision != HunkDecision::Accepted,
    ensures
        file_apply_spec(hunks, original, h, 0, seq![]) == ApplyOutcome::Applied(original),
    decreases hunks.len() - h,
{
    if h < hunks.len() {
        lemma_skip_unaccepted(hunks, original, h + 1);
    } else {
        assert(Seq::<Seq<char>>::empty() + original.subrange(0, original.len() as int) =~= original);
    }
}

/// Only accepted hunks are applied: a file none of whose hunks is accepted
/// keeps its lines as they are.
pub proof fn law_unaccepted_hunks_keep_lines(file: FileModel, original: Seq<Seq<char>>)
    requires
        forall|k: int| 0 <= k < file.hunks.len() ==> #[trigger] file.hunks[k].decision != HunkDecision::Accepted,
    ensures
        apply_file_spec(file, original) == ApplyOutcome::Applied(original),
{
    lemma_skip_unaccepted(file.hunks, original, 0);
}

/// `a` and `b` are the same hunks but for where they say the new file's lines start.
pub open spec fn differ_in_new_start_only(a: Seq<HunkModel>, b: Seq<HunkModel>) -> bool {
    &&& a.len() == b.len()
    &&& forall|k: int|
        0 <= k < a.len() ==> #[trigger] a[k] == (HunkModel { new_start: a[k].new_start, ..b[k] })
}

proof fn lemma_new_start_ignored(
    a: Seq<HunkModel>,
    b: Seq<HunkModel>,
    original: Seq<Seq<char>>,
    h: int,
    index: int,
    out: Seq<Seq<char>>,
)
    requires
        differ_in_new_start_only(a, b),
    ensures
        file_apply_spec(a, original, h, index, out) == file_apply_spec(b, original, h, index, out),
    decreases a.len() - h,
{
    if 0 <= h < a.len() {
        assert(a[h] == (HunkModel { new_start: a[h].new_start, ..b[h] }));
        let start = if a[h].old_start >= 1 {
            a[h].old_start - 1
        } else {
            0
        };
        lemma_new_start_ignored(a, b, original, h + 1, index, out);
        match hunk_lines_spec(a[h].lines, original, 0, start, out + original.subrange(index, start)) {
            Some((next, out2)) => {
                lemma_new_start_ignored(a, b, original, h + 1, next, out2);
            },
            None => {},
        }
    }
}

/// Hunks are placed by where they start in the old file: two files whose
/// hunks differ only in their new-file start apply to the same lines.
pub proof fn law_new_start_does_not_place_hunks(f: FileModel, g: FileModel, original: Seq<Seq<char>>)
    requires
        differ_in_new_start_only(f.hunks, g.hunks),
    ensures
        apply_file_spec(f, original) == apply_file_spec(g, original),
{
    lemma_new_start_ignored(f.hunks, g.hunks, original, 0, 0, seq![]);
}

/// An accepted hunk that removes line `s` (its old start being `s + 1`, in
/// the one-based count of hunk headers) gives the file without that line.
pub proof fn law_accepted_removal_drops_its_line(
    f: FileModel,
    original: Seq<Seq<char>>,
    s: int,
)
    requires
        0 <= s < original.len(),
        f.hunks.len() == 1,
        f.hunks[0].decision == HunkDecision::Accepted,
        f.hunks[0].old_start == s + 1,
        f.hunks[0].lines == seq![(LineKind::Remove, original[s])],
    ensures
        apply_file_spec(f, original) == ApplyOutcome::Applied(
            original.subrange(0, s) + original.subrange(s + 1, original.len() as int),
        ),
{
    let hs = f.hunks;
    let lines = hs[0].lines;
    let pre = Seq::<Seq<char>>::empty() + original.subrange(0, s);
    assert(hunk_lines_spec(lines, original, 1, s + 1, pre) == Some((s + 1, pre)));
    assert(hunk_lines_spec(lines, original, 0, s, pre) == Some((s + 1, pre)));
    assert(file_apply_spec(hs, original, 1, s + 1, pre) == ApplyOutcome::Applied(
        pre + original.subrange(s + 1, original.len() as int),
    ));
    assert(pre =~= original.subrange(0, s));
}

/// An accepted hunk that adds line `x` before line `s` (its old start being
/// `s + 1`) gives the file with `x` inserted there.
pub proof fn law_accepted_addition_inserts_its_line(
    f: FileModel,
    original: Seq<Seq<char>>,
    s: int,
    x: Seq<char>,
)
    requires
        0 <= s <= original.len(),
        f.hunks.len() == 1,
        f.hunks[0].decision == HunkDecision::Accepted,
        f.hunks[0].old_start == s + 1,
        f.hunks[0].lines == seq![(LineKind::Add, x)],
    ensures
        apply_file_spec(f, original) == ApplyOutcome::Applied(
            original.subrange(0, s) + seq![x] + original.subrange(s, original.len() as int),
        ),
{
    let hs = f.hunks;
    let lines = hs[0].lines;
    let pre = Seq::<Seq<char>>::empty() + original.subrange(0, s);
    assert(hunk_lines_spec(lines, original, 1, s, pre.push(x)) == Some((s, pre.push(x))));
    assert(hunk_lines_spec(lines, original, 0, s, pre) == Some((s, pre.push(x))));
    assert(file_apply_spec(hs, original, 1, s, pre.push(x)) == ApplyOutcome::Applied(
        pre.push(x) + original.subrange(s, original.len() as int),
    ));
    assert(pre.push(x) =~= original.subrange(0, s) + seq![x]);
}

/// No carriage return stands right before a line feed in `s`.
pub open spec fn no_crlf(s: Seq<char>) -> bool {
    forall|j: int| 0 < j < s.len() && #[trigger] s[j] == '\n' ==> s[j - 1] != '\r'
}

/// Writing back the lines read from a file, with its final line feed when it
/// had one, gives the file's text again (when no line ends in `\r\n`, which
/// reading drops).
pub proof fn law_lines_round_trip(c: Seq<char>)
    requires
        no_crlf(c),
    ensures
        contents_spec(lines_spec(c), ends_with_nl(c)) == c,
    decreases c.len(),
{
    if c.len() > 0 {
        match first_nl_from(c, 0) {
            Some(i) => {
                lemma_first_nl_bounds(c, 0);
                let head = c.subrange(0, i);
                let rest = c.subrange(i + 1, c.len() as int);
                assert(strip_cr(head) == head) by {
                    if head.len() > 0 {
                        assert(c[i] == '\n');
                        assert(head.last() == c[i - 1]);
                    }
                }
                assert(no_crlf(rest)) by {
                    assert forall|j: int| 0 < j < rest.len() && #[trigger] rest[j] == '\n' implies rest[j - 1] != '\r' by {
                        assert(c[i + 1 + j] == '\n');
                    }
                }
                law_lines_round_trip(rest);
                if rest.len() == 0 {
                    assert(lines_spec(c) =~= seq![head]);
                    assert(c.last() == '\n');
                    assert(c =~= head + seq!['\n']);
                } else {
                    let tail = lines_spec(rest);
                    assert(tail.len() > 0);
                    assert((seq![head] + tail).drop_first() =~= tail);
                    assert(join_lines(lines_spec(c)) == head + seq!['\n'] + join_lines(tail));
                    assert(ends_with_nl(c) == ends_with_nl(rest)) by {
                        assert(c.last() == rest.last());
                    }
                    assert(c =~= head + seq!['\n'] + rest);
                }
            },
            None => {
                lemma_no_nl_everywhere(c, 0);
                assert(c.last() != '\n');
            },
        }
    }
}

proof fn lemma_first_nl_bounds(s: Seq<char>, k: int)
    requires
        0 <= k,
    ensures
        first_nl_from(s, k) matches Some(i) ==> k <= i < s.len() && s[i] == '\n' && forall|j: int|
            k <= j < i ==> s[j] != '\n',
    decreases s.len() - k,
{
    if k < s.len() && s[k] != '\n' {
        lemma_first_nl_bounds(s, k + 1);
    }
}

proof fn lemma_no_nl_everywhere(s: Seq<char>, k: int)
    requires
        0 <= k,
        first_nl_from(s, k) is None,
    ensures
        forall|j: int| k <= j < s.len() ==> s[j] != '\n',
    decreases s.len() - k,
{
    if k < s.len() {
        lemma_no_nl_everywhere(s, k + 1);
    }
}

} // verus!
