//! Parsing unified diffs into files, hunks and lines.
use vstd::prelude::*;

use crate::diff::types::{DiffFile, DiffHunk, DiffLine, DiffView, FileModel, HunkDecision, HunkModel, LineKind};
use crate::strings::{chars_of, opt_view, string_from_chars};
use crate::text::{
    chars_between, copy_range, find_double_at, find_double_at_exec, lines_spec, parse_usize,
    parse_usize_spec, split_lines, split_whitespace, split_ws, starts_with, strip_all,
    strip_all_from, trim, trim_bounds, vv_view, has_prefix,
};

verus! {

/// Why a diff could not be parsed.
#[derive(Debug)]
pub enum DiffParseError {
    /// The diff names no file.
    EmptyDiff,
    /// A `+++` line without a `---` line before it, or a hunk before any file header.
    MissingFileHeader,
    /// A hunk header that could not be read (the offending text).
    InvalidHunkHeader(String),
}

/// The abstract value of a [`DiffParseError`].
pub enum ParseErr {
    EmptyDiff,
    MissingFileHeader,
    InvalidHunkHeader(Seq<char>),
}

impl View for DiffParseError {
    type V = ParseErr;

    open spec fn view(&self) -> ParseErr {
        match self {
            DiffParseError::EmptyDiff => ParseErr::EmptyDiff,
            DiffParseError::MissingFileHeader => ParseErr::MissingFileHeader,
            DiffParseError::InvalidHunkHeader(s) => ParseErr::InvalidHunkHeader(s@),
        }
    }
}

/// A path from a file header with its `a/` and `b/` prefixes removed (all
/// leading `a/`s, then all leading `b/`s).
pub open spec fn clean_path_spec(raw: Seq<char>) -> Seq<char> {
    strip_all(strip_all(raw, seq!['a', '/']), seq!['b', '/'])
}

/// The index of the first `c` in `s` at or after `k`, or the length of `s`.
pub open spec fn char_pos_from(s: Seq<char>, c: char, k: int) -> int
    decreases s.len() - k,
{
    if k < 0 || k >= s.len() {
        s.len() as int
    } else if s[k] == c {
        k
    } else {
        char_pos_from(s, c, k + 1)
    }
}

/// A hunk range token such as `-3,4`: the start line after the `prefix`
/// char and before any comma.
pub open spec fn range_spec(token: Seq<char>, prefix: char) -> Result<int, ParseErr> {
    if token.len() > 0 && token[0] == prefix {
        let value = token.drop_first();
        let number = value.subrange(0, char_pos_from(value, ',', 0));
        match parse_usize_spec(number) {
            Some(n) => Ok(n as int),
            None => Err(ParseErr::InvalidHunkHeader(token)),
        }
    } else {
        Err(ParseErr::InvalidHunkHeader(token))
    }
}

/// A hunk header line `@@ -a,b +c,d @@ ...`: the old and new start lines and the line itself.
pub open spec fn hunk_header_spec(line: Seq<char>) -> Result<(int, int, Seq<char>), ParseErr> {
    let t = trim(line);
    match find_double_at(t, 0) {
        None => Err(ParseErr::InvalidHunkHeader(line)),
        Some(st) => {
            let rest = t.subrange(st + 2, t.len() as int);
            match find_double_at(rest, 0) {
                None => Err(ParseErr::InvalidHunkHeader(line)),
                Some(en) => {
                    let parts = split_ws(trim(rest.subrange(0, en)));
                    if parts.len() < 2 {
                        Err(ParseErr::InvalidHunkHeader(line))
                    } else {
                        match range_spec(parts[0], '-') {
                            Err(e) => Err(e),
                            Ok(o) => match range_spec(parts[1], '+') {
                                Err(e) => Err(e),
                                Ok(n) => Ok((o, n, line)),
                            },
                        }
                    }
                },
            }
        },
    }
}

/// A hunk body line: its kind by its first char, and the rest of it.
pub open spec fn diff_line_spec(line: Seq<char>) -> Option<(LineKind, Seq<char>)> {
    if line.len() == 0 {
        None
    } else if line[0] == '+' {
        Some((LineKind::Add, line.drop_first()))
    } else if line[0] == '-' {
        Some((LineKind::Remove, line.drop_first()))
    } else if line[0] == ' ' {
        Some((LineKind::Context, line.drop_first()))
    } else {
        None
    }
}

/// The parser's state between lines: the files so far and a `---` path awaiting its `+++`.
pub struct ParseState {
    pub files: Seq<FileModel>,
    pub pending_old: Option<Seq<char>>,
}

/// `files` with `f` in place of the last file.
pub open spec fn with_last_file(files: Seq<FileModel>, f: FileModel) -> Seq<FileModel> {
    files.update(files.len() - 1, f)
}

/// How one line changes the state: `---` and `+++` lines open a file, `@@`
/// lines open a hunk in the last file, and `+`, `-`, ` ` lines extend the last
/// hunk; anything else, and body lines before any hunk, are skipped.
pub open spec fn step_spec(st: ParseState, line: Seq<char>) -> Result<ParseState, ParseErr> {
    if starts_with(line, seq!['-', '-', '-', ' ']) {
        Ok(
            ParseState {
                files: st.files,
                pending_old: Some(clean_path_spec(trim(line.subrange(4, line.len() as int)))),
            },
        )
    } else if starts_with(line, seq!['+', '+', '+', ' ']) {
        match st.pending_old {
            None => Err(ParseErr::MissingFileHeader),
            Some(old) => Ok(
                ParseState {
                    files: st.files.push(
                        FileModel {
                            old_path: old,
                            new_path: clean_path_spec(trim(line.subrange(4, line.len() as int))),
                            hunks: seq![],
                        },
                    ),
                    pending_old: None,
                },
            ),
        }
    } else if starts_with(line, seq!['@', '@']) {
        match hunk_header_spec(line) {
            Err(e) => Err(e),
            Ok((o, n, h)) => if st.files.len() == 0 {
                Err(ParseErr::MissingFileHeader)
            } else {
                let f = st.files.last();
                Ok(
                    ParseState {
                        files: with_last_file(
                            st.files,
                            FileModel {
                                hunks: f.hunks.push(
                                    HunkModel {
                                        header: h,
                                        old_start: o,
                                        new_start: n,
                                        lines: seq![],
                                        decision: HunkDecision::Pending,
                                    },
                                ),
                                ..f
                            },
                        ),
                        pending_old: st.pending_old,
                    },
                )
            },
        }
    } else if st.files.len() == 0 || st.files.last().hunks.len() == 0 {
        Ok(st)
    } else {
        match diff_line_spec(line) {
            None => Ok(st),
            Some(dl) => {
                let f = st.files.last();
                let h = f.hunks.last();
                Ok(
                    ParseState {
                        files: with_last_file(
                            st.files,
                            FileModel {
                                hunks: f.hunks.update(
                                    f.hunks.len() - 1,
                                    HunkModel { lines: h.lines.push(dl), ..h },
                                ),
                                ..f
                            },
                        ),
                        pending_old: st.pending_old,
                    },
                )
            },
        }
    }
}

/// The state after the first `k` lines, or the first error.
pub open spec fn parse_prefix(lines: Seq<Seq<char>>, k: int) -> Result<ParseState, ParseErr>
    decreases k,
{
    if k <= 0 {
        Ok(ParseState { files: seq![], pending_old: None })
    } else {
        match parse_prefix(lines, k - 1) {
            Err(e) => Err(e),
            Ok(st) => step_spec(st, lines[k - 1]),
        }
    }
}

/// What parsing `input` gives: its files, or why it failed.
pub open spec fn parse_diff_spec(input: Seq<char>) -> Result<Seq<FileModel>, ParseErr> {
    let lines = lines_spec(input);
    match parse_prefix(lines, lines.len() as int) {
        Err(e) => Err(e),
        Ok(st) => if st.files.len() == 0 {
            Err(ParseErr::EmptyDiff)
        } else {
            Ok(st.files)
        },
    }
}

/// Every hunk of `files` is still pending review.
pub open spec fn all_pending(files: Seq<FileModel>) -> bool {
    forall|i: int, j: int|
        0 <= i < files.len() && 0 <= j < files[i].hunks.len() ==> #[trigger] files[i].hunks[j].decision
            == HunkDecision::Pending
}

proof fn lemma_step_keeps_pending(st: ParseState, line: Seq<char>)
    requires
        all_pending(st.files),
    ensures
        step_spec(st, line) matches Ok(st2) ==> all_pending(st2.files),
{
    if let Ok(st2) = step_spec(st, line) {
        if st2.files.len() == st.files.len() + 1 {
            assert forall|i: int, j: int|
                0 <= i < st2.files.len() && 0 <= j < st2.files[i].hunks.len() implies #[trigger] st2.files[i].hunks[j].decision
                == HunkDecision::Pending by {
                if i < st.files.len() {
                    assert(st2.files[i] == st.files[i]);
                }
            }
        } else if st.files.len() > 0 {
            let last = st.files.len() - 1;
            assert forall|i: int, j: int|
                0 <= i < st2.files.len() && 0 <= j < st2.files[i].hunks.len() implies #[trigger] st2.files[i].hunks[j].decision
                == HunkDecision::Pending by {
                if i != last {
                    assert(st2.files[i] == st.files[i]);
                } else if j < st.files[last].hunks.len() {
                    assert(st.files[last].hunks[j].decision == HunkDecision::Pending);
                }
            }
        }
    }
}

proof fn lemma_prefix_pending(lines: Seq<Seq<char>>, k: int)
    ensures
        parse_prefix(lines, k) matches Ok(st) ==> all_pending(st.files),
    decreases k,
{
    if k > 0 {
        lemma_prefix_pending(lines, k - 1);
        if let Ok(st) = parse_prefix(lines, k - 1) {
            lemma_step_keeps_pending(st, lines[k - 1]);
        }
    }
}

/// A freshly parsed diff has every hunk pending review: nothing is accepted
/// until a decision is recorded.
pub proof fn law_parsed_hunks_pending(input: Seq<char>)
    ensures
        parse_diff_spec(input) matches Ok(files) ==> all_pending(files),
{
    let lines = lines_spec(input);
    lemma_prefix_pending(lines, lines.len() as int);
}

/// The path a `--- ` or `+++ ` header line names: the text after the
/// marker, trimmed, with its `a/` and `b/` prefixes removed.
pub open spec fn header_path(line: Seq<char>) -> Seq<char> {
    clean_path_spec(trim(line.subrange(4, line.len() as int)))
}

/// One of the first `k` lines is a header line starting with `marker` that names `path`.
pub open spec fn named_by_header(lines: Seq<Seq<char>>, k: int, marker: Seq<char>, path: Seq<char>) -> bool {
    exists|j: int| 0 <= j < k && #[trigger] starts_with(lines[j], marker) && header_path(lines[j]) == path
}

/// Every file's paths are named by header lines among the first `k` lines:
/// its new path by a `+++ ` line, its old path by a `--- ` line.
pub open spec fn paths_from_headers(lines: Seq<Seq<char>>, k: int, st: ParseState) -> bool {
    &&& forall|i: int|
        0 <= i < st.files.len() ==> named_by_header(lines, k, seq!['+', '+', '+', ' '], #[trigger] st.files[i].new_path)
    &&& forall|i: int|
        0 <= i < st.files.len() ==> named_by_header(lines, k, seq!['-', '-', '-', ' '], #[trigger] st.files[i].old_path)
    &&& st.pending_old matches Some(o) ==> named_by_header(lines, k, seq!['-', '-', '-', ' '], o)
}

proof fn lemma_named_grows(lines: Seq<Seq<char>>, k: int, marker: Seq<char>, path: Seq<char>)
    requires
        named_by_header(lines, k, marker, path),
    ensures
        named_by_header(lines, k + 1, marker, path),
{
    let j = choose|j: int| 0 <= j < k && #[trigger] starts_with(lines[j], marker) && header_path(lines[j]) == path;
    assert(0 <= j < k + 1 && starts_with(lines[j], marker) && header_path(lines[j]) == path);
}

proof fn lemma_prefix_paths(lines: Seq<Seq<char>>, k: int)
    requires
        0 <= k <= lines.len(),
    ensures
        parse_prefix(lines, k) matches Ok(st) ==> paths_from_headers(lines, k, st),
    decreases k,
{
    if k > 0 {
        lemma_prefix_paths(lines, k - 1);
        if let Ok(st) = parse_prefix(lines, k - 1) {
            let line = lines[k - 1];
            let plus = seq!['+', '+', '+', ' '];
            let minus = seq!['-', '-', '-', ' '];
            assert forall|i: int| 0 <= i < st.files.len() implies named_by_header(lines, k, plus, #[trigger] st.files[i].new_path)
                && named_by_header(lines, k, minus, st.files[i].old_path) by {
                lemma_named_grows(lines, k - 1, plus, st.files[i].new_path);
                lemma_named_grows(lines, k - 1, minus, st.files[i].old_path);
            }
            if let Some(o) = st.pending_old {
                lemma_named_grows(lines, k - 1, minus, o);
            }
            if let Ok(st2) = step_spec(st, line) {
                if starts_with(line, minus) {
                    assert(starts_with(lines[k - 1], minus));
                    assert(named_by_header(lines, k, minus, header_path(line)));
                } else if starts_with(line, plus) {
                    assert(starts_with(lines[k - 1], plus));
                    assert(named_by_header(lines, k, plus, header_path(line)));
                    assert forall|i: int| 0 <= i < st2.files.len() implies named_by_header(
                        lines,
                        k,
                        plus,
                        #[trigger] st2.files[i].new_path,
                    ) && named_by_header(lines, k, minus, st2.files[i].old_path) by {
                        if i < st.files.len() {
                            assert(st2.files[i] == st.files[i]);
                        }
                    }
                } else if st2.files.len() > 0 && st2.files.len() == st.files.len() {
                    assert forall|i: int| 0 <= i < st2.files.len() implies named_by_header(
                        lines,
                        k,
                        plus,
                        #[trigger] st2.files[i].new_path,
                    ) && named_by_header(lines, k, minus, st2.files[i].old_path) by {
                        assert(st2.files[i].new_path == st.files[i].new_path);
                        assert(st2.files[i].old_path == st.files[i].old_path);
                    }
                }
            }
        }
    }
}

/// Each parsed file's paths are those its own header lines name: the new
/// path that of a `+++ ` line, the old path that of a `--- ` line (both
/// trimmed, with `a/` and `b/` prefixes removed).
pub proof fn law_file_paths_come_from_headers(input: Seq<char>)
    ensures
        parse_diff_spec(input) matches Ok(files) ==> forall|i: int|
            0 <= i < files.len() ==> named_by_header(
                lines_spec(input),
                lines_spec(input).len() as int,
                seq!['+', '+', '+', ' '],
                #[trigger] files[i].new_path,
            ) && named_by_header(
                lines_spec(input),
                lines_spec(input).len() as int,
                seq!['-', '-', '-', ' '],
                files[i].old_path,
            ),
{
    let lines = lines_spec(input);
    lemma_prefix_paths(lines, lines.len() as int);
}

/// The result's abstract value.
pub open spec fn result_view(r: Result<DiffView, DiffParseError>) -> Result<Seq<FileModel>, ParseErr> {
    match r {
        Ok(v) => Ok(v@),
        Err(e) => Err(e@),
    }
}

fn clean_path(raw: &Vec<char>) -> (s: String)
    ensures
        s@ == clean_path_spec(raw@),
{
    let a_prefix = ['a', '/'];
    let b_prefix = ['b', '/'];
    assert(a_prefix@ =~= seq!['a', '/']);
    assert(b_prefix@ =~= seq!['b', '/']);
    let a = strip_all_from(raw, 0, a_prefix.as_slice());
    let b = strip_all_from(raw, a, b_prefix.as_slice());
    assert(raw@.subrange(0, raw@.len() as int) =~= raw@);
    chars_between(raw, b, raw.len())
}

/// The chars of `v` after the first `n`, trimmed.
fn trimmed_tail(v: &Vec<char>, n: usize) -> (t: Vec<char>)
    requires
        n <= v.len(),
    ensures
        t@ == trim(v@.subrange(n as int, v.len() as int)),
{
    let rest = copy_range(v, n, v.len());
    let (lo, hi) = trim_bounds(&rest);
    copy_range(&rest, lo, hi)
}

fn invalid_header(text: &Vec<char>) -> (e: DiffParseError)
    ensures
        e@ == ParseErr::InvalidHunkHeader(text@),
{
    DiffParseError::InvalidHunkHeader(string_from_chars(text.as_slice()))
}

fn parse_range(token: &Vec<char>, prefix: char) -> (r: Result<usize, DiffParseError>)
    ensures
        match r {
            Ok(n) => range_spec(token@, prefix) == Ok::<int, ParseErr>(n as int),
            Err(e) => range_spec(token@, prefix) == Err::<int, ParseErr>(e@),
        },
{
    if token.len() == 0 || token[0] != prefix {
        return Err(invalid_header(token));
    }
    let value = copy_range(token, 1, token.len());
    assert(value@ =~= token@.drop_first());
    let mut end: usize = 0;
    while end < value.len() && value[end] != ','
        invariant
            0 <= end <= value.len(),
            char_pos_from(value@, ',', 0) == char_pos_from(value@, ',', end as int),
        decreases value.len() - end,
    {
        end = end + 1;
    }
    let number = &value.as_slice()[0..end];
    match parse_usize(number) {
        Some(n) => Ok(n),
        None => Err(invalid_header(token)),
    }
}

fn parse_hunk_header(line: &Vec<char>) -> (r: Result<(usize, usize, String), DiffParseError>)
    ensures
        match r {
            Ok((o, n, h)) => hunk_header_spec(line@) == Ok::<(int, int, Seq<char>), ParseErr>(
                (o as int, n as int, h@),
            ),
            Err(e) => hunk_header_spec(line@) == Err::<(int, int, Seq<char>), ParseErr>(e@),
        },
{
    let (lo, hi) = trim_bounds(line);
    let trimmed = copy_range(line, lo, hi);
    let start = match find_double_at_exec(&trimmed, 0) {
        Some(i) => i,
        None => return Err(invalid_header(line)),
    };
    let rest = copy_range(&trimmed, start + 2, trimmed.len());
    let end = match find_double_at_exec(&rest, 0) {
        Some(i) => i,
        None => return Err(invalid_header(line)),
    };
    let body = copy_range(&rest, 0, end);
    let (blo, bhi) = trim_bounds(&body);
    let body_trimmed = copy_range(&body, blo, bhi);
    let parts = split_whitespace(&body_trimmed);
    if parts.len() < 2 {
        return Err(invalid_header(line));
    }
    assert(vv_view(parts@)[0] == parts@[0]@);
    assert(vv_view(parts@)[1] == parts@[1]@);
    let old_start = match parse_range(&parts[0], '-') {
        Ok(v) => v,
        Err(e) => return Err(e),
    };
    let new_start = match parse_range(&parts[1], '+') {
        Ok(v) => v,
        Err(e) => return Err(e),
    };
    Ok((old_start, new_start, string_from_chars(line.as_slice())))
}

fn parse_diff_line(line: &Vec<char>) -> (r: Option<(LineKind, String)>)
    ensures
        match r {
            Some((k, c)) => diff_line_spec(line@) == Some((k, c@)),
            None => diff_line_spec(line@) is None,
        },
{
    if line.len() == 0 {
        return None;
    }
    let prefix = line[0];
    let kind = if prefix == '+' {
        LineKind::Add
    } else if prefix == '-' {
        LineKind::Remove
    } else if prefix == ' ' {
        LineKind::Context
    } else {
        return None;
    };
    assert(line@.subrange(1, line@.len() as int) =~= line@.drop_first());
    Some((kind, chars_between(line, 1, line.len())))
}

proof fn lemma_parse_err_sticks(lines: Seq<Seq<char>>, j: int, m: int, e: ParseErr)
    requires
        0 <= j <= m,
        parse_prefix(lines, j) == Err::<ParseState, ParseErr>(e),
    ensures
        parse_prefix(lines, m) == Err::<ParseState, ParseErr>(e),
    decreases m - j,
{
    if j < m {
        lemma_parse_err_sticks(lines, j, m - 1, e);
    }
}

/// The abstract value of a list of files.
pub open spec fn files_view(files: Seq<DiffFile>) -> Seq<FileModel> {
    files.map_values(|f: DiffFile| f@)
}

/// Parses a unified diff: `---`/`+++` header pairs open files, `@@` lines open
/// hunks, and `+`, `-`, ` ` lines fill the current hunk.
pub fn parse_unified_diff(input: &str) -> (r: Result<DiffView, DiffParseError>)
    ensures
        result_view(r) == parse_diff_spec(input@),
{
    let chars = chars_of(input);
    let lines = split_lines(&chars);
    let ghost ls = lines_spec(input@);
    let mut files: Vec<DiffFile> = Vec::new();
    let mut pending_old: Option<String> = None;
    let minus = ['-', '-', '-', ' '];
    let plus = ['+', '+', '+', ' '];
    let at = ['@', '@'];
    assert(minus@ =~= seq!['-', '-', '-', ' ']);
    assert(plus@ =~= seq!['+', '+', '+', ' ']);
    assert(at@ =~= seq!['@', '@']);
    let mut k: usize = 0;
    assert(files_view(files@) =~= Seq::<FileModel>::empty());
    while k < lines.len()
        invariant
            0 <= k <= lines.len(),
            vv_view(lines@) == ls,
            ls == lines_spec(input@),
            minus@ == seq!['-', '-', '-', ' '],
            plus@ == seq!['+', '+', '+', ' '],
            at@ == seq!['@', '@'],
            parse_prefix(ls, k as int) == Ok::<ParseState, ParseErr>(
                ParseState { files: files_view(files@), pending_old: opt_view(pending_old) },
            ),
        decreases lines.len() - k,
    {
        let line = &lines[k];
        assert(ls[k as int] == line@);
        let ghost st = ParseState { files: files_view(files@), pending_old: opt_view(pending_old) };
        let ghost fv = files_view(files@);
        assert(parse_prefix(ls, k + 1) == step_spec(st, line@));
        if has_prefix(line.as_slice(), minus.as_slice()) {
            let t = trimmed_tail(line, 4);
            pending_old = Some(clean_path(&t));
        } else if has_prefix(line.as_slice(), plus.as_slice()) {
            let old = match pending_old {
                Some(o) => o,
                None => {
                    proof {
                        lemma_parse_err_sticks(ls, k + 1, ls.len() as int, ParseErr::MissingFileHeader);
                    }
                    return Err(DiffParseError::MissingFileHeader);
                },
            };
            pending_old = None;
            let t = trimmed_tail(line, 4);
            let f = DiffFile { old_path: old, new_path: clean_path(&t), hunks: Vec::new() };
            files.push(f);
            assert(f@.hunks =~= Seq::<HunkModel>::empty());
            assert(files_view(files@) =~= fv.push(f@));
        } else if has_prefix(line.as_slice(), at.as_slice()) {
            let (old_start, new_start, header) = match parse_hunk_header(line) {
                Ok(h) => h,
                Err(e) => {
                    proof {
                        lemma_parse_err_sticks(ls, k + 1, ls.len() as int, e@);
                    }
                    return Err(e);
                },
            };
            if files.len() == 0 {
                proof {
                    lemma_parse_err_sticks(ls, k + 1, ls.len() as int, ParseErr::MissingFileHeader);
                }
                return Err(DiffParseError::MissingFileHeader);
            }
            let mut f = files.pop().unwrap();
            assert(fv.last() == f@);
            let ghost fh = f@.hunks;
            let h = DiffHunk {
                header,
                old_start,
                new_start,
                lines: Vec::new(),
                decision: HunkDecision::Pending,
            };
            f.hunks.push(h);
            assert(h@.lines =~= Seq::<(LineKind, Seq<char>)>::empty());
            assert(f@.hunks =~= fh.push(h@));
            files.push(f);
            assert(files_view(files@) =~= with_last_file(fv, f@));
        } else if files.len() == 0 || files[files.len() - 1].hunks.len() == 0 {
            assert(files.len() > 0 ==> fv.last().hunks.len() == files@[files.len() - 1].hunks.len());
        } else {
            assert(fv.last().hunks.len() == files@[files.len() - 1].hunks.len());
            match parse_diff_line(line) {
                None => {},
                Some((kind, content)) => {
                    let mut f = files.pop().unwrap();
                    assert(fv.last() == f@);
                    let ghost fh = f@.hunks;
                    let mut h = f.hunks.pop().unwrap();
                    assert(fh.last() == h@);
                    let ghost hl = h@.lines;
                    let dl = DiffLine { kind, content };
                    h.lines.push(dl);
                    assert(h@.lines =~= hl.push(dl@));
                    f.hunks.push(h);
                    assert(f@.hunks =~= fh.update(fh.len() - 1, h@));
                    files.push(f);
                    assert(files_view(files@) =~= with_last_file(fv, f@));
                },
            }
        }
        k = k + 1;
    }
    if files.len() == 0 {
        return Err(DiffParseError::EmptyDiff);
    }
    Ok(DiffView { files })
}

} // verus!
