use llm::diff::apply::{
    apply_file, file_contents, file_lines, has_accepted_hunk, hunks_overlap, plan_apply,
    resolve_target_path, DiffApplyError,
};
use llm::diff::parser::{parse_unified_diff, DiffParseError};
use llm::diff::types::{DiffFile, DiffHunk, DiffLine, DiffView, HunkDecision, LineKind};

fn lines(v: &[&str]) -> Vec<String> {
    v.iter().map(|s| s.to_string()).collect()
}

#[test]
fn parses_simple_diff() {
    let raw = "--- a/foo.txt\n+++ b/foo.txt\n@@ -1,2 +1,2 @@\n-old\n+new\n";
    let diff = parse_unified_diff(raw).unwrap();
    assert_eq!(diff.files.len(), 1);
    assert_eq!(diff.files[0].hunks.len(), 1);
}

#[test]
fn parsed_diff_fields() {
    let raw = "--- a/foo.txt\n+++ b/foo.txt\n@@ -3,2 +4,2 @@ fn x\n-old\n+new\n same\nnoise\n";
    let diff = parse_unified_diff(raw).unwrap();
    let file = &diff.files[0];
    assert_eq!(file.old_path, "foo.txt");
    assert_eq!(file.new_path, "foo.txt");
    let hunk = &file.hunks[0];
    assert_eq!(hunk.old_start, 3);
    assert_eq!(hunk.new_start, 4);
    assert_eq!(hunk.header, "@@ -3,2 +4,2 @@ fn x");
    assert_eq!(hunk.decision, HunkDecision::Pending);
    assert_eq!(hunk.lines.len(), 3);
    assert_eq!(hunk.lines[0].kind, LineKind::Remove);
    assert_eq!(hunk.lines[0].content, "old");
    assert_eq!(hunk.lines[1].kind, LineKind::Add);
    assert_eq!(hunk.lines[1].content, "new");
    assert_eq!(hunk.lines[2].kind, LineKind::Context);
    assert_eq!(hunk.lines[2].content, "same");
}

#[test]
fn parse_errors() {
    assert!(matches!(parse_unified_diff(""), Err(DiffParseError::EmptyDiff)));
    assert!(matches!(parse_unified_diff("just text\n"), Err(DiffParseError::EmptyDiff)));
    assert!(matches!(parse_unified_diff("+++ b/x\n"), Err(DiffParseError::MissingFileHeader)));
    assert!(matches!(parse_unified_diff("@@ -1 +1 @@\n"), Err(DiffParseError::MissingFileHeader)));
    match parse_unified_diff("--- a/x\n+++ b/x\n@@ bogus @@\n") {
        Err(DiffParseError::InvalidHunkHeader(text)) => assert_eq!(text, "@@ bogus @@"),
        _ => panic!("expected an invalid hunk header"),
    }
    match parse_unified_diff("--- a/x\n+++ b/x\n@@ x1 +1 @@\n") {
        Err(DiffParseError::InvalidHunkHeader(text)) => assert_eq!(text, "x1"),
        _ => panic!("expected an invalid hunk header"),
    }
}

fn one_hunk_file(old_start: usize, body: &[(LineKind, &str)], decision: HunkDecision) -> DiffFile {
    DiffFile {
        old_path: "f.txt".to_string(),
        new_path: "f.txt".to_string(),
        hunks: vec![DiffHunk {
            header: "@@".to_string(),
            old_start,
            new_start: old_start,
            lines: body
                .iter()
                .map(|(k, c)| DiffLine { kind: *k, content: c.to_string() })
                .collect(),
            decision,
        }],
    }
}

#[test]
fn applies_accepted_hunk() {
    let file = one_hunk_file(
        2,
        &[(LineKind::Context, "b"), (LineKind::Remove, "c"), (LineKind::Add, "C")],
        HunkDecision::Accepted,
    );
    let original = lines(&["a", "b", "c", "d"]);
    assert!(!hunks_overlap(&file, &original));
    let out = apply_file(&file, &original).unwrap();
    assert_eq!(out, lines(&["a", "b", "C", "d"]));
}

#[test]
fn mismatch_is_reported() {
    let file = one_hunk_file(1, &[(LineKind::Remove, "x")], HunkDecision::Accepted);
    let original = lines(&["y"]);
    assert!(matches!(apply_file(&file, &original), Err(DiffApplyError::ContextMismatch)));
    let past_end = one_hunk_file(5, &[(LineKind::Add, "z")], HunkDecision::Accepted);
    assert!(matches!(apply_file(&past_end, &original), Err(DiffApplyError::ContextMismatch)));
}

#[test]
fn pending_hunks_leave_lines_unchanged() {
    let file = one_hunk_file(1, &[(LineKind::Remove, "a"), (LineKind::Add, "b")], HunkDecision::Rejected);
    let original = lines(&["a", "z"]);
    assert_eq!(apply_file(&file, &original).unwrap(), original);
    assert!(!has_accepted_hunk(&file));
}

#[test]
fn overlapping_hunks_are_detected() {
    let mut file = one_hunk_file(1, &[(LineKind::Context, "a"), (LineKind::Context, "b")], HunkDecision::Accepted);
    let second = file.hunks[0].clone();
    file.hunks.push(second);
    let original = lines(&["a", "b"]);
    assert!(hunks_overlap(&file, &original));
}

#[test]
fn set_decision_changes_only_the_decision() {
    let mut file = one_hunk_file(1, &[(LineKind::Add, "x")], HunkDecision::Pending);
    file.hunks[0].set_decision(HunkDecision::Accepted);
    assert_eq!(file.hunks[0].decision, HunkDecision::Accepted);
    assert_eq!(file.hunks[0].old_start, 1);
    assert!(has_accepted_hunk(&file));
}

#[test]
fn plans_only_files_with_accepted_hunks() {
    let view = DiffView {
        files: vec![
            one_hunk_file(1, &[(LineKind::Add, "x")], HunkDecision::Skipped),
            one_hunk_file(1, &[(LineKind::Add, "y")], HunkDecision::Accepted),
        ],
    };
    assert_eq!(plan_apply(&view).unwrap(), vec![1]);
    let none = DiffView::default();
    assert!(matches!(plan_apply(&none), Err(DiffApplyError::NothingToApply)));
}

#[test]
fn target_paths() {
    let mut file = one_hunk_file(1, &[], HunkDecision::Accepted);
    assert_eq!(resolve_target_path(&file).unwrap(), "f.txt");
    file.new_path = "/dev/null".to_string();
    file.old_path = "gone.txt".to_string();
    assert_eq!(resolve_target_path(&file).unwrap(), "gone.txt");
    file.old_path = "/dev/null".to_string();
    assert!(matches!(resolve_target_path(&file), Err(DiffApplyError::MissingFile)));
    file.new_path = "../etc/passwd".to_string();
    match resolve_target_path(&file) {
        Err(DiffApplyError::InvalidPath(p)) => assert_eq!(p, "../etc/passwd"),
        _ => panic!("expected an invalid path"),
    }
    file.new_path = "/etc/passwd".to_string();
    assert!(matches!(resolve_target_path(&file), Err(DiffApplyError::InvalidPath(_))));
    file.new_path = "a/..b/c".to_string();
    assert_eq!(resolve_target_path(&file).unwrap(), "a/..b/c");
}

#[test]
fn reads_lines_as_str_lines_does() {
    let (l, nl) = file_lines("a\r\nb\n\nc");
    assert_eq!(l, lines(&["a", "b", "", "c"]));
    assert!(!nl);
    let (l2, nl2) = file_lines("x\n");
    assert_eq!(l2, lines(&["x"]));
    assert!(nl2);
    let (l3, nl3) = file_lines("");
    assert!(l3.is_empty());
    assert!(!nl3);
}

#[test]
fn lines_round_trip() {
    for text in ["", "x", "x\n", "a\n\nb", "a\n\n", "\n"] {
        let (l, nl) = file_lines(text);
        assert_eq!(file_contents(&l, nl), text);
    }
    assert_eq!(file_contents(&lines(&["a", "b"]), true), "a\nb\n");
    assert_eq!(file_contents(&lines(&["a", "b"]), false), "a\nb");
}
