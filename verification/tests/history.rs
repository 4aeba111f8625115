use knotra_app::history::{
    export_text, summarise_status, OperationResult, ProjectOperationOutcome, ProjectOperationResult,
};
use knotra_app::history::ProjectOperationOutcome::{Failed, Skipped, Succeeded};

fn project(id: u128, outcome: ProjectOperationOutcome) -> ProjectOperationResult {
    ProjectOperationResult {
        project_id: id,
        outcome,
        success: outcome != ProjectOperationOutcome::Failed,
        skip_reason: None,
        commands_executed: Vec::new(),
        stdout: String::new(),
        stderr: String::new(),
        exit_code: None,
        error_message: None,
    }
}

fn result(
    per_project: Vec<ProjectOperationResult>,
    rollback_attempted: bool,
    rollback_succeeded: Option<bool>,
) -> OperationResult {
    OperationResult {
        per_project,
        rollback_attempted,
        rollback_succeeded,
    }
}

#[test]
fn every_status_arm_pairs_its_key_with_its_english_label() {
    let cases = vec![
        (result(vec![project(1, Succeeded)], true, Some(true)), "↩", "history.rollback_note", "Rolled back"),
        (result(vec![project(1, Succeeded)], true, Some(false)), "✗", "history.status_rollback_failed", "Rollback failed"),
        (result(vec![project(1, Succeeded)], true, None), "✗", "history.status_rollback_failed", "Rollback failed"),
        (result(vec![project(1, Succeeded)], false, None), "✓", "history.status_success", "Success"),
        (result(vec![project(1, Succeeded), project(2, Failed)], false, None), "⚠", "history.status_partial", "Partial"),
        (result(vec![project(1, Skipped), project(2, Failed)], false, None), "⚠", "history.status_partial", "Partial"),
        (result(vec![project(1, Skipped)], false, None), "-", "history.status_skipped", "Skipped"),
        (result(vec![project(1, Skipped), project(2, Succeeded)], false, None), "-", "history.status_skipped", "Skipped"),
        (result(vec![project(1, Failed)], false, None), "✗", "history.status_failed", "Failed"),
        (result(Vec::new(), false, None), "✗", "history.status_failed", "Failed"),
    ];
    for (r, glyph, key, en) in cases {
        let summary = summarise_status(&r);
        assert_eq!((summary.glyph, summary.label_key, summary.label_en), (glyph, key, en));
    }
}

#[test]
fn outcome_counts_cover_every_project() {
    let r = result(
        vec![project(1, Succeeded), project(2, Skipped), project(3, Succeeded), project(4, Failed)],
        false,
        None,
    );
    assert_eq!(r.succeeded_count(), 2);
    assert_eq!(r.failed_count(), 1);
    assert_eq!(r.skipped_count(), 1);
}

fn with_commands(mut p: ProjectOperationResult, commands: &[&str]) -> ProjectOperationResult {
    p.commands_executed = commands.iter().map(|c| c.to_string()).collect();
    p
}

#[test]
fn export_text_reports_a_successful_entry_in_english() {
    let id = 0x1234u128;
    let r = result(vec![with_commands(project(id, Succeeded), &["git fetch"])], false, None);
    let text = export_text(&r, "Fetch", "2024-01-02 03:04:05 UTC");
    assert!(text.starts_with("# Fetch — "), "expected an English kind label, got: {text}");
    assert!(text.contains("✓ Success"), "expected the fixed English status label, got: {text}");
    assert!(
        text.contains("00000000-0000-0000-0000-000000001234 [ok]"),
        "expected the project id with its outcome tag, got: {text}"
    );
    assert!(text.contains("$ git fetch"), "expected the executed command, got: {text}");
}

#[test]
fn export_text_emits_the_skip_reason_code_verbatim() {
    let mut skipped = project(7, Skipped);
    skipped.skip_reason = Some("retry:not_in_active_workspace".to_owned());
    let r = result(vec![skipped], false, None);
    let text = export_text(&r, "Fetch", "t");
    assert!(
        text.contains("retry:not_in_active_workspace"),
        "expected the raw code verbatim, got: {text}"
    );
}

#[test]
fn export_text_includes_stderr_lines() {
    let mut failed = project(9, Failed);
    failed.stderr = "fatal: could not read remote\nauthentication failed".to_owned();
    failed.error_message = Some("fatal: could not read remote".to_owned());
    let r = result(vec![failed], false, None);
    let text = export_text(&r, "Fetch", "t");
    assert!(text.contains("fatal: could not read remote"), "got: {text}");
    assert!(text.contains("authentication failed"), "got: {text}");
    assert!(text.contains("[FAILED]"), "got: {text}");
}

#[test]
fn export_text_has_an_exact_layout_and_caps_error_output_at_five_lines() {
    let mut failed = with_commands(project(1, Failed), &["git pull", "git status"]);
    failed.stderr = "l1\r\nl2\nl3\nl4\nl5\nl6\n".to_owned();
    let r = result(vec![failed, project(2, Succeeded)], false, None);
    let text = export_text(&r, "Pull", "T");
    let expected = [
        "# Pull — T — ⚠ Partial",
        "  00000000-0000-0000-0000-000000000001 [FAILED]",
        "    $ git pull",
        "    $ git status",
        "    l1",
        "    l2",
        "    l3",
        "    l4",
        "    l5",
        "  00000000-0000-0000-0000-000000000002 [ok]",
    ]
    .join("\n");
    assert_eq!(text, expected);
}

#[test]
fn lines_follow_str_lines() {
    for s in ["", "a", "a\n", "a\r\nb\n\nc", "\n\n", "x\ry\r\n", "\r", "a\r", "\r\n", "a\n\r"] {
        let expected: Vec<String> = s.lines().map(str::to_owned).collect();
        assert_eq!(knotra_app::text::lines_of(s), expected, "{s:?}");
    }
}

use knotra_app::history::log_matches_search;

#[test]
fn history_search_matches_kind_ids_and_output_case_insensitively() {
    let mut p = project(0xabc, Failed);
    p.stdout = "Fetching ORIGIN".to_owned();
    p.stderr = "fatal: Permission denied".to_owned();
    let parts = vec![p];
    assert!(log_matches_search("", "Check for updates", &parts));
    assert!(log_matches_search("UPDATES", "Check for updates", &parts));
    assert!(log_matches_search("0abc", "x", &parts));
    assert!(log_matches_search("origin", "x", &parts));
    assert!(log_matches_search("PERMISSION", "x", &parts));
    assert!(!log_matches_search("nothing", "x", &parts));
    assert!(!log_matches_search("x y", "x", &[]));
}
