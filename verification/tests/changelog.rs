use knotra_app::state::changelog::{ChangelogPhase, ChangelogState};

#[test]
fn not_ready_without_since_ref() {
    let ids = vec![1u128];
    let mut s = ChangelogState::default();
    s.init_selection(&ids);
    assert!(!s.is_ready_to_collect());
}

#[test]
fn ready_with_since_ref_and_selection() {
    let ids = vec![1u128];
    let mut s = ChangelogState::default();
    s.init_selection(&ids);
    s.since_ref = "v1.0.0".to_owned();
    assert!(s.is_ready_to_collect());
}

#[test]
fn not_ready_when_all_deselected() {
    let id = 7u128;
    let mut s = ChangelogState::default();
    s.init_selection(std::slice::from_ref(&id));
    s.since_ref = "v1.0.0".to_owned();
    s.project_selection.insert(id, false);
    assert!(!s.is_ready_to_collect());
}

#[test]
fn begin_collection_sets_latest_request_id() {
    let mut s = ChangelogState::default();
    let first = s.begin_collection();
    let second = s.begin_collection();
    assert_ne!(first, second);
    assert_eq!(s.active_request_id, Some(second));
    assert!(matches!(s.phase, ChangelogPhase::Collecting));
}

#[test]
fn invalidate_collection_clears_active_request_id() {
    let mut s = ChangelogState::default();
    s.begin_collection();
    s.invalidate_collection();
    assert_eq!(s.active_request_id, None);
}

#[test]
fn blank_since_ref_is_not_ready_and_request_ids_count_up_from_one() {
    let mut s = ChangelogState::default();
    s.init_selection(&[1, 2]);
    s.since_ref = " \t ".to_owned();
    assert!(!s.is_ready_to_collect());
    assert_eq!(s.begin_collection(), 1);
    assert_eq!(s.begin_collection(), 2);
    let mut selected = s.selected_ids();
    selected.sort();
    assert_eq!(selected, vec![1, 2]);
}

#[test]
fn request_counter_counts_up_from_one() {
    let mut c = knotra_app::state::changelog::RequestCounter::new();
    assert_eq!(c.advance(), 1);
    assert_eq!(c.advance(), 2);
}

use knotra_app::model::{ChangelogDraft, CommitEntry, ProjectCommits};
use knotra_app::state::changelog::{changelog_notice_key, changelog_result_counts};

fn make_commit(hash: &str, subject: &str) -> CommitEntry {
    CommitEntry {
        hash: hash.to_owned(),
        subject: subject.to_owned(),
        author: "Maintainer".to_owned(),
        date: 0,
    }
}

fn commits(id: u128, name: &str, entries: Vec<CommitEntry>, error: Option<&str>) -> ProjectCommits {
    ProjectCommits {
        project_id: id,
        project_name: name.to_owned(),
        since_ref: "v1.1.0".to_owned(),
        entries,
        error: error.map(str::to_owned),
    }
}

#[test]
fn changelog_result_counts_include_no_change_and_error_projects() {
    let draft = ChangelogDraft {
        release_name: "v1.2.0".to_owned(),
        generated_at: 0,
        projects: vec![
            commits(1, "ok", vec![make_commit("abcdef123456", "Add notes")], None),
            commits(2, "empty", Vec::new(), None),
            commits(3, "failed", Vec::new(), Some("bad ref")),
        ],
    };

    let counts = changelog_result_counts(&draft);

    assert_eq!(counts.total_commits, 1);
    assert_eq!(counts.projects_with_commits, 1);
    assert_eq!(counts.projects_without_changes, 1);
    assert_eq!(counts.projects_with_errors, 1);
    assert_eq!(changelog_notice_key(&draft, &counts), "plain.changelog.some_failed");
}

#[test]
fn changelog_notice_distinguishes_all_failed_no_changes_and_ready() {
    let all_failed = ChangelogDraft {
        release_name: "r".to_owned(),
        generated_at: 0,
        projects: vec![commits(1, "a", Vec::new(), Some("x")), commits(2, "b", Vec::new(), Some("y"))],
    };
    let counts = changelog_result_counts(&all_failed);
    assert_eq!(changelog_notice_key(&all_failed, &counts), "plain.changelog.all_failed");

    let quiet = ChangelogDraft {
        release_name: "r".to_owned(),
        generated_at: 0,
        projects: vec![commits(1, "a", Vec::new(), None)],
    };
    let counts = changelog_result_counts(&quiet);
    assert_eq!(changelog_notice_key(&quiet, &counts), "plain.changelog.no_changes_found");

    let busy = ChangelogDraft {
        release_name: "r".to_owned(),
        generated_at: 0,
        projects: vec![commits(
            1,
            "a",
            vec![make_commit("1", "one"), make_commit("2", "two")],
            None,
        )],
    };
    let counts = changelog_result_counts(&busy);
    assert_eq!(counts.total_commits, 2);
    assert_eq!(busy.total_commits(), 2);
    assert_eq!(changelog_notice_key(&busy, &counts), "plain.changelog.ready");

    let nothing = ChangelogDraft {
        release_name: "r".to_owned(),
        generated_at: 0,
        projects: Vec::new(),
    };
    let counts = changelog_result_counts(&nothing);
    assert_eq!(changelog_notice_key(&nothing, &counts), "plain.changelog.no_changes_found");
}
