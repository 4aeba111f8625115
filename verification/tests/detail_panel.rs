use knotra_app::history::{OperationResult, ProjectOperationOutcome, ProjectOperationResult};
use knotra_app::model::{
    CommitEntry, ConflictStatus, ProjectStatus, RecentCommits, RemoteStatus, RepositoryIdentity,
    VcsKind, WorkingTreeStatus,
};
use knotra_app::state::detail_panel::{
    commits_section, conflict_label_key, recent_operations, CommitsSection, DetailPanelState,
    RecentCommitsPhase,
};

fn part(id: u128, success: bool) -> ProjectOperationResult {
    ProjectOperationResult {
        project_id: id,
        outcome: if success { ProjectOperationOutcome::Succeeded } else { ProjectOperationOutcome::Failed },
        success,
        skip_reason: None,
        commands_executed: Vec::new(),
        stdout: String::new(),
        stderr: String::new(),
        exit_code: None,
        error_message: None,
    }
}

fn log(parts: Vec<ProjectOperationResult>) -> OperationResult {
    OperationResult {
        per_project: parts,
        rollback_attempted: false,
        rollback_succeeded: None,
    }
}

#[test]
fn recent_operations_are_the_last_five_involving_the_project_newest_first() {
    let mut logs = Vec::new();
    for i in 0..8u128 {
        logs.push(log(vec![part(1, i % 2 == 0), part(2, true)]));
        logs.push(log(vec![part(3, true)]));
    }
    let recent = recent_operations(&logs, 1);
    assert_eq!(
        recent,
        vec![(14, false), (12, true), (10, false), (8, true), (6, false)]
    );
    assert_eq!(recent_operations(&logs, 9), Vec::new());
    assert_eq!(recent_operations(&logs[..3], 3), vec![(1, true)]);
}

#[test]
fn commits_section_shows_error_empty_list_or_loading() {
    let commits = |entries: usize, error: Option<&str>| RecentCommits {
        project_id: 5,
        entries: (0..entries)
            .map(|i| CommitEntry {
                hash: format!("{i:040}"),
                subject: "s".to_owned(),
                author: "a".to_owned(),
                date: 0,
            })
            .collect(),
        error: error.map(str::to_owned),
    };
    let loaded = |c| RecentCommitsPhase::Loaded { project_id: 5, commits: c };
    assert_eq!(commits_section(&loaded(commits(2, Some("bad"))), 5), CommitsSection::Error);
    assert_eq!(commits_section(&loaded(commits(0, None)), 5), CommitsSection::Empty);
    assert_eq!(commits_section(&loaded(commits(3, None)), 5), CommitsSection::List);
    assert_eq!(commits_section(&loaded(commits(3, None)), 6), CommitsSection::Loading);
    assert_eq!(commits_section(&RecentCommitsPhase::Loading(5), 5), CommitsSection::Loading);
    assert_eq!(commits_section(&RecentCommitsPhase::Idle, 5), CommitsSection::Loading);
    let panel = DetailPanelState::default();
    assert!(panel.open_project_id.is_none() && panel.commits_cached.is_empty());
}

#[test]
fn conflict_line_says_yes_unknown_or_no() {
    let mut s = ProjectStatus {
        project_id: 1,
        identity: RepositoryIdentity { path: "/r".to_owned(), vcs_kind: VcsKind::Git },
        context: None,
        remote: RemoteStatus::default(),
        working_tree: WorkingTreeStatus::default(),
        conflict: ConflictStatus::default(),
        read_error: None,
    };
    assert_eq!(conflict_label_key(&s), "detail.conflict_no");
    s.conflict.detection_unavailable = true;
    assert_eq!(conflict_label_key(&s), "detail.conflict_unknown");
    s.conflict.has_conflict = true;
    assert_eq!(conflict_label_key(&s), "detail.conflict_yes");
}
