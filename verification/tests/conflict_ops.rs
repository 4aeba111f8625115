use knotra_app::model::{ConflictMarker, ConflictedFile, ProjectConflictDetail};
use knotra_app::state::conflict_ops::{ConflictOpsState, ConflictPhase};

#[test]
fn conflict_detail_resolved_when_no_files() {
    let detail = ProjectConflictDetail {
        project_id: 1,
        project_name: "svc".to_owned(),
        conflicted_files: vec![],
        note: None,
        read_error: None,
    };
    assert!(detail.is_resolved());
}

#[test]
fn conflict_detail_not_resolved_with_files() {
    let detail = ProjectConflictDetail {
        project_id: 1,
        project_name: "svc".to_owned(),
        conflicted_files: vec![ConflictedFile {
            path: "src/lib.rs".to_owned(),
            marker: ConflictMarker::BothModified,
        }],
        note: None,
        read_error: None,
    };
    assert!(!detail.is_resolved());
    assert_eq!(detail.file_count(), 1);
}

#[test]
fn conflict_screen_starts_idle_with_nothing_cached() {
    let state = ConflictOpsState::default();
    assert!(matches!(state.phase, ConflictPhase::Idle));
    assert!(state.cached.is_empty());
}

use knotra_app::model::VcsKind;
use knotra_app::state::conflict_ops::{conflict_actions, conflict_panel_closable};

#[test]
fn conflict_panel_stays_open_while_operating() {
    assert!(conflict_panel_closable(&ConflictPhase::Idle));
    assert!(!conflict_panel_closable(&ConflictPhase::Operating {
        project_id: 1,
        action: "abort".to_owned(),
    }));
    assert!(conflict_panel_closable(&ConflictPhase::Done {
        project_id: 1,
        success: true,
        message: String::new(),
    }));
}

#[test]
fn only_git_projects_offer_resolution_actions() {
    let git = conflict_actions(Some(VcsKind::Git), true);
    assert!(git.mark_resolved && git.abort);
    let git_no_merge = conflict_actions(Some(VcsKind::Git), false);
    assert!(git_no_merge.mark_resolved && !git_no_merge.abort);
    let jj = conflict_actions(Some(VcsKind::Jujutsu), true);
    assert!(!jj.mark_resolved && !jj.abort);
    let unknown = conflict_actions(None, true);
    assert!(!unknown.mark_resolved && !unknown.abort);
}

use knotra_app::state::conflict_ops::{jj_finish_hint, third_slot_for, ThirdSlot};

#[test]
fn jj_finish_hint_names_the_command_with_the_files_path() {
    let hint = jj_finish_hint("Finish with:", "src/lib.rs");
    assert_eq!(hint, "Finish with: `jj resolve src/lib.rs`");
}

#[test]
fn third_slot_is_a_button_for_git_and_prose_for_jujutsu_and_none() {
    assert_eq!(third_slot_for(Some(VcsKind::Git)), ThirdSlot::MarkResolvedButton);
    assert_eq!(third_slot_for(Some(VcsKind::Jujutsu)), ThirdSlot::JjFinishHint);
    assert_eq!(third_slot_for(None), ThirdSlot::UnsupportedNote);
}

use knotra_app::model::{
    ConflictStatus, ProjectStatus, RemoteStatus, RepositoryIdentity, WorkingTreeStatus,
    WorkspaceStatus,
};
use knotra_app::state::conflict_ops::{status_vcs_kind, vcs_kind_from_markers};

fn status_of(id: u128, kind: VcsKind) -> ProjectStatus {
    ProjectStatus {
        project_id: id,
        identity: RepositoryIdentity {
            path: "/r".to_owned(),
            vcs_kind: kind,
        },
        context: None,
        remote: RemoteStatus::default(),
        working_tree: WorkingTreeStatus::default(),
        conflict: ConflictStatus::default(),
        read_error: None,
    }
}

#[test]
fn vcs_kind_comes_from_the_status_else_from_the_markers() {
    let ws = WorkspaceStatus {
        projects: vec![status_of(1, VcsKind::Jujutsu), status_of(2, VcsKind::Git)],
    };
    assert_eq!(status_vcs_kind(Some(&ws), 1), Some(VcsKind::Jujutsu));
    assert_eq!(status_vcs_kind(Some(&ws), 2), Some(VcsKind::Git));
    assert_eq!(status_vcs_kind(Some(&ws), 3), None);
    assert_eq!(status_vcs_kind(None, 1), None);
    assert_eq!(vcs_kind_from_markers(true, true), Some(VcsKind::Jujutsu));
    assert_eq!(vcs_kind_from_markers(false, true), Some(VcsKind::Git));
    assert_eq!(vcs_kind_from_markers(false, false), None);
}
