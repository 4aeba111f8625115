use knotra_app::model::{
    ConflictStatus, ProjectStatus, RemoteStatus, RepositoryIdentity, VcsContext, VcsKind,
    WorkingTreeStatus,
};
use knotra_app::state::tier::{compute_tier, AttentionCause};
use knotra_app::state::AttentionTier;

fn status_on(label: &str) -> ProjectStatus {
    ProjectStatus {
        project_id: 1,
        identity: RepositoryIdentity {
            path: "/r".to_owned(),
            vcs_kind: VcsKind::Git,
        },
        context: Some(VcsContext {
            label: label.to_owned(),
            branch: Some(label.to_owned()),
            jj_change_id: None,
            jj_bookmark: None,
            is_detached: false,
        }),
        remote: RemoteStatus::default(),
        working_tree: WorkingTreeStatus::default(),
        conflict: ConflictStatus::default(),
        read_error: None,
    }
}

#[test]
fn tier_rules_apply_in_priority_order() {
    let mut s = status_on("(HEAD detached at abc)");
    s.conflict.has_conflict = true;
    s.read_error = Some("boom".to_owned());
    assert_eq!(
        compute_tier(Some(&s), false),
        (AttentionTier::NeedsAttention, Some(AttentionCause::PathNotFound))
    );
    assert_eq!(
        compute_tier(Some(&s), true),
        (AttentionTier::NeedsAttention, Some(AttentionCause::Conflict))
    );
    s.conflict.has_conflict = false;
    assert_eq!(
        compute_tier(Some(&s), true),
        (AttentionTier::NeedsAttention, Some(AttentionCause::DetachedHead))
    );
    s.context.as_mut().expect("context").label = "main".to_owned();
    assert_eq!(
        compute_tier(Some(&s), true),
        (AttentionTier::NeedsAttention, Some(AttentionCause::OperationFailed))
    );
    assert_eq!(
        compute_tier(None, true),
        (AttentionTier::NeedsAttention, None)
    );
}

#[test]
fn default_branches_are_clean_and_others_are_active() {
    for label in ["main", "master", "trunk", ""] {
        assert_eq!(
            compute_tier(Some(&status_on(label)), true),
            (AttentionTier::Clean, None)
        );
    }
    assert_eq!(
        compute_tier(Some(&status_on("feature/x")), true),
        (AttentionTier::Active, None)
    );
    let mut behind = status_on("main");
    behind.remote.behind = 1;
    assert_eq!(compute_tier(Some(&behind), true), (AttentionTier::Active, None));
    let mut detection = status_on("main");
    detection.conflict.detection_unavailable = true;
    assert_eq!(
        compute_tier(Some(&detection), true),
        (
            AttentionTier::NeedsAttention,
            Some(AttentionCause::ConflictDetectionUnavailable)
        )
    );
}

#[test]
fn a_detached_label_outranks_a_read_error() {
    let mut s = status_on("(HEAD detached at abc)");
    s.read_error = Some("read failed".to_owned());
    assert_eq!(
        compute_tier(Some(&s), true),
        (AttentionTier::NeedsAttention, Some(AttentionCause::DetachedHead))
    );
}
