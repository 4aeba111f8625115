//! Conflict resolution screen state.

use std::collections::HashMap;

use vstd::prelude::*;

use crate::model::{find_status, lemma_status_position_bounds, status_position, ProjectConflictDetail, VcsKind, WorkspaceStatus};
use crate::state::dashboard::statuses_of;

verus! {

/// The phase of conflict resolution.
#[derive(Debug, Clone)]
pub enum ConflictPhase {
    Idle,
    /// Loading the conflicted files of one project.
    Loading(u128),
    /// Showing the files and actions of one project.
    Browsing { project_id: u128, detail: ProjectConflictDetail },
    /// A mark-resolved or abort operation is running.
    Operating { project_id: u128, action: String },
    /// The operation finished.
    Done { project_id: u128, success: bool, message: String },
}

/// The conflict resolution screen: its phase and the details fetched so far.
#[derive(Debug)]
pub struct ConflictOpsState {
    pub phase: ConflictPhase,
    pub cached: HashMap<u128, ProjectConflictDetail>,
}

impl Default for ConflictOpsState {
    fn default() -> (s: Self)
        ensures
            s.phase is Idle,
            s.cached@ == Map::<u128, ProjectConflictDetail>::empty(),
    {
        ConflictOpsState { phase: ConflictPhase::Idle, cached: HashMap::new() }
    }
}

/// The conflict panel can be closed unless an operation is running.
pub fn conflict_panel_closable(phase: &ConflictPhase) -> (r: bool)
    ensures
        r == !(*phase is Operating),
{
    match phase {
        ConflictPhase::Operating { .. } => false,
        _ => true,
    }
}

/// Which resolution actions a project offers: marking files resolved for a
/// Git project, and aborting for a Git project in the middle of a merge.
#[derive(Debug, Clone, Copy, PartialEq, Eq, Structural)]
pub struct ConflictActions {
    pub mark_resolved: bool,
    pub abort: bool,
}

pub fn conflict_actions(vcs_kind: Option<VcsKind>, has_merge_state: bool) -> (r: ConflictActions)
    ensures
        r.mark_resolved == (vcs_kind == Some(VcsKind::Git)),
        r.abort == (vcs_kind == Some(VcsKind::Git) && has_merge_state),
{
    let git = match vcs_kind {
        Some(VcsKind::Git) => true,
        _ => false,
    };
    ConflictActions { mark_resolved: git, abort: git && has_merge_state }
}

/// The completing command of a Jujutsu conflict row: the localized lead-in,
/// then `jj resolve` with the row's own path, in backquotes.
pub fn jj_finish_hint(lead_in: &str, file_path: &str) -> (r: String)
    ensures
        r@ == lead_in@ + " `jj resolve "@ + file_path@ + "`"@,
{
    let mut s = String::from_str(lead_in);
    s.append(" `jj resolve ");
    s.append(file_path);
    s.append("`");
    s
}

/// What the third slot of a conflicted-file row holds: the mark-resolved
/// button for Git, the `jj resolve` hint for Jujutsu, and a generic note when
/// the system is not known.
#[derive(Debug, Clone, Copy, PartialEq, Eq, Structural)]
pub enum ThirdSlot {
    MarkResolvedButton,
    JjFinishHint,
    UnsupportedNote,
}

pub fn third_slot_for(vcs_kind: Option<VcsKind>) -> (r: ThirdSlot)
    ensures
        r == match vcs_kind {
            Some(VcsKind::Git) => ThirdSlot::MarkResolvedButton,
            Some(VcsKind::Jujutsu) => ThirdSlot::JjFinishHint,
            None => ThirdSlot::UnsupportedNote,
        },
{
    match vcs_kind {
        Some(VcsKind::Git) => ThirdSlot::MarkResolvedButton,
        Some(VcsKind::Jujutsu) => ThirdSlot::JjFinishHint,
        None => ThirdSlot::UnsupportedNote,
    }
}

/// The version-control system the first status of project `id` reports,
/// if it has one.
pub open spec fn spec_status_vcs_kind(statuses: Seq<crate::model::ProjectStatus>, id: u128) -> Option<VcsKind> {
    match status_position(statuses, id) {
        Some(j) => Some(statuses[j].identity.vcs_kind),
        None => None,
    }
}

pub fn status_vcs_kind(workspace_status: Option<&WorkspaceStatus>, id: u128) -> (r: Option<VcsKind>)
    ensures
        r == spec_status_vcs_kind(statuses_of(workspace_status), id),
{
    match workspace_status {
        Some(ws) => {
            let pos = find_status(ws.projects.as_slice(), id);
            proof {
                lemma_status_position_bounds(ws.projects@, id);
            }
            match pos {
                Some(j) => Some(ws.projects[j].identity.vcs_kind),
                None => None,
            }
        },
        None => None,
    }
}

/// The system a repository's markers show: a `.jj` directory means
/// Jujutsu (also when colocated with Git), else a `.git` entry means Git,
/// else nothing can be told.
pub fn vcs_kind_from_markers(jj_dir: bool, git_entry: bool) -> (r: Option<VcsKind>)
    ensures
        r == if jj_dir {
            Some(VcsKind::Jujutsu)
        } else if git_entry {
            Some(VcsKind::Git)
        } else {
            None::<VcsKind>
        },
{
    if jj_dir {
        Some(VcsKind::Jujutsu)
    } else if git_entry {
        Some(VcsKind::Git)
    } else {
        None
    }
}

} // verus!
