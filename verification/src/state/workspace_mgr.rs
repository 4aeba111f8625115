//! Multi-workspace management: name validation and the active index after a delete.

use vstd::prelude::*;

use crate::model::Workspace;
use crate::text::{chars_of, compare_chars, lemma_lex_order_zero, folded, to_lowercase, trim, trimmed};

verus! {

/// The workspace switcher and its dialogs.
#[derive(Debug)]
pub struct WorkspaceMgrState {
    pub create_dialog: Option<CreateWorkspaceDialog>,
    pub rename_dialog: Option<RenameWorkspaceDialog>,
    pub confirm_delete: Option<DeleteWorkspaceDialog>,
    /// The switcher drop-down is open.
    pub switcher_open: bool,
}

impl Default for WorkspaceMgrState {
    fn default() -> (s: Self)
        ensures
            s.create_dialog is None,
            s.rename_dialog is None,
            s.confirm_delete is None,
            !s.switcher_open,
    {
        WorkspaceMgrState { create_dialog: None, rename_dialog: None, confirm_delete: None, switcher_open: false }
    }
}

/// The create-workspace dialog.
#[derive(Debug, Clone)]
pub struct CreateWorkspaceDialog {
    pub name: String,
    pub error: Option<String>,
}

impl Default for CreateWorkspaceDialog {
    fn default() -> (d: Self)
        ensures
            d.name@.len() == 0,
            d.error is None,
    {
        CreateWorkspaceDialog { name: String::new(), error: None }
    }
}

/// The rename-workspace dialog.
#[derive(Debug, Clone)]
pub struct RenameWorkspaceDialog {
    pub new_name: String,
    pub error: Option<String>,
}

/// The delete-workspace confirmation.
#[derive(Debug, Clone)]
pub struct DeleteWorkspaceDialog {
    pub workspace_id: u128,
    pub workspace_name: String,
    pub project_count: usize,
    pub error: Option<String>,
}

/// Why a candidate workspace name was refused.
#[derive(Debug, Clone, Copy, PartialEq, Eq, Structural)]
pub enum WorkspaceNameError {
    Empty,
    Duplicate,
}

impl WorkspaceNameError {
    /// The catalog key of the message shown for this error.
    pub fn i18n_key(self) -> (key: &'static str)
        ensures
            key@ == (match self {
                WorkspaceNameError::Empty => "workspace.error.empty_name"@,
                WorkspaceNameError::Duplicate => "workspace.error.duplicate_name"@,
            }),
    {
        match self {
            WorkspaceNameError::Empty => "workspace.error.empty_name",
            WorkspaceNameError::Duplicate => "workspace.error.duplicate_name",
        }
    }
}

/// The active index once the active workspace, one of `len_before_delete`, is removed.
pub open spec fn spec_next_active_index(active_idx: int, len_before_delete: int) -> int {
    if active_idx >= len_before_delete - 1 {
        if active_idx > 0 { active_idx - 1 } else { 0 }
    } else {
        active_idx
    }
}

/// After deleting the active workspace, the index of the nearest remaining one:
/// the same index unless the active workspace was the last, then the one before it.
pub fn next_active_index_after_delete(active_idx: usize, len_before_delete: usize) -> (r: usize)
    requires
        len_before_delete > 1,
    ensures
        r == spec_next_active_index(active_idx as int, len_before_delete as int),
        active_idx < len_before_delete ==> r < len_before_delete - 1,
{
    if active_idx >= len_before_delete - 1 {
        active_idx.saturating_sub(1)
    } else {
        active_idx
    }
}


/// Some workspace other than `current_id` has this name, trimmed and lower-cased.
pub open spec fn name_taken(workspaces: Seq<Workspace>, current_id: Option<u128>, wanted: Seq<char>) -> bool {
    exists|i: int|
        0 <= i < workspaces.len() && current_id != Some(workspaces[i].id) && folded(
            trimmed(#[trigger] workspaces[i].name@),
        ) == wanted
}

/// A workspace name is the candidate trimmed; it must not be empty, and no
/// other workspace may have the same name up to case and surrounding space.
pub open spec fn spec_validate_name(candidate: Seq<char>, workspaces: Seq<Workspace>, current_id: Option<u128>) -> Result<
    Seq<char>,
    WorkspaceNameError,
> {
    let t = trimmed(candidate);
    if t.len() == 0 {
        Err(WorkspaceNameError::Empty)
    } else if name_taken(workspaces, current_id, folded(t)) {
        Err(WorkspaceNameError::Duplicate)
    } else {
        Ok(t)
    }
}

/// A name that is empty or only whitespace is refused as empty. A name that,
/// trimmed and lower-cased, equals the trimmed, lower-cased name of another
/// workspace is refused as a duplicate. An accepted name is the candidate
/// trimmed, not empty, and differs in that sense from every other
/// workspace's name; the workspace being renamed never blocks its own name.
pub proof fn lemma_workspace_names_are_unique(
    candidate: Seq<char>,
    workspaces: Seq<Workspace>,
    current_id: Option<u128>,
    k: int,
)
    requires
        0 <= k < workspaces.len(),
    ensures
        trimmed(candidate).len() == 0 ==> spec_validate_name(candidate, workspaces, current_id) == Err::<
            Seq<char>,
            WorkspaceNameError,
        >(WorkspaceNameError::Empty),
        (trimmed(candidate).len() > 0 && current_id != Some(workspaces[k].id) && folded(trimmed(candidate))
            == folded(trimmed(workspaces[k].name@))) ==> spec_validate_name(candidate, workspaces, current_id)
            == Err::<Seq<char>, WorkspaceNameError>(WorkspaceNameError::Duplicate),
        spec_validate_name(candidate, workspaces, current_id) matches Ok(t) ==> t == trimmed(candidate) && t.len()
            > 0 && (current_id != Some(workspaces[k].id) ==> folded(t) != folded(trimmed(workspaces[k].name@))),
        (trimmed(candidate).len() > 0 && forall|i: int|
            0 <= i < workspaces.len() && current_id != Some(#[trigger] workspaces[i].id) ==> folded(
                trimmed(workspaces[i].name@),
            ) != folded(trimmed(candidate))) ==> spec_validate_name(candidate, workspaces, current_id) == Ok::<
            Seq<char>,
            WorkspaceNameError,
        >(trimmed(candidate)),
{
}

/// Validates a new or changed workspace name, returning it trimmed.
pub fn validate_workspace_name(candidate: &str, workspaces: &[Workspace], current_id: Option<&u128>) -> (r: Result<
    String,
    WorkspaceNameError,
>)
    ensures
        match (r, spec_validate_name(
            candidate@,
            workspaces@,
            match current_id {
                Some(id) => Some(*id),
                None => None,
            },
        )) {
            (Ok(s), Ok(t)) => s@ == t,
            (Err(e), Err(f)) => e == f,
            _ => false,
        },
{
    let ghost cur = match current_id {
        Some(id) => Some(*id),
        None => None,
    };
    let trimmed_candidate = trim(candidate);
    if trimmed_candidate.is_empty() {
        return Err(WorkspaceNameError::Empty);
    }
    let wanted = chars_of(to_lowercase(trimmed_candidate).as_str());
    let mut i: usize = 0;
    while i < workspaces.len()
        invariant
            i <= workspaces@.len(),
            wanted@ == folded(trimmed(candidate@)),
            trimmed(candidate@).len() > 0,
            trimmed_candidate@ == trimmed(candidate@),
            cur == match current_id {
                Some(id) => Some(*id),
                None => None,
            },
            forall|j: int|
                0 <= j < i ==> !(cur != Some(workspaces@[j].id) && folded(
                    trimmed(#[trigger] workspaces@[j].name@),
                ) == wanted@),
        decreases workspaces@.len() - i,
    {
        let ws = &workspaces[i];
        let is_current = match current_id {
            Some(id) => *id == ws.id,
            None => false,
        };
        if !is_current {
            let other = chars_of(to_lowercase(trim(ws.name.as_str())).as_str());
            proof {
                lemma_lex_order_zero(other@, wanted@);
            }
            if compare_chars(other.as_slice(), wanted.as_slice()) == 0 {
                assert(cur != Some(workspaces@[i as int].id) && folded(trimmed(workspaces@[i as int].name@))
                    == wanted@);
                return Err(WorkspaceNameError::Duplicate);
            }
        }
        i = i + 1;
    }
    Ok(trimmed_candidate.to_owned())
}

} // verus!
