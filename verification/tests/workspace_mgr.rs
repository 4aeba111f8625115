use knotra_app::model::Workspace;
use knotra_app::state::workspace_mgr::{
    next_active_index_after_delete, validate_workspace_name, CreateWorkspaceDialog,
    WorkspaceMgrState, WorkspaceNameError,
};

fn workspace(id: u128, name: &str) -> Workspace {
    Workspace {
        id,
        name: name.to_owned(),
        projects: Vec::new(),
    }
}

#[test]
fn create_dialog_defaults_empty() {
    let d = CreateWorkspaceDialog::default();
    assert!(d.name.is_empty());
    assert!(d.error.is_none());
}

#[test]
fn workspace_name_rejects_empty() {
    let workspaces = Vec::new();
    assert_eq!(
        validate_workspace_name("  ", &workspaces, None),
        Err(WorkspaceNameError::Empty)
    );
}

#[test]
fn workspace_name_rejects_duplicate_case_insensitive() {
    let workspaces = vec![workspace(1, "Work")];
    assert_eq!(
        validate_workspace_name(" work ", &workspaces, None),
        Err(WorkspaceNameError::Duplicate)
    );
}

#[test]
fn workspace_name_allows_current_name_for_rename() {
    let workspace = workspace(1, "Work");
    let id = workspace.id;
    let workspaces = vec![workspace];
    assert_eq!(
        validate_workspace_name(" work ", &workspaces, Some(&id)),
        Ok("work".to_owned())
    );
}

#[test]
fn delete_active_workspace_selects_nearest_remaining_workspace() {
    assert_eq!(next_active_index_after_delete(0, 3), 0);
    assert_eq!(next_active_index_after_delete(1, 3), 1);
    assert_eq!(next_active_index_after_delete(2, 3), 1);
}

#[test]
fn workspace_name_is_trimmed_and_compared_against_trimmed_names() {
    let workspaces = vec![workspace(1, "  Home  "), workspace(2, "Lab")];
    assert_eq!(
        validate_workspace_name("\tHOME\n", &workspaces, None),
        Err(WorkspaceNameError::Duplicate)
    );
    assert_eq!(
        validate_workspace_name("  New Place ", &workspaces, Some(&2)),
        Ok("New Place".to_owned())
    );
    assert_eq!(
        validate_workspace_name("lab", &workspaces, Some(&1)),
        Err(WorkspaceNameError::Duplicate)
    );
}

#[test]
fn workspace_name_errors_have_catalog_keys() {
    assert_eq!(WorkspaceNameError::Empty.i18n_key(), "workspace.error.empty_name");
    assert_eq!(
        WorkspaceNameError::Duplicate.i18n_key(),
        "workspace.error.duplicate_name"
    );
}

#[test]
fn deleting_from_two_workspaces_leaves_index_zero() {
    assert_eq!(next_active_index_after_delete(0, 2), 0);
    assert_eq!(next_active_index_after_delete(1, 2), 0);
}

#[test]
fn workspace_manager_starts_without_dialogs() {
    let state = WorkspaceMgrState::default();
    assert!(state.create_dialog.is_none());
    assert!(state.rename_dialog.is_none());
    assert!(state.confirm_delete.is_none());
    assert!(!state.switcher_open);
}

#[test]
fn workspace_names_trim_unicode_whitespace_like_str_trim() {
    for raw in ["\u{2003}Lab\u{3000}", "\u{a0}\tLab \u{85}", "Lab"] {
        assert_eq!(
            validate_workspace_name(raw, &[], None),
            Ok(raw.trim().to_owned())
        );
    }
    assert_eq!(
        validate_workspace_name("\u{200a}\u{2028}", &[], None),
        Err(WorkspaceNameError::Empty)
    );
}
