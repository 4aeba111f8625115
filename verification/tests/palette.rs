use std::collections::HashSet;

use knotra_app::state::palette::{
    action_key, actions, availability, dispatch_entry, update_results, PaletteAvailability,
    PaletteCommand, PaletteContext, PaletteDispatch, PaletteItem, PaletteLabels,
};
use knotra_app::state::{PaletteActionId, PaletteEntryKind, PalettePayload, PaletteState, Screen};

fn labels() -> PaletteLabels {
    let english = [
        "Check all for updates",
        "Get latest",
        "Save release point",
        "Change work area",
        "Changelog for selected",
        "Add project",
        "Remove selected project",
        "Create new workspace",
        "Next workspace",
        "Select visible projects",
        "Clear selection",
        "Open settings",
        "Open history",
        "Toggle theme",
        "Refresh",
        "Keyboard shortcuts",
    ];
    PaletteLabels {
        actions: english.iter().map(|s| s.to_string()).collect(),
        project_kind: "Project".to_owned(),
        workspace_kind: "Workspace".to_owned(),
    }
}

fn item(id: u128, name: &str) -> PaletteItem {
    PaletteItem {
        id,
        name: name.to_owned(),
    }
}

fn empty_context() -> PaletteContext {
    PaletteContext {
        busy: false,
        workspace_projects: None,
        missing_projects: HashSet::new(),
        selected_ids: Vec::new(),
        has_upstream: false,
        visible_count: 0,
        selection_mode: false,
        workspaces: Vec::new(),
        active_workspace_idx: 0,
        active_workspace_id: None,
    }
}

fn main_workspace_with(projects: Vec<PaletteItem>) -> PaletteContext {
    let visible = projects.len();
    PaletteContext {
        workspace_projects: Some(projects),
        visible_count: visible,
        workspaces: vec![item(900, "Main")],
        active_workspace_id: Some(900),
        ..empty_context()
    }
}

fn highlight(palette: &mut PaletteState, ctx: &PaletteContext, query: &str, payload: PalettePayload) {
    palette.query = query.to_owned();
    update_results(palette, ctx, &labels());
    palette.highlighted = palette
        .results
        .iter()
        .position(|entry| entry.payload == payload)
        .unwrap_or_else(|| panic!("palette payload {payload:?} visible for query {query:?}"));
}

#[test]
fn palette_create_workspace_opens_dialog() {
    let ctx = empty_context();
    let mut palette = PaletteState::default();
    highlight(
        &mut palette,
        &ctx,
        "create new workspace",
        PalettePayload::Action(PaletteActionId::WorkspaceCreate),
    );
    assert!(matches!(
        dispatch_entry(&palette, &ctx),
        PaletteDispatch::Dispatched(PaletteCommand::CreateWorkspaceDialogOpened)
    ));
}

#[test]
fn palette_visible_action_rows_do_not_noop() {
    let ctx = main_workspace_with(vec![item(1, "svc")]);
    let mut palette = PaletteState::default();
    for action in actions() {
        if matches!(availability(action, &ctx), PaletteAvailability::Hidden) {
            continue;
        }
        highlight(&mut palette, &ctx, action_key(action), PalettePayload::Action(action));
        assert!(
            !matches!(dispatch_entry(&palette, &ctx), PaletteDispatch::Noop),
            "visible palette action {action:?} must dispatch or be disabled"
        );
    }
}

#[test]
fn palette_changelog_action_is_disabled_until_projects_are_selected() {
    let ctx = empty_context();
    let mut palette = PaletteState::default();
    palette.query = "changelog".to_owned();
    update_results(&mut palette, &ctx, &labels());
    let entry = palette
        .results
        .iter()
        .find(|entry| entry.payload == PalettePayload::Action(PaletteActionId::ChangelogSelected))
        .expect("changelog palette action is listed");
    assert_eq!(entry.disabled_reason_key, Some("plain.disabled.choose_one"));
}

#[test]
fn palette_toggle_theme_action_is_not_listed() {
    let ctx = empty_context();
    let mut palette = PaletteState::default();
    palette.query = "toggle theme".to_owned();
    update_results(&mut palette, &ctx, &labels());
    assert!(palette
        .results
        .iter()
        .all(|entry| entry.payload != PalettePayload::Action(PaletteActionId::ToggleTheme)));
}

#[test]
fn palette_changelog_action_dispatches_selected_project_modal() {
    let mut ctx = main_workspace_with(vec![item(1, "svc")]);
    ctx.selection_mode = true;
    ctx.selected_ids = vec![1];
    let mut palette = PaletteState::default();
    highlight(
        &mut palette,
        &ctx,
        "changelog",
        PalettePayload::Action(PaletteActionId::ChangelogSelected),
    );
    assert!(matches!(
        dispatch_entry(&palette, &ctx),
        PaletteDispatch::Dispatched(PaletteCommand::ChangelogOpen)
    ));
}

#[test]
fn palette_project_row_opens_detail_panel() {
    let ctx = main_workspace_with(vec![item(1, "svc")]);
    let mut palette = PaletteState::default();
    highlight(&mut palette, &ctx, "svc", PalettePayload::Project(1));
    assert_eq!(palette.results[palette.highlighted].label, "Project: svc");
    assert_eq!(palette.results[palette.highlighted].kind, PaletteEntryKind::Project);
    assert!(matches!(
        dispatch_entry(&palette, &ctx),
        PaletteDispatch::Dispatched(PaletteCommand::DetailPanelOpened(1))
    ));
}

#[test]
fn palette_active_workspace_row_is_disabled() {
    let ctx = PaletteContext {
        workspace_projects: Some(Vec::new()),
        workspaces: vec![item(900, "Main")],
        active_workspace_id: Some(900),
        ..empty_context()
    };
    let mut palette = PaletteState::default();
    highlight(&mut palette, &ctx, "Main", PalettePayload::Workspace(900));
    assert!(matches!(
        dispatch_entry(&palette, &ctx),
        PaletteDispatch::Disabled("palette.disabled.already_open")
    ));
}

#[test]
fn palette_remove_project_requires_exactly_one_selected_project() {
    let mut ctx = main_workspace_with(vec![item(1, "svc")]);
    let mut palette = PaletteState::default();
    highlight(
        &mut palette,
        &ctx,
        "remove selected",
        PalettePayload::Action(PaletteActionId::RemoveProject),
    );
    assert!(matches!(
        dispatch_entry(&palette, &ctx),
        PaletteDispatch::Disabled("plain.disabled.choose_one")
    ));

    ctx.selected_ids = vec![1];
    highlight(
        &mut palette,
        &ctx,
        "remove selected",
        PalettePayload::Action(PaletteActionId::RemoveProject),
    );
    assert!(matches!(
        dispatch_entry(&palette, &ctx),
        PaletteDispatch::Dispatched(PaletteCommand::RemoveProjectRequested(1))
    ));
}

#[test]
fn palette_next_workspace_switches_in_tab_order() {
    let ctx = PaletteContext {
        workspace_projects: Some(Vec::new()),
        workspaces: vec![item(900, "Main"), item(901, "Lab")],
        active_workspace_idx: 0,
        active_workspace_id: Some(900),
        ..empty_context()
    };
    let mut palette = PaletteState::default();
    highlight(
        &mut palette,
        &ctx,
        "next workspace",
        PalettePayload::Action(PaletteActionId::WorkspaceNext),
    );
    assert!(matches!(
        dispatch_entry(&palette, &ctx),
        PaletteDispatch::Dispatched(PaletteCommand::WorkspaceSwitched(901))
    ));
}

#[test]
fn palette_keeps_at_most_twelve_results_and_clamps_the_highlight() {
    let projects: Vec<PaletteItem> = (1..=20).map(|i| item(i, &format!("p{i}"))).collect();
    let ctx = main_workspace_with(projects);
    let mut palette = PaletteState::default();
    palette.highlighted = 30;
    update_results(&mut palette, &ctx, &labels());
    assert_eq!(palette.results.len(), 12);
    assert_eq!(palette.highlighted, 11);
    assert_eq!(palette.results[0].payload, PalettePayload::Action(PaletteActionId::FetchAll));

    palette.query = "no such thing at all".to_owned();
    update_results(&mut palette, &ctx, &labels());
    assert!(palette.results.is_empty());
    assert_eq!(palette.highlighted, 0);
    assert!(matches!(dispatch_entry(&palette, &ctx), PaletteDispatch::Noop));
}

#[test]
fn palette_busy_workspace_disables_mutating_actions() {
    let mut ctx = main_workspace_with(vec![item(1, "svc")]);
    ctx.busy = true;
    ctx.selected_ids = vec![1];
    assert!(matches!(
        availability(PaletteActionId::FetchAll, &ctx),
        PaletteAvailability::Disabled("plain.activity.busy")
    ));
    assert!(matches!(
        availability(PaletteActionId::ChangelogSelected, &ctx),
        PaletteAvailability::Enabled
    ));
    let mut missing_only = main_workspace_with(vec![item(1, "svc")]);
    missing_only.missing_projects.insert(1);
    assert!(matches!(
        availability(PaletteActionId::FetchAll, &missing_only),
        PaletteAvailability::Disabled("palette.disabled.no_fetchable_projects")
    ));
    assert!(matches!(
        availability(PaletteActionId::SettingsOpen, &empty_context()),
        PaletteAvailability::Enabled
    ));
    let mut palette = PaletteState::default();
    highlight(
        &mut palette,
        &empty_context(),
        "open settings",
        PalettePayload::Action(PaletteActionId::SettingsOpen),
    );
    assert!(matches!(
        dispatch_entry(&palette, &empty_context()),
        PaletteDispatch::Dispatched(PaletteCommand::Navigate(Screen::Settings))
    ));
}

use knotra_app::config::AppConfig;
use knotra_app::model::{Project, Workspace};
use knotra_app::state::palette::palette_context;
use knotra_app::state::AppState;

#[test]
fn palette_context_reads_the_open_workspace_and_missing_projects() {
    let mut state = AppState::new(AppConfig::default());
    let ws = Workspace {
        id: 900,
        name: "Main".to_owned(),
        projects: vec![Project {
            id: 1,
            name: "svc".to_owned(),
            path: "/svc".to_owned(),
            group: None,
        }],
    };
    state.all_workspaces = vec![ws.clone()];
    state.workspace = Some(ws);
    state.missing_projects.insert(1);
    state.selection_mode = true;
    let ctx = palette_context(&state, false, vec![1], true, 1);
    assert_eq!(ctx.active_workspace_id, Some(900));
    assert_eq!(ctx.workspaces.len(), 1);
    assert_eq!(ctx.workspaces[0].name, "Main");
    assert_eq!(ctx.workspace_projects.as_ref().map(|p| p[0].name.clone()), Some("svc".to_owned()));
    assert!(ctx.missing_projects.contains(&1));
    assert!(ctx.selection_mode);
    assert!(matches!(
        availability(PaletteActionId::FetchAll, &ctx),
        PaletteAvailability::Disabled("palette.disabled.no_fetchable_projects")
    ));
    let none = palette_context(&AppState::new(AppConfig::default()), true, Vec::new(), false, 0);
    assert!(none.workspace_projects.is_none());
    assert_eq!(none.active_workspace_id, None);
}
