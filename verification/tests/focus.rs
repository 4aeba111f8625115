use knotra_app::state::dashboard::DashboardTier;
use knotra_app::state::focus::{
    activation_message, advance, focus_key, is_text_input_focused, reconcile, resolve, Direction,
    FocusOrder, FocusTarget, Reconciliation,
};

#[derive(Debug, Clone, PartialEq, Eq)]
enum TestMessage {
    A,
    B,
    C,
}

fn control_order() -> FocusOrder<TestMessage> {
    vec![
        (FocusTarget::control("a"), Some(TestMessage::A)),
        (FocusTarget::control("b"), Some(TestMessage::B)),
        (FocusTarget::control("c"), Some(TestMessage::C)),
    ]
}

#[test]
fn advance_next_from_none_lands_on_first() {
    let order = control_order();
    assert_eq!(
        advance(&order, None, Direction::Next),
        Some(&FocusTarget::control("a"))
    );
}

#[test]
fn advance_next_wraps_from_last_to_first() {
    let order = control_order();
    let last = FocusTarget::control("c");
    assert_eq!(
        advance(&order, Some(&last), Direction::Next),
        Some(&FocusTarget::control("a"))
    );
}

#[test]
fn advance_previous_wraps_from_first_to_last() {
    let order = control_order();
    let first = FocusTarget::control("a");
    assert_eq!(
        advance(&order, Some(&first), Direction::Previous),
        Some(&FocusTarget::control("c"))
    );
}

#[test]
fn advance_on_empty_order_is_none() {
    let order: FocusOrder<TestMessage> = Vec::new();
    assert_eq!(advance(&order, None, Direction::Next), None);
}

#[test]
fn resolve_falls_back_to_first_when_current_target_is_gone() {
    let order = vec![
        (FocusTarget::control("a"), Some(TestMessage::A)),
        (FocusTarget::control("c"), Some(TestMessage::C)),
    ];
    let stale = FocusTarget::control("b");
    assert_eq!(
        resolve(&order, Some(&stale)),
        Some(&FocusTarget::control("a"))
    );
}

#[test]
fn activation_message_returns_the_current_targets_message() {
    let order = control_order();
    let b = FocusTarget::control("b");
    assert_eq!(activation_message(&order, Some(&b)), Some(TestMessage::B));
}

#[test]
fn activation_message_is_none_for_a_disabled_control() {
    let order = vec![
        (FocusTarget::control("a"), Some(TestMessage::A)),
        (FocusTarget::control("disabled"), None),
    ];
    let disabled = FocusTarget::control("disabled");
    assert_eq!(activation_message(&order, Some(&disabled)), None);
    assert_eq!(
        advance(&order, Some(&FocusTarget::control("a")), Direction::Next),
        Some(&disabled)
    );
}

#[test]
fn is_text_input_focused_distinguishes_control_from_text_input() {
    let text_id = "field".to_owned();
    let order = vec![
        (FocusTarget::control("button"), Some(TestMessage::A)),
        (FocusTarget::text_input(text_id.clone()), None),
    ];
    let button = FocusTarget::control("button");
    let field = FocusTarget::text_input(text_id);
    assert!(!is_text_input_focused(&order, Some(&button)));
    assert!(is_text_input_focused(&order, Some(&field)));
}

#[test]
fn reconcile_focuses_iced_when_moving_onto_a_text_input() {
    let id = "field".to_owned();
    let button = FocusTarget::control("button");
    let field = FocusTarget::text_input(id.clone());
    assert_eq!(
        reconcile(Some(&button), Some(&field)),
        Reconciliation::FocusTextInput(id)
    );
}

#[test]
fn reconcile_clears_iced_focus_when_moving_off_a_text_input() {
    let id = "field".to_owned();
    let button = FocusTarget::control("button");
    let field = FocusTarget::text_input(id);
    assert_eq!(
        reconcile(Some(&field), Some(&button)),
        Reconciliation::ClearTextInputFocus
    );
}

#[test]
fn reconcile_does_nothing_between_two_controls() {
    let a = FocusTarget::control("a");
    let b = FocusTarget::control("b");
    assert_eq!(reconcile(Some(&a), Some(&b)), Reconciliation::Keep);
}

#[test]
fn reconcile_does_nothing_between_two_text_inputs_other_than_focusing_the_new_one() {
    let id_a = "a".to_owned();
    let id_b = "b".to_owned();
    let a = FocusTarget::text_input(id_a);
    let b = FocusTarget::text_input(id_b.clone());
    assert_eq!(
        reconcile(Some(&a), Some(&b)),
        Reconciliation::FocusTextInput(id_b)
    );
}

#[test]
fn resolve_without_engaged_focus_is_none_and_disengaged_activation_is_none() {
    let order = control_order();
    assert_eq!(resolve(&order, None), None);
    assert_eq!(activation_message(&order, None), None);
    assert!(!is_text_input_focused(&order, None));
    assert_eq!(
        advance(&order, None, Direction::Previous),
        Some(&FocusTarget::control("c"))
    );
}

#[test]
fn tab_then_shift_tab_returns_to_the_same_target() {
    let order = control_order();
    for key in ["a", "b", "c"] {
        let start = FocusTarget::control(key);
        let next = advance(&order, Some(&start), Direction::Next).cloned();
        let back = advance(&order, next.as_ref(), Direction::Previous);
        assert_eq!(back, Some(&start));
        let prev = advance(&order, Some(&start), Direction::Previous).cloned();
        let forth = advance(&order, prev.as_ref(), Direction::Next);
        assert_eq!(forth, Some(&start));
    }
}

#[test]
fn a_control_and_a_text_input_with_the_same_key_are_different_targets() {
    let order = vec![
        (FocusTarget::control("x"), Some(TestMessage::A)),
        (FocusTarget::text_input("x".to_owned()), Some(TestMessage::B)),
    ];
    let field = FocusTarget::text_input("x".to_owned());
    assert_eq!(activation_message(&order, Some(&field)), Some(TestMessage::B));
    assert_eq!(reconcile(None, None), Reconciliation::Keep);
    assert_eq!(
        reconcile(Some(&field), None),
        Reconciliation::ClearTextInputFocus
    );
}

#[test]
fn dynamic_control_keys_match_fixed_ones() {
    let order = vec![
        (FocusTarget::control_dynamic(format!("dashboard.row.{}.name", 7)), Some(TestMessage::A)),
        (FocusTarget::control("dashboard.row.8.name"), Some(TestMessage::B)),
    ];
    let seven = FocusTarget::control("dashboard.row.7.name");
    assert_eq!(resolve(&order, Some(&seven)), Some(&order[0].0));
    assert_eq!(
        advance(&order, Some(&seven), Direction::Next),
        Some(&FocusTarget::control_dynamic("dashboard.row.8.name".to_owned()))
    );
}

#[test]
fn section_focus_keys_name_the_tier() {
    for tier in [DashboardTier::NeedsHelp, DashboardTier::InProgress, DashboardTier::AllSet] {
        assert_eq!(focus_key(tier), format!("dashboard.section.{tier:?}"));
    }
}

use knotra_app::config::{DashboardGrouping, DashboardSort};
use knotra_app::model::{
    ConflictStatus, Project, ProjectStatus, RemoteStatus, RepositoryIdentity, VcsKind,
    WorkingTreeStatus, WorkspaceStatus,
};
use knotra_app::state::dashboard::{build_dashboard_display, DashboardDisplayOptions};
use knotra_app::state::focus::{card_focus_order, dashboard_focus_order, DashboardCommand};
use knotra_app::state::FilterState;
use knotra_app::text::id_string;

fn hyphenated(id: u128) -> String {
    let h = format!("{id:032x}");
    format!("{}-{}-{}-{}-{}", &h[0..8], &h[8..12], &h[12..16], &h[16..20], &h[20..32])
}

#[test]
fn ids_render_as_hyphenated_lower_hex() {
    for id in [0u128, 1, 0x0123_4567_89ab_cdef_fedc_ba98_7654_3210, u128::MAX] {
        assert_eq!(id_string(id), hyphenated(id));
    }
}

fn dash_project(id: u128, name: &str) -> Project {
    Project {
        id,
        name: name.to_owned(),
        path: format!("/p/{id}"),
        group: None,
    }
}

fn dash_status(id: u128) -> ProjectStatus {
    ProjectStatus {
        project_id: id,
        identity: RepositoryIdentity {
            path: "/p".to_owned(),
            vcs_kind: VcsKind::Git,
        },
        context: None,
        remote: RemoteStatus::default(),
        working_tree: WorkingTreeStatus::default(),
        conflict: ConflictStatus::default(),
        read_error: None,
    }
}

fn control_key(t: &FocusTarget) -> String {
    match t {
        FocusTarget::Control(k) => k.clone(),
        FocusTarget::TextInput(k) => format!("input:{k}"),
    }
}

#[test]
fn dashboard_focus_order_walks_headers_and_rows() {
    let projects = vec![dash_project(1, "help"), dash_project(2, "work"), dash_project(3, "set")];
    let mut statuses: Vec<_> = projects.iter().map(|p| dash_status(p.id)).collect();
    statuses[0].conflict.has_conflict = true;
    statuses[1].remote.behind = 2;
    let ws = WorkspaceStatus { projects: statuses };
    let display = build_dashboard_display(
        &projects,
        Some(&ws),
        &std::collections::HashSet::new(),
        &FilterState::default(),
        DashboardDisplayOptions {
            grouping: DashboardGrouping::Attention,
            sort: DashboardSort::Recommended,
            in_progress_collapsed: false,
            all_set_collapsed: true,
        },
    );
    let order = dashboard_focus_order(&display, true, false);
    let keys: Vec<String> = order.iter().map(|(t, _)| control_key(t)).collect();
    let row = |id: u128, s: &str| format!("dashboard.row.{}.{s}", hyphenated(id));
    assert_eq!(
        keys,
        vec![
            row(1, "checkbox"),
            row(1, "name"),
            row(1, "action"),
            "dashboard.section.InProgress".to_owned(),
            row(2, "checkbox"),
            row(2, "name"),
            "dashboard.section.AllSet".to_owned(),
        ]
    );
    assert_eq!(order[2].1, Some(DashboardCommand::ConflictOpened(1)));
    let busy = dashboard_focus_order(&display, false, true);
    assert_eq!(busy[1].1, None);
    assert_eq!(busy[2].1, Some(DashboardCommand::TierToggled(DashboardTier::InProgress)));

    let cards = card_focus_order(&display);
    let card_keys: Vec<String> = cards.iter().map(|(t, _)| control_key(t)).collect();
    assert_eq!(card_keys, vec![row(1, "name"), row(2, "name")]);
    let expected: Vec<String> = display
        .ordered_selectable_ids
        .iter()
        .map(|id| row(*id, "name"))
        .collect();
    assert_eq!(card_keys, expected);
}

use knotra_app::state::focus::{selection_bar_commands, SelectionBarCommand};

#[test]
fn focus_order_is_empty_when_not_in_selection_mode() {
    assert!(selection_bar_commands(false, 3, true, true, false).is_empty());
}

#[test]
fn focus_order_has_five_targets_with_only_exit_active_when_nothing_selected() {
    let order = selection_bar_commands(true, 0, true, true, false);
    assert_eq!(order.len(), 5);
    let live: Vec<_> = order.iter().filter(|m| m.is_some()).collect();
    assert_eq!(live.len(), 1);
    assert_eq!(order[4], Some(SelectionBarCommand::ModeExited));
}

#[test]
fn selection_bar_actions_follow_the_selection() {
    assert_eq!(
        selection_bar_commands(true, 1, true, false, false),
        vec![
            Some(SelectionBarCommand::BulkFetch),
            None,
            Some(SelectionBarCommand::FreezerOpen),
            Some(SelectionBarCommand::ContextOpen),
            Some(SelectionBarCommand::ModeExited),
        ]
    );
    assert_eq!(
        selection_bar_commands(true, 2, false, true, true),
        vec![None, None, None, None, Some(SelectionBarCommand::ModeExited)]
    );
}

use knotra_app::state::dashboard::DashboardDisplay;

fn dashboard_of(
    projects: &[Project],
    statuses: Vec<ProjectStatus>,
    missing: &[u128],
    grouping: DashboardGrouping,
    all_set_collapsed: bool,
) -> DashboardDisplay {
    let ws = WorkspaceStatus { projects: statuses };
    let missing: std::collections::HashSet<u128> = missing.iter().copied().collect();
    build_dashboard_display(
        projects,
        Some(&ws),
        &missing,
        &FilterState::default(),
        DashboardDisplayOptions {
            grouping,
            sort: DashboardSort::Recommended,
            in_progress_collapsed: false,
            all_set_collapsed,
        },
    )
}

/// Alpha needs help (missing path), Beta is in progress (one uncommitted
/// change), Gamma is all set.
fn three_tier_dashboard(grouping: DashboardGrouping, all_set_collapsed: bool) -> (DashboardDisplay, [u128; 3]) {
    let projects = vec![dash_project(11, "Alpha"), dash_project(12, "Beta"), dash_project(13, "Gamma")];
    let mut beta = dash_status(12);
    beta.working_tree.uncommitted_count = 1;
    let display = dashboard_of(&projects, vec![beta, dash_status(13)], &[11], grouping, all_set_collapsed);
    (display, [11, 12, 13])
}

fn name_keys(order: &FocusOrder<DashboardCommand>) -> Vec<String> {
    order
        .iter()
        .map(|(t, _)| control_key(t))
        .filter(|k| k.ends_with(".name"))
        .collect()
}

fn name_key_of(id: u128) -> String {
    format!("dashboard.row.{}.name", hyphenated(id))
}

#[test]
fn card_focus_order_contains_only_row_name_targets_in_display_order() {
    let projects = vec![dash_project(1, "alpha"), dash_project(2, "beta")];
    let display = dashboard_of(&projects, Vec::new(), &[], DashboardGrouping::Attention, true);
    let order = card_focus_order(&display);
    let keys: Vec<String> = order.iter().map(|(t, _)| control_key(t)).collect();
    assert_eq!(keys, vec![name_key_of(1), name_key_of(2)]);
    for (_, message) in &order {
        assert!(matches!(message, Some(DashboardCommand::DetailPanelOpened(_))));
    }
}

#[test]
fn card_focus_order_skips_rows_in_a_collapsed_all_set_section() {
    let projects = vec![dash_project(1, "alpha"), dash_project(2, "beta")];
    let display = dashboard_of(&projects, vec![dash_status(2)], &[], DashboardGrouping::Attention, true);
    let order = card_focus_order(&display);
    let keys: Vec<String> = order.iter().map(|(t, _)| control_key(t)).collect();
    assert_eq!(keys, vec![name_key_of(1)]);
}

#[test]
fn dashboard_row_order_matches_ordered_selectable_ids_r2() {
    let (display, [a, b, c]) = three_tier_dashboard(DashboardGrouping::Attention, false);
    let expected: Vec<String> = display.ordered_selectable_ids.iter().map(|id| name_key_of(*id)).collect();
    assert_eq!(expected, vec![name_key_of(a), name_key_of(b), name_key_of(c)]);
    let order = dashboard_focus_order(&display, false, false);
    assert_eq!(name_keys(&order), expected);
}

#[test]
fn dashboard_row_order_matches_ordered_selectable_ids_project_group_grouping_r2() {
    let (display, _) = three_tier_dashboard(DashboardGrouping::ProjectGroup, false);
    let expected: Vec<String> = display.ordered_selectable_ids.iter().map(|id| name_key_of(*id)).collect();
    assert_eq!(expected.len(), 3);
    let order = dashboard_focus_order(&display, false, false);
    assert_eq!(name_keys(&order), expected);
}

#[test]
fn collapsed_section_contributes_no_row_targets_but_keeps_its_header() {
    let (display, [_, _, gamma]) = three_tier_dashboard(DashboardGrouping::Attention, true);
    let order = dashboard_focus_order(&display, false, false);
    let keys: Vec<String> = order.iter().map(|(t, _)| control_key(t)).collect();
    assert!(keys.iter().any(|k| k.contains("dashboard.section.AllSet")));
    assert!(!keys.iter().any(|k| k.contains(&hyphenated(gamma))));
}

#[test]
fn needs_help_header_is_never_a_collapse_target() {
    let (display, _) = three_tier_dashboard(DashboardGrouping::Attention, false);
    let order = dashboard_focus_order(&display, false, false);
    assert!(!order.iter().any(|(t, _)| control_key(t).contains("dashboard.section.NeedsHelp")));
}

#[test]
fn tab_reaches_section_header_checkbox_and_row_action() {
    let (display, [alpha, _, _]) = three_tier_dashboard(DashboardGrouping::Attention, false);
    let order = dashboard_focus_order(&display, true, false);
    let keys: Vec<String> = order.iter().map(|(t, _)| control_key(t)).collect();
    assert!(keys.iter().any(|k| k.contains("dashboard.section.")));
    assert!(keys.iter().any(|k| *k == format!("dashboard.row.{}.checkbox", hyphenated(alpha))));
    assert!(keys.iter().any(|k| *k == format!("dashboard.row.{}.action", hyphenated(alpha))));
}

#[test]
fn enter_on_a_row_action_dispatches_the_same_message_a_click_would_r3() {
    let (display, [alpha, _, _]) = three_tier_dashboard(DashboardGrouping::Attention, false);
    let order = dashboard_focus_order(&display, false, false);
    let target = FocusTarget::control_dynamic(format!("dashboard.row.{}.action", hyphenated(alpha)));
    assert_eq!(
        activation_message(&order, Some(&target)),
        Some(DashboardCommand::DetailPanelOpened(alpha))
    );
}

#[test]
fn tab_from_a_stale_row_target_lands_on_the_second_entry_r9() {
    let projects = vec![dash_project(11, "Alpha"), dash_project(13, "Gamma")];
    let display = dashboard_of(&projects, vec![dash_status(13)], &[11], DashboardGrouping::Attention, false);
    let order = dashboard_focus_order(&display, false, false);
    let stale = FocusTarget::control_dynamic(name_key_of(12));
    assert_eq!(advance(&order, Some(&stale), Direction::Next), Some(&order[1].0));
}

#[test]
fn delete_dialog_open_does_not_affect_focus_traversal_pure_function_tests() {
    let order: FocusOrder<TestMessage> = vec![(FocusTarget::control("a"), Some(TestMessage::A))];
    assert_eq!(
        advance(&order, None, Direction::Next),
        Some(&FocusTarget::control("a"))
    );
}

use knotra_app::message::StatusFilter;
use knotra_app::state::focus::{filter_focus_key, select_mode_reason, toolbar_focus_order, ToolbarCommand};
use knotra_app::state::AppState;

#[test]
fn toolbar_orders_follow_the_width_and_open_disclosures() {
    let standard = toolbar_focus_order(false, false, false, true, true, "search");
    let keys: Vec<String> = standard.iter().map(|(t, _)| control_key(t)).collect();
    assert_eq!(
        keys,
        vec![
            "dashboard.toolbar.filter.needs_help",
            "dashboard.toolbar.filter.dirty",
            "dashboard.toolbar.filter.behind",
            "dashboard.toolbar.filter.ahead",
            "dashboard.toolbar.filter.conflict",
            "dashboard.toolbar.filter.all_set",
            "dashboard.toolbar.group",
            "dashboard.toolbar.sort",
            "input:search",
            "dashboard.toolbar.clear_filters",
            "dashboard.toolbar.select_mode",
        ]
    );
    assert_eq!(standard[0].1, Some(ToolbarCommand::FilterToggled(StatusFilter::NeedsHelp)));
    assert_eq!(standard[10].1, Some(ToolbarCommand::SelectModeEntered));

    let compact = toolbar_focus_order(true, false, true, false, false, "search");
    let keys: Vec<String> = compact.iter().map(|(t, _)| control_key(t)).collect();
    assert_eq!(
        keys,
        vec![
            "dashboard.toolbar.filter.needs_help",
            "dashboard.toolbar.filter.dirty",
            "dashboard.toolbar.filter.behind",
            "dashboard.toolbar.overflow",
            "input:search",
            "dashboard.toolbar.selectors_disclosure",
            "dashboard.toolbar.group",
            "dashboard.toolbar.sort",
            "dashboard.toolbar.select_mode",
        ]
    );
    assert_eq!(compact[8].1, None);
    let open = toolbar_focus_order(true, true, false, false, true, "search");
    assert_eq!(open.len(), 10);
    assert_eq!(filter_focus_key(StatusFilter::AllSet), "dashboard.toolbar.filter.all_set");
}

#[test]
fn select_mode_reason_names_the_true_cause() {
    let mut state = AppState::new(knotra_app::config::AppConfig::default());
    assert_eq!(select_mode_reason(&state, true), None);
    assert_eq!(
        select_mode_reason(&state, false),
        Some("plain.selection.no_projects_registered")
    );
    state.workspace = Some(knotra_app::model::Workspace {
        id: 1,
        name: "w".to_owned(),
        projects: vec![dash_project(1, "a")],
    });
    assert_eq!(
        select_mode_reason(&state, false),
        Some("plain.selection.no_visible_projects")
    );
}
