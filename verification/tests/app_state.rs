use knotra_app::config::{AppConfig, DashboardGrouping, DashboardSort};
use knotra_app::message::{FilterMessage, StatusFilter};
use knotra_app::model::{Project, Workspace};
use knotra_app::state::{AppState, PaletteState, Screen, SelectionState, SettingsEdit};

fn make_state() -> AppState {
    AppState::new(AppConfig::default())
}

fn project(id: u128, name: &str, group: Option<&str>) -> Project {
    Project {
        id,
        name: name.to_owned(),
        path: format!("/p/{id}"),
        group: group.map(str::to_owned),
    }
}

#[test]
fn initial_screen_is_dashboard() {
    let state = make_state();
    assert_eq!(state.screen, Screen::Dashboard);
}

#[test]
fn filter_search_updates_state() {
    let mut state = make_state();
    state.apply_filter(FilterMessage::SearchChanged("api".to_owned()));
    assert_eq!(state.filter.search_text, "api");
}

#[test]
fn filter_toggle_adds_and_removes() {
    let mut state = make_state();

    state.apply_filter(FilterMessage::StatusFilterToggled(StatusFilter::Behind));
    assert_eq!(state.filter.status_filters.len(), 1);

    state.apply_filter(FilterMessage::StatusFilterToggled(StatusFilter::Behind));
    assert_eq!(state.filter.status_filters.len(), 0);
}

#[test]
fn default_config_has_sensible_values() {
    let cfg = AppConfig::default();
    assert!(cfg.max_concurrent_reads > 0);
    assert!(cfg.max_log_entries > 0);
}

#[test]
fn default_config_groups_by_attention_in_recommended_order() {
    let cfg = AppConfig::default();
    assert_eq!(cfg.dashboard_grouping, DashboardGrouping::Attention);
    assert_eq!(cfg.dashboard_sort, DashboardSort::Recommended);
    assert!(!cfg.dashboard_in_progress_collapsed);
    assert!(cfg.dashboard_all_set_collapsed);
}

#[test]
fn toggling_a_chip_removes_only_its_first_occurrence_and_clearing_resets_everything() {
    let mut state = make_state();
    state.apply_filter(FilterMessage::StatusFilterToggled(StatusFilter::Dirty));
    state.apply_filter(FilterMessage::StatusFilterToggled(StatusFilter::Ahead));
    state.apply_filter(FilterMessage::GroupChanged(Some("core".to_owned())));
    assert!(state.filter.is_active());
    assert!(state.filter.has_status_filter(&StatusFilter::Ahead));
    state.apply_filter(FilterMessage::StatusFilterToggled(StatusFilter::Dirty));
    assert_eq!(state.filter.status_filters, vec![StatusFilter::Ahead]);
    assert_eq!(state.filter.active_group.as_deref(), Some("core"));
    state.apply_filter(FilterMessage::AllFiltersCleared);
    assert!(!state.filter.is_active());
    assert_eq!(state.screen, Screen::Dashboard);
}

#[test]
fn all_groups_are_distinct_and_sorted() {
    let mut state = make_state();
    assert!(state.all_groups().is_empty());
    state.workspace = Some(Workspace {
        id: 1,
        name: "w".to_owned(),
        projects: vec![
            project(1, "a", Some("web")),
            project(2, "b", None),
            project(3, "c", Some("Api")),
            project(4, "d", Some("web")),
            project(5, "e", Some("api")),
        ],
    });
    assert_eq!(
        state.all_groups(),
        vec!["Api".to_owned(), "api".to_owned(), "web".to_owned()]
    );
}

#[test]
fn settings_edit_renders_numbers_in_decimal() {
    let mut cfg = AppConfig::default();
    cfg.external_editor = Some("code".to_owned());
    cfg.max_log_entries = 1234;
    let edit = SettingsEdit::from_config(&cfg);
    assert_eq!(edit.refresh_interval_secs, "300");
    assert_eq!(edit.max_concurrent_reads, "4");
    assert_eq!(edit.max_log_entries, "1234");
    assert_eq!(edit.fs_debounce_secs, "2");
    assert_eq!(edit.external_editor, "code");
    assert_eq!(edit.external_merge_tool, "");
}

#[test]
fn selection_toggle_and_range_follow_the_display_order() {
    let mut sel = SelectionState::default();
    assert!(sel.is_empty());
    sel.select_range(&[10, 20, 30, 40], &20);
    assert_eq!(sel.anchor_id, Some(20));
    assert!(sel.contains(&20));
    sel.select_range(&[10, 20, 30, 40], &40);
    assert_eq!(sel.len(), 3);
    assert!(sel.contains(&30) && sel.contains(&40) && !sel.contains(&10));
    sel.toggle(30);
    assert!(!sel.contains(&30));
    assert_eq!(sel.anchor_id, Some(20));
    sel.toggle(30);
    assert!(sel.contains(&30));
    assert_eq!(sel.anchor_id, Some(30));
    sel.select_all(&[10, 50]);
    assert_eq!(sel.len(), 5);
    sel.clear();
    assert!(sel.is_empty());
    assert_eq!(sel.anchor_id, None);
}

#[test]
fn range_to_an_id_outside_the_order_runs_from_the_first_row() {
    let mut sel = SelectionState::default();
    sel.toggle(30);
    sel.select_range(&[10, 20, 30, 40], &99);
    assert!(sel.contains(&10) && sel.contains(&20) && sel.contains(&30));
    assert!(!sel.contains(&40) && !sel.contains(&99));
}

#[test]
fn palette_opens_empty_and_closes_keeping_its_query() {
    let mut palette = PaletteState::default();
    palette.query = "old".to_owned();
    palette.highlighted = 3;
    palette.open_palette();
    assert!(palette.open);
    assert!(palette.query.is_empty());
    assert_eq!(palette.highlighted, 0);
    palette.query = "fetch".to_owned();
    palette.close();
    assert!(!palette.open);
    assert_eq!(palette.query, "fetch");
}

#[test]
fn navigation_keys_name_each_screen() {
    assert_eq!(Screen::Dashboard.nav_key(), "nav.dashboard");
    assert_eq!(Screen::ConflictResolution.nav_key(), "nav.conflicts");
    assert_eq!(Screen::Changelog.nav_key(), "nav.changelog");
}

#[test]
fn settings_edit_renders_extreme_numbers() {
    let mut cfg = AppConfig::default();
    cfg.refresh_interval_secs = 0;
    cfg.max_log_entries = u64::MAX;
    cfg.fs_debounce_secs = 10;
    let edit = SettingsEdit::from_config(&cfg);
    assert_eq!(edit.refresh_interval_secs, "0");
    assert_eq!(edit.max_log_entries, u64::MAX.to_string());
    assert_eq!(edit.fs_debounce_secs, "10");
}
