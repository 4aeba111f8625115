//! User configuration: the values the state logic reads.

use vstd::prelude::*;

verus! {

/// How the dashboard groups its rows.
#[derive(Debug, Clone, Copy, PartialEq, Eq, Structural)]
pub enum DashboardGrouping {
    /// By attention tier: needs help, in progress, all set.
    Attention,
    /// By the project's own group name.
    ProjectGroup,
    /// One flat list, without sections.
    Flat,
}

/// How the dashboard orders rows within a section.
#[derive(Debug, Clone, Copy, PartialEq, Eq, Structural)]
pub enum DashboardSort {
    /// Tier first, then urgency within the tier, then name.
    Recommended,
    /// Name, case-insensitively, then identity.
    NameAscending,
}

/// Application configuration.
#[derive(Debug, Clone)]
pub struct AppConfig {
    pub refresh_interval_secs: u64,
    pub max_concurrent_reads: u64,
    pub external_editor: Option<String>,
    pub external_merge_tool: Option<String>,
    pub max_log_entries: u64,
    pub fs_debounce_secs: u64,
    pub dark_theme: bool,
    pub dashboard_grouping: DashboardGrouping,
    pub dashboard_sort: DashboardSort,
    pub dashboard_in_progress_collapsed: bool,
    pub dashboard_all_set_collapsed: bool,
}

impl Default for AppConfig {
    /// Defaults: bounded concurrency and history, attention grouping with the
    /// recommended order, and the all-set section collapsed.
    fn default() -> (cfg: Self)
        ensures
            cfg.refresh_interval_secs == 300,
            cfg.max_concurrent_reads == 4,
            cfg.external_editor is None,
            cfg.external_merge_tool is None,
            cfg.max_log_entries == 200,
            cfg.fs_debounce_secs == 2,
            !cfg.dark_theme,
            cfg.dashboard_grouping == DashboardGrouping::Attention,
            cfg.dashboard_sort == DashboardSort::Recommended,
            !cfg.dashboard_in_progress_collapsed,
            cfg.dashboard_all_set_collapsed,
    {
        AppConfig {
            refresh_interval_secs: 300,
            max_concurrent_reads: 4,
            external_editor: None,
            external_merge_tool: None,
            max_log_entries: 200,
            fs_debounce_secs: 2,
            dark_theme: false,
            dashboard_grouping: DashboardGrouping::Attention,
            dashboard_sort: DashboardSort::Recommended,
            dashboard_in_progress_collapsed: false,
            dashboard_all_set_collapsed: true,
        }
    }
}

} // verus!
