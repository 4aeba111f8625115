//! Application state: screens, filters, selection and the per-screen models.

use std::collections::HashSet;

use vstd::prelude::*;

use crate::config::AppConfig;
use crate::message::{FilterMessage, StatusFilter};
use crate::model::{group_view, Project, Workspace, WorkspaceStatus};
use crate::state::changelog::ChangelogState;
use crate::state::conflict_ops::ConflictOpsState;
use crate::state::context::ContextOpsState;
use crate::state::detail_panel::DetailPanelState;
use crate::state::freezer::FreezerState;
use crate::state::sync::SyncCenterState;
use crate::state::topology::TopologyState;
use crate::state::workspace_mgr::WorkspaceMgrState;
use crate::text::{
    chars_of, compare_chars, decimal, lemma_lex_order_antisymmetric, lemma_lex_order_range,
    lemma_lex_order_transitive, lemma_lex_order_zero, lex_order, u64_to_string,
};

pub mod changelog;
pub mod conflict_ops;
pub mod context;
pub mod dashboard;
pub mod detail_panel;
pub mod focus;
pub mod freezer;
pub mod inclusion;
pub mod palette;
pub mod sync;
pub mod tier;
pub mod topology;
pub mod workspace_mgr;

verus! {

// ---------------------------------------------------------------------------
// Screen
// ---------------------------------------------------------------------------

/// The screens of the application.
#[derive(Debug, Clone, Copy, PartialEq, Eq, Structural)]
pub enum Screen {
    Dashboard,
    SyncCenter,
    ContextOps,
    Freezer,
    History,
    Settings,
    ConflictResolution,
    Changelog,
}

/// The catalog key of a screen's navigation label.
pub open spec fn spec_nav_key(s: Screen) -> Seq<char> {
    match s {
        Screen::Dashboard => "nav.dashboard"@,
        Screen::SyncCenter => "nav.sync"@,
        Screen::ContextOps => "nav.context"@,
        Screen::Freezer => "nav.freezer"@,
        Screen::History => "nav.history"@,
        Screen::Settings => "nav.settings"@,
        Screen::ConflictResolution => "nav.conflicts"@,
        Screen::Changelog => "nav.changelog"@,
    }
}

impl Screen {
    /// The catalog key of this screen's navigation label.
    pub fn nav_key(&self) -> (k: &'static str)
        ensures
            k@ == spec_nav_key(*self),
    {
        match self {
            Screen::Dashboard => "nav.dashboard",
            Screen::SyncCenter => "nav.sync",
            Screen::ContextOps => "nav.context",
            Screen::Freezer => "nav.freezer",
            Screen::History => "nav.history",
            Screen::Settings => "nav.settings",
            Screen::ConflictResolution => "nav.conflicts",
            Screen::Changelog => "nav.changelog",
        }
    }
}

// ---------------------------------------------------------------------------
// Command palette
// ---------------------------------------------------------------------------

/// What a palette entry refers to.
#[derive(Debug, Clone, Copy, PartialEq, Eq, Structural)]
pub enum PaletteEntryKind {
    Project,
    Workspace,
    Action,
}

/// The command-palette actions, in the order the palette lists them.
#[derive(Debug, Clone, Copy, PartialEq, Eq, Structural)]
pub enum PaletteActionId {
    FetchAll,
    PullSelected,
    TagSelected,
    SwitchSelected,
    ChangelogSelected,
    AddProject,
    RemoveProject,
    WorkspaceCreate,
    WorkspaceNext,
    SelectAll,
    SelectionClear,
    SettingsOpen,
    HistoryOpen,
    ToggleTheme,
    Refresh,
    ShortcutsShow,
}

/// What choosing a palette entry acts on: an action, or a project or
/// workspace by id.
#[derive(Debug, Clone, Copy, PartialEq, Eq, Structural)]
pub enum PalettePayload {
    Action(PaletteActionId),
    Project(u128),
    Workspace(u128),
}

/// One palette result: its kind, its display label, what it acts on, and
/// the catalog key of the reason it cannot be chosen, if it cannot.
#[derive(Debug, Clone)]
pub struct PaletteEntry {
    pub kind: PaletteEntryKind,
    pub label: String,
    pub payload: PalettePayload,
    pub disabled_reason_key: Option<&'static str>,
}

/// The command palette: open or not, the query, its results and the highlighted row.
#[derive(Debug, Clone)]
pub struct PaletteState {
    pub open: bool,
    pub query: String,
    pub results: Vec<PaletteEntry>,
    pub highlighted: usize,
}

impl Default for PaletteState {
    fn default() -> (p: Self)
        ensures
            !p.open,
            p.query@.len() == 0,
            p.results@.len() == 0,
            p.highlighted == 0,
    {
        PaletteState { open: false, query: String::new(), results: Vec::new(), highlighted: 0 }
    }
}

impl PaletteState {
    /// Opens the palette with an empty query and the first row highlighted.
    pub fn open_palette(&mut self)
        ensures
            final(self).open,
            final(self).query@.len() == 0,
            final(self).highlighted == 0,
            final(self).results@ == old(self).results@,
    {
        self.open = true;
        self.query = String::new();
        self.highlighted = 0;
    }

    /// Closes the palette, keeping its query and results.
    pub fn close(&mut self)
        ensures
            !final(self).open,
            final(self).query@ == old(self).query@,
            final(self).results@ == old(self).results@,
            final(self).highlighted == old(self).highlighted,
    {
        self.open = false;
    }
}

// ---------------------------------------------------------------------------
// Attention tiers
// ---------------------------------------------------------------------------

/// The three attention buckets, most urgent first.
#[derive(Debug, Clone, Copy, PartialEq, Eq, PartialOrd, Ord, Structural)]
pub enum AttentionTier {
    NeedsAttention,
    Active,
    Clean,
}

// ---------------------------------------------------------------------------
// Filter state
// ---------------------------------------------------------------------------

/// The dashboard filter: search text, project group and status chips.
#[derive(Debug, Clone)]
pub struct FilterState {
    pub search_text: String,
    pub active_group: Option<String>,
    pub status_filters: Vec<StatusFilter>,
}

impl Default for FilterState {
    fn default() -> (f: Self)
        ensures
            f.search_text@.len() == 0,
            f.active_group is None,
            f.status_filters@.len() == 0,
    {
        FilterState { search_text: String::new(), active_group: None, status_filters: Vec::new() }
    }
}

impl FilterState {
    /// Any part of the filter narrows the dashboard.
    pub fn is_active(&self) -> (r: bool)
        ensures
            r == (self.search_text@.len() > 0 || self.active_group is Some
                || self.status_filters@.len() > 0),
    {
        !self.search_text.as_str().is_empty() || self.active_group.is_some()
            || !self.status_filters.is_empty()
    }

    /// The chip `sf` is switched on.
    pub fn has_status_filter(&self, sf: &StatusFilter) -> (r: bool)
        ensures
            r == self.status_filters@.contains(*sf),
    {
        let mut i: usize = 0;
        while i < self.status_filters.len()
            invariant
                i <= self.status_filters.len(),
                forall|j: int| 0 <= j < i ==> self.status_filters@[j] != *sf,
            decreases self.status_filters.len() - i,
        {
            if self.status_filters[i] == *sf {
                return true;
            }
            i = i + 1;
        }
        false
    }
}


// ---------------------------------------------------------------------------
// Dialogs, load phase, settings buffer
// ---------------------------------------------------------------------------

/// The add-project dialog.
#[derive(Debug, Clone)]
pub struct AddProjectDialog {
    pub name: String,
    pub path: String,
    pub error: Option<String>,
}

impl Default for AddProjectDialog {
    fn default() -> (d: Self)
        ensures
            d.name@.len() == 0,
            d.path@.len() == 0,
            d.error is None,
    {
        AddProjectDialog { name: String::new(), path: String::new(), error: None }
    }
}

/// The remove-project confirmation.
#[derive(Debug, Clone)]
pub struct ConfirmRemoveDialog {
    pub project_id: u128,
    pub project_name: String,
}

/// Where loading the workspace stands.
#[derive(Debug, Clone)]
pub enum LoadPhase {
    Startup,
    Refreshing,
    Ready,
    Error(String),
}

/// The Settings screen's edit buffer: the configuration as editable text.
#[derive(Debug, Clone)]
pub struct SettingsEdit {
    pub refresh_interval_secs: String,
    pub max_concurrent_reads: String,
    pub external_editor: String,
    pub external_merge_tool: String,
    pub max_log_entries: String,
    pub fs_debounce_secs: String,
}

/// The text of an optional setting: the value, or empty.
pub open spec fn text_or_empty(s: Option<String>) -> Seq<char> {
    match s {
        Some(v) => v@,
        None => seq![],
    }
}

fn string_or_empty(s: &Option<String>) -> (r: String)
    ensures
        r@ == text_or_empty(*s),
{
    match s {
        Some(v) => v.clone(),
        None => String::new(),
    }
}

impl SettingsEdit {
    /// The buffer for `cfg`: numbers in decimal, unset tools as empty text.
    pub fn from_config(cfg: &AppConfig) -> (r: Self)
        ensures
            r.refresh_interval_secs@ == decimal(cfg.refresh_interval_secs as nat),
            r.max_concurrent_reads@ == decimal(cfg.max_concurrent_reads as nat),
            r.external_editor@ == text_or_empty(cfg.external_editor),
            r.external_merge_tool@ == text_or_empty(cfg.external_merge_tool),
            r.max_log_entries@ == decimal(cfg.max_log_entries as nat),
            r.fs_debounce_secs@ == decimal(cfg.fs_debounce_secs as nat),
    {
        SettingsEdit {
            refresh_interval_secs: u64_to_string(cfg.refresh_interval_secs),
            max_concurrent_reads: u64_to_string(cfg.max_concurrent_reads),
            external_editor: string_or_empty(&cfg.external_editor),
            external_merge_tool: string_or_empty(&cfg.external_merge_tool),
            max_log_entries: u64_to_string(cfg.max_log_entries),
            fs_debounce_secs: u64_to_string(cfg.fs_debounce_secs),
        }
    }
}

/// An offer to push the tags of a finished freeze.
#[derive(Debug, Clone)]
pub struct PendingTagPush {
    pub freeze_name: String,
    pub project_ids: Vec<u128>,
    pub is_pushing: bool,
}

// ---------------------------------------------------------------------------
// Selection
// ---------------------------------------------------------------------------

/// The projects the user has checked, and the anchor of range selection.
#[derive(Debug)]
pub struct SelectionState {
    pub selected_ids: HashSet<u128>,
    /// The last project checked without Shift.
    pub anchor_id: Option<u128>,
}

impl Default for SelectionState {
    fn default() -> (s: Self)
        ensures
            s.selected_ids@ == Set::<u128>::empty(),
            s.anchor_id is None,
    {
        SelectionState { selected_ids: HashSet::new(), anchor_id: None }
    }
}

/// The first position of `x` in `s`, if any.
pub open spec fn first_index(s: Seq<u128>, x: u128) -> Option<int>
    decreases s.len(),
{
    if s.len() == 0 {
        None
    } else if s[0] == x {
        Some(0)
    } else {
        match first_index(s.drop_first(), x) {
            Some(j) => Some(j + 1),
            None => None,
        }
    }
}

/// The first position of `x` in `s`, or 0 when absent.
pub open spec fn position_or_first(s: Seq<u128>, x: u128) -> int {
    match first_index(s, x) {
        Some(j) => j,
        None => 0,
    }
}

proof fn lemma_first_index(s: Seq<u128>, x: u128, i: int)
    requires
        0 <= i <= s.len(),
        forall|j: int| 0 <= j < i ==> s[j] != x,
    ensures
        i < s.len() && s[i] == x ==> first_index(s, x) == Some(i),
        i == s.len() ==> first_index(s, x) is None,
    decreases i,
{
    if i > 0 {
        let t = s.drop_first();
        assert forall|j: int| 0 <= j < i - 1 implies t[j] != x by {
            assert(t[j] == s[j + 1]);
        }
        lemma_first_index(t, x, i - 1);
    }
}

fn position_in(s: &[u128], x: u128) -> (r: usize)
    ensures
        r == position_or_first(s@, x),
        s@.len() > 0 ==> r < s@.len(),
{
    let mut i: usize = 0;
    while i < s.len()
        invariant
            i <= s@.len(),
            forall|j: int| 0 <= j < i ==> s@[j] != x,
        decreases s@.len() - i,
    {
        if s[i] == x {
            proof {
                lemma_first_index(s@, x, i as int);
            }
            return i;
        }
        i = i + 1;
    }
    proof {
        lemma_first_index(s@, x, i as int);
    }
    0
}

/// The ids at positions `lo` to `hi` of `s`, inclusive.
pub open spec fn ids_between(s: Seq<u128>, lo: int, hi: int) -> Set<u128> {
    Set::new(|x: u128| exists|k: int| lo <= k <= hi && 0 <= k < s.len() && s[k] == x)
}

impl SelectionState {
    /// Unchecks a checked project, or checks an unchecked one and makes it the anchor.
    pub fn toggle(&mut self, id: u128)
        ensures
            old(self).selected_ids@.contains(id) ==> final(self).selected_ids@ == old(self).selected_ids@.remove(id)
                && final(self).anchor_id == old(self).anchor_id,
            !old(self).selected_ids@.contains(id) ==> final(self).selected_ids@ == old(self).selected_ids@.insert(id)
                && final(self).anchor_id == Some(id),
    {
        if self.selected_ids.contains(&id) {
            self.selected_ids.remove(&id);
        } else {
            self.selected_ids.insert(id);
            self.anchor_id = Some(id);
        }
    }

    /// Shift-click: checks every project from the anchor to `to` in the
    /// display order (a project not in the order counts as the first); with
    /// no anchor, checks `to` and makes it the anchor.
    pub fn select_range(&mut self, ordered: &[u128], to: &u128)
        requires
            old(self).anchor_id is Some ==> ordered@.len() > 0,
        ensures
            match old(self).anchor_id {
                Some(a) => {
                    let ai = position_or_first(ordered@, a);
                    let bi = position_or_first(ordered@, *to);
                    let (lo, hi) = if ai <= bi {
                        (ai, bi)
                    } else {
                        (bi, ai)
                    };
                    &&& final(self).selected_ids@ == old(self).selected_ids@.union(ids_between(ordered@, lo, hi))
                    &&& final(self).anchor_id == old(self).anchor_id
                },
                None => {
                    &&& final(self).selected_ids@ == old(self).selected_ids@.insert(*to)
                    &&& final(self).anchor_id == Some(*to)
                },
            },
    {
        match self.anchor_id {
            Some(anchor) => {
                let ai = position_in(ordered, anchor);
                let bi = position_in(ordered, *to);
                let (lo, hi) = if ai <= bi {
                    (ai, bi)
                } else {
                    (bi, ai)
                };
                let ghost start = self.selected_ids@;
                let mut k: usize = lo;
                while k <= hi
                    invariant
                        lo <= k <= hi + 1,
                        hi < ordered@.len(),
                        self.anchor_id == Some(anchor),
                        self.selected_ids@ == start.union(ids_between(ordered@, lo as int, k - 1)),
                    decreases hi + 1 - k,
                {
                    self.selected_ids.insert(ordered[k]);
                    proof {
                        assert(self.selected_ids@ =~= start.union(ids_between(ordered@, lo as int, k as int)));
                    }
                    k = k + 1;
                }
            },
            None => {
                self.selected_ids.insert(*to);
                self.anchor_id = Some(*to);
            },
        }
    }

    /// Unchecks everything and forgets the anchor.
    pub fn clear(&mut self)
        ensures
            final(self).selected_ids@ == Set::<u128>::empty(),
            final(self).anchor_id is None,
    {
        self.selected_ids.clear();
        self.anchor_id = None;
    }

    pub fn is_empty(&self) -> (r: bool)
        ensures
            r == (self.selected_ids@.len() == 0),
    {
        self.selected_ids.len() == 0
    }

    pub fn len(&self) -> (r: usize)
        ensures
            r == self.selected_ids@.len(),
    {
        self.selected_ids.len()
    }

    pub fn contains(&self, id: &u128) -> (r: bool)
        ensures
            r == self.selected_ids@.contains(*id),
    {
        self.selected_ids.contains(id)
    }

    /// Checks every project of `ids`.
    pub fn select_all(&mut self, ids: &[u128])
        ensures
            final(self).selected_ids@ == old(self).selected_ids@.union(ids@.to_set()),
            final(self).anchor_id == old(self).anchor_id,
    {
        let ghost start = self.selected_ids@;
        let mut i: usize = 0;
        while i < ids.len()
            invariant
                i <= ids@.len(),
                self.anchor_id == old(self).anchor_id,
                start == old(self).selected_ids@,
                self.selected_ids@ == start.union(ids@.take(i as int).to_set()),
            decreases ids@.len() - i,
        {
            self.selected_ids.insert(ids[i]);
            proof {
                assert(ids@.take(i + 1) =~= ids@.take(i as int).push(ids@[i as int]));
                ids@.take(i as int).lemma_push_to_set_commute(ids@[i as int]);
                assert(self.selected_ids@ =~= start.union(ids@.take(i + 1).to_set()));
            }
            i = i + 1;
        }
        assert(ids@.take(ids@.len() as int) =~= ids@);
    }
}

/// Toggling the same project twice leaves the checked set as it was.
pub proof fn lemma_toggle_twice(s: Set<u128>, id: u128)
    ensures
        s.contains(id) ==> s.remove(id).insert(id) == s,
        !s.contains(id) ==> s.insert(id).remove(id) == s,
{
    assert(s.contains(id) ==> s.remove(id).insert(id) =~= s);
    assert(!s.contains(id) ==> s.insert(id).remove(id) =~= s);
}

// ---------------------------------------------------------------------------
// Activity strip, grouping, tiers, panels, modals, keyboard
// ---------------------------------------------------------------------------

/// The most recent operation, as the activity strip shows it.
#[derive(Debug, Clone)]
pub enum LatestOpState {
    Idle,
    Running { label: String, done: usize, total: usize },
    Success { summary: String, elapsed_secs: u32 },
    PartialFailure { summary: String, failed_names: Vec<String> },
    TotalFailure { summary: String },
}

impl Default for LatestOpState {
    fn default() -> (s: Self)
        ensures
            s is Idle,
    {
        LatestOpState::Idle
    }
}

/// The activity strip.
#[derive(Debug, Clone)]
pub struct ActivityStripState {
    pub latest: LatestOpState,
    /// The history popover is shown.
    pub popover_open: bool,
    /// Seconds since the last operation completed.
    pub completed_secs: u32,
}

impl Default for ActivityStripState {
    fn default() -> (s: Self)
        ensures
            s.latest is Idle,
            !s.popover_open,
            s.completed_secs == 0,
    {
        ActivityStripState { latest: LatestOpState::Idle, popover_open: false, completed_secs: 0 }
    }
}

/// How the dashboard groups cards.
#[derive(Debug, Clone, Copy, PartialEq, Eq, Structural)]
pub enum GroupingMode {
    /// By attention tier.
    Auto,
    /// By filter chips.
    Legacy,
}

impl Default for GroupingMode {
    fn default() -> (g: Self)
        ensures
            g == GroupingMode::Auto,
    {
        GroupingMode::Auto
    }
}

/// Which tier headers are collapsed.
#[derive(Debug, Clone, Copy, PartialEq, Eq, Structural)]
pub struct TierCollapseState {
    pub needs_attention: bool,
    pub active: bool,
    pub clean: bool,
}

impl Default for TierCollapseState {
    /// Only the clean tier starts collapsed.
    fn default() -> (t: Self)
        ensures
            !t.needs_attention,
            !t.active,
            t.clean,
    {
        TierCollapseState { needs_attention: false, active: false, clean: true }
    }
}

/// Which bulk-action modal is open.
#[derive(Debug, Clone, Copy, PartialEq, Eq, Structural)]
pub enum ActiveModal {
    /// No modal.
    Closed,
    Pull,
    Tag,
    Switch,
    Resolve(u128),
    Changelog,
}

impl Default for ActiveModal {
    fn default() -> (m: Self)
        ensures
            m == ActiveModal::Closed,
    {
        ActiveModal::Closed
    }
}

/// The pending first key of a two-key shortcut.
#[derive(Debug, Clone, Copy, PartialEq, Eq, Structural)]
pub enum LeaderKeyState {
    /// No key pending.
    Idle,
    /// `g` was pressed; the second key is awaited.
    G,
}

impl Default for LeaderKeyState {
    fn default() -> (l: Self)
        ensures
            l == LeaderKeyState::Idle,
    {
        LeaderKeyState::Idle
    }
}

/// Keyboard state: the cheat sheet and the leader key.
#[derive(Debug, Clone, Copy, PartialEq, Eq, Structural)]
pub struct KeyboardState {
    pub cheat_sheet_open: bool,
    pub leader: LeaderKeyState,
}

impl Default for KeyboardState {
    fn default() -> (k: Self)
        ensures
            !k.cheat_sheet_open,
            k.leader == LeaderKeyState::Idle,
    {
        KeyboardState { cheat_sheet_open: false, leader: LeaderKeyState::Idle }
    }
}


// ---------------------------------------------------------------------------
// Application state
// ---------------------------------------------------------------------------

/// The application state that the screens read and the update logic changes.
#[derive(Debug)]
pub struct AppState {
    pub screen: Screen,
    pub config: AppConfig,
    pub workspace: Option<Workspace>,
    pub workspace_status: Option<WorkspaceStatus>,
    pub load_phase: LoadPhase,
    pub filter: FilterState,
    pub history_search: String,
    pub status_bar: Option<String>,
    pub add_project_dialog: Option<AddProjectDialog>,
    pub confirm_remove_dialog: Option<ConfirmRemoveDialog>,
    pub fetching_projects: HashSet<u128>,
    pub is_refreshing: bool,
    /// History entries shown expanded.
    pub history_expanded: HashSet<u128>,
    pub settings_edit: SettingsEdit,
    pub settings_save_msg: Option<String>,
    pub sync: SyncCenterState,
    pub context_ops: ContextOpsState,
    pub freezer: FreezerState,
    pub conflict_ops: ConflictOpsState,
    pub changelog: ChangelogState,
    pub topology: TopologyState,
    pub all_workspaces: Vec<Workspace>,
    pub active_workspace_idx: usize,
    pub workspace_mgr: WorkspaceMgrState,
    /// Projects whose path was missing at the last refresh.
    pub missing_projects: HashSet<u128>,
    pub pending_tag_push: Option<PendingTagPush>,
    pub selection: SelectionState,
    pub activity: ActivityStripState,
    pub palette: PaletteState,
    pub grouping_mode: GroupingMode,
    pub tier_collapse: TierCollapseState,
    pub keyboard: KeyboardState,
    pub detail_panel: DetailPanelState,
    pub active_modal: ActiveModal,
    /// Checkboxes and the selection bar are shown.
    pub selection_mode: bool,
}

/// The view of an optional text.
pub open spec fn opt_text(o: Option<String>) -> Option<Seq<char>> {
    match o {
        Some(s) => Some(s@),
        None => None,
    }
}

/// Toggling a status chip: removes its first occurrence, or appends it.
pub open spec fn spec_toggle_filter(s: Seq<StatusFilter>, sf: StatusFilter) -> Seq<StatusFilter> {
    match s.index_of_first(sf) {
        Some(i) => s.remove(i),
        None => s.push(sf),
    }
}

/// Toggling a chip that is not selected and toggling it again gives back
/// the selection as it was.
pub proof fn lemma_toggle_filter_twice(s: Seq<StatusFilter>, sf: StatusFilter)
    requires
        !s.contains(sf),
    ensures
        spec_toggle_filter(spec_toggle_filter(s, sf), sf) == s,
{
    s.index_of_first_ensures(sf);
    let t = s.push(sf);
    assert(spec_toggle_filter(s, sf) == t);
    assert(t[s.len() as int] == sf);
    assert(t.contains(sf));
    t.index_of_first_ensures(sf);
    let idx = t.index_of_first(sf).unwrap();
    if idx < s.len() {
        assert(s[idx] == sf);
        assert(s.contains(sf));
    }
    assert(t.remove(idx) =~= s);
}

/// On a selection without repeats, a toggle keeps it without repeats and
/// flips exactly whether the toggled chip is selected.
pub proof fn lemma_toggle_filter_flips(s: Seq<StatusFilter>, sf: StatusFilter, x: StatusFilter)
    requires
        s.no_duplicates(),
    ensures
        spec_toggle_filter(s, sf).no_duplicates(),
        spec_toggle_filter(s, sf).contains(x) <==> (if x == sf { !s.contains(sf) } else { s.contains(x) }),
{
    s.index_of_first_ensures(sf);
    let t = spec_toggle_filter(s, sf);
    match s.index_of_first(sf) {
        Some(i) => {
            assert forall|a: int, b: int| 0 <= a < t.len() && 0 <= b < t.len() && a != b implies t[a] != t[b] by {
                let a0 = if a < i { a } else { a + 1 };
                let b0 = if b < i { b } else { b + 1 };
                assert(t[a] == s[a0]);
                assert(t[b] == s[b0]);
            }
            if t.contains(x) {
                let a = choose|a: int| 0 <= a < t.len() && t[a] == x;
                let a0 = if a < i { a } else { a + 1 };
                assert(s[a0] == x);
                assert(s.contains(x));
            }
            if x != sf && s.contains(x) {
                let a = choose|a: int| 0 <= a < s.len() && s[a] == x;
                if a < i {
                    assert(t[a] == x);
                } else {
                    assert(a != i);
                    assert(t[a - 1] == x);
                }
            }
        },
        None => {
            assert forall|a: int, b: int| 0 <= a < t.len() && 0 <= b < t.len() && a != b implies t[a] != t[b] by {
                if a == s.len() {
                    assert(t[b] == s[b]);
                } else if b == s.len() {
                    assert(t[a] == s[a]);
                }
            }
            if x == sf {
                assert(t[s.len() as int] == sf);
            }
            if t.contains(x) && x != sf {
                let a = choose|a: int| 0 <= a < t.len() && t[a] == x;
                assert(s[a] == x);
            }
            if s.contains(x) {
                let a = choose|a: int| 0 <= a < s.len() && s[a] == x;
                assert(t[a] == x);
            }
        },
    }
}

/// The filter after a filter message.
pub open spec fn filter_after(f: FilterState, msg: FilterMessage) -> (Seq<char>, Option<Seq<char>>, Seq<StatusFilter>) {
    match msg {
        FilterMessage::SearchChanged(s) => (s@, opt_text(f.active_group), f.status_filters@),
        FilterMessage::GroupChanged(g) => (f.search_text@, opt_text(g), f.status_filters@),
        FilterMessage::StatusFilterToggled(sf) => (f.search_text@, opt_text(f.active_group), spec_toggle_filter(f.status_filters@, sf)),
        FilterMessage::AllFiltersCleared => (seq![], None, seq![]),
    }
}

pub open spec fn filter_values(f: FilterState) -> (Seq<char>, Option<Seq<char>>, Seq<StatusFilter>) {
    (f.search_text@, opt_text(f.active_group), f.status_filters@)
}

/// The character views of a sequence of strings.
pub open spec fn string_views(s: Seq<String>) -> Seq<Seq<char>> {
    s.map_values(|x: String| x@)
}

/// The groups of the workspace's projects, each once, in string order.
pub open spec fn valid_all_groups(projects: Seq<Project>, names: Seq<Seq<char>>) -> bool {
    &&& forall|i: int, j: int| 0 <= i < j < names.len() ==> lex_order(names[i], names[j]) < 0
    &&& forall|n: Seq<char>|
        names.contains(n) <==> exists|k: int| 0 <= k < projects.len() && #[trigger] group_view(projects[k]) == Some(n)
}

proof fn lemma_insert_sorted(nv: Seq<Seq<char>>, p: int, g: Seq<char>)
    requires
        forall|i: int, j: int| 0 <= i < j < nv.len() ==> lex_order(nv[i], nv[j]) < 0,
        0 <= p <= nv.len(),
        forall|i: int| 0 <= i < p ==> lex_order(nv[i], g) < 0,
        p < nv.len() ==> lex_order(g, nv[p]) < 0,
    ensures
        forall|i: int, j: int| 0 <= i < j < nv.insert(p, g).len() ==> lex_order(nv.insert(p, g)[i], nv.insert(p, g)[j]) < 0,
        forall|n: Seq<char>| nv.insert(p, g).contains(n) <==> (nv.contains(n) || n == g),
{
    let s = nv.insert(p, g);
    assert forall|i: int, j: int| 0 <= i < j < s.len() implies lex_order(s[i], s[j]) < 0 by {
        if i == p && j > p + 0 && j - 1 > p {
            lemma_lex_order_transitive(g, nv[p], nv[j - 1]);
        }
    }
    assert forall|n: Seq<char>| s.contains(n) <==> (nv.contains(n) || n == g) by {
        if s.contains(n) {
            let i = choose|i: int| 0 <= i < s.len() && s[i] == n;
            if i < p {
                assert(nv[i] == n);
            } else if i > p {
                assert(nv[i - 1] == n);
            }
        }
        if nv.contains(n) {
            let i = choose|i: int| 0 <= i < nv.len() && nv[i] == n;
            if i < p {
                assert(s[i] == n);
            } else {
                assert(s[i + 1] == n);
            }
        }
        if n == g {
            assert(s[p] == n);
        }
    }
}

/// The distinct group names of `projects`, in string order.
pub fn sorted_groups(projects: &Vec<Project>) -> (r: Vec<String>)
    ensures
        valid_all_groups(projects@, string_views(r@)),
{
    let mut names: Vec<String> = Vec::new();
    let mut chars: Vec<Vec<char>> = Vec::new();
    let mut k: usize = 0;
    while k < projects.len()
        invariant
            k <= projects@.len(),
            chars@.len() == names@.len(),
            forall|i: int| 0 <= i < names@.len() ==> (#[trigger] chars@[i])@ == names@[i]@,
            forall|i: int, j: int|
                0 <= i < j < names@.len() ==> lex_order(names@[i]@, names@[j]@) < 0,
            forall|n: Seq<char>|
                string_views(names@).contains(n) <==> exists|q: int|
                    0 <= q < k && #[trigger] group_view(projects@[q]) == Some(n),
        decreases projects@.len() - k,
    {
        let ghost nv = string_views(names@);
        let ghost gv = group_view(projects@[k as int]);
        assert(forall|n: Seq<char>|
            nv.contains(n) <==> exists|q: int| 0 <= q < k && #[trigger] group_view(projects@[q]) == Some(n));
        match &projects[k].group {
            None => {},
            Some(g) => {
                assert(gv == Some(g@));
                let gc = chars_of(g.as_str());
                let mut p: usize = 0;
                let mut found = false;
                let mut stop = false;
                while p < names.len() && !stop
                    invariant
                        p <= names@.len(),
                        chars@.len() == names@.len(),
                        gc@ == g@,
                        forall|i: int| 0 <= i < names@.len() ==> (#[trigger] chars@[i])@ == names@[i]@,
                        forall|i: int| 0 <= i < p ==> lex_order(names@[i]@, g@) < 0,
                        stop ==> p < names@.len(),
                        found ==> stop && names@[p as int]@ == g@,
                        stop && !found ==> lex_order(g@, names@[p as int]@) < 0,
                    decreases names@.len() - p + (if stop { 0int } else { 1int }),
                {
                    assert(chars@[p as int]@ == names@[p as int]@);
                    let c = compare_chars(chars[p].as_slice(), gc.as_slice());
                    proof {
                        lemma_lex_order_antisymmetric(names@[p as int]@, g@);
                        lemma_lex_order_zero(names@[p as int]@, g@);
                        lemma_lex_order_range(names@[p as int]@, g@);
                    }
                    if c < 0 {
                        p = p + 1;
                    } else {
                        stop = true;
                        if c == 0 {
                            found = true;
                        }
                    }
                }
                if !found {
                    let ghost before = names@;
                    let ghost bc = chars@;
                    names.insert(p, g.clone());
                    chars.insert(p, gc);
                    proof {
                        assert(string_views(names@) =~= nv.insert(p as int, g@));
                        lemma_insert_sorted(nv, p as int, g@);
                        assert forall|i: int, j: int|
                            0 <= i < j < names@.len() implies lex_order(names@[i]@, names@[j]@) < 0 by {
                            assert(names@[i]@ == nv.insert(p as int, g@)[i]);
                            assert(names@[j]@ == nv.insert(p as int, g@)[j]);
                        }
                        assert forall|i: int| 0 <= i < names@.len() implies (#[trigger] chars@[i])@ == names@[i]@ by {
                            if i > p {
                                assert(names@[i] == before[i - 1]);
                                assert(chars@[i] == bc[i - 1]);
                            } else if i < p {
                                assert(names@[i] == before[i]);
                                assert(chars@[i] == bc[i]);
                            }
                        }
                    }
                    assert forall|n: Seq<char>|
                        string_views(names@).contains(n) <==> (nv.contains(n) || gv == Some(n)) by {
                        assert(string_views(names@) == nv.insert(p as int, g@));
                        assert(nv.insert(p as int, g@).contains(n) <==> (nv.contains(n) || n == g@));
                    }
                } else {
                    assert(nv[p as int] == g@);
                    assert(nv.contains(g@));
                    assert(string_views(names@) == nv);
                    assert(forall|n: Seq<char>|
                        string_views(names@).contains(n) <==> (nv.contains(n) || gv == Some(n)));
                }
            },
        }
        proof {
            assert forall|n: Seq<char>|
                #[trigger] string_views(names@).contains(n) <==> exists|q: int|
                    0 <= q < k + 1 && #[trigger] group_view(projects@[q]) == Some(n) by {
                assert(string_views(names@).contains(n) <==> (nv.contains(n) || gv == Some(n)));
                if exists|q: int| 0 <= q < k + 1 && #[trigger] group_view(projects@[q]) == Some(n) {
                    let q = choose|q: int| 0 <= q < k + 1 && #[trigger] group_view(projects@[q]) == Some(n);
                    if q < k {
                        assert(exists|q: int| 0 <= q < k && #[trigger] group_view(projects@[q]) == Some(n));
                    }
                }
                if gv == Some(n) {
                    assert(group_view(projects@[k as int]) == Some(n));
                }
                if nv.contains(n) {
                    let q = choose|q: int| 0 <= q < k && #[trigger] group_view(projects@[q]) == Some(n);
                    assert(group_view(projects@[q]) == Some(n));
                }
            }
        }
        k = k + 1;
    }
    names
}

impl AppState {
    /// A fresh state on the dashboard, nothing loaded yet, with the settings
    /// buffer filled from `config`.
    pub fn new(config: AppConfig) -> (s: Self)
        ensures
            s.screen == Screen::Dashboard,
            s.config == config,
            s.workspace is None,
            s.workspace_status is None,
            s.load_phase is Startup,
            filter_values(s.filter) == (Seq::<char>::empty(), None::<Seq<char>>, Seq::<StatusFilter>::empty()),
            s.history_search@.len() == 0,
            s.status_bar is None,
            s.add_project_dialog is None,
            s.confirm_remove_dialog is None,
            s.fetching_projects@.len() == 0,
            !s.is_refreshing,
            s.history_expanded@.len() == 0,
            s.settings_edit.refresh_interval_secs@ == decimal(config.refresh_interval_secs as nat),
            s.settings_edit.max_concurrent_reads@ == decimal(config.max_concurrent_reads as nat),
            s.settings_edit.external_editor@ == text_or_empty(config.external_editor),
            s.settings_edit.external_merge_tool@ == text_or_empty(config.external_merge_tool),
            s.settings_edit.max_log_entries@ == decimal(config.max_log_entries as nat),
            s.settings_edit.fs_debounce_secs@ == decimal(config.fs_debounce_secs as nat),
            s.all_workspaces@.len() == 0,
            s.active_workspace_idx == 0,
            s.missing_projects@.len() == 0,
            s.pending_tag_push is None,
            s.selection.selected_ids@.len() == 0,
            s.selection.anchor_id is None,
            !s.palette.open,
            s.grouping_mode == GroupingMode::Auto,
            s.tier_collapse == (TierCollapseState { needs_attention: false, active: false, clean: true }),
            !s.keyboard.cheat_sheet_open,
            s.detail_panel.open_project_id is None,
            s.detail_panel.commits_phase is Idle,
            s.detail_panel.commits_cached@.len() == 0,
            s.active_modal == ActiveModal::Closed,
            !s.selection_mode,
            s.settings_save_msg is None,
            s.sync.phase is Idle,
            s.sync.project_selection@.len() == 0,
            s.sync.disposition_overrides@.len() == 0,
            s.context_ops.phase is Idle,
            s.context_ops.cached_lists@.len() == 0,
            s.freezer.phase is Idle,
            s.freezer.freeze_name@.len() == 0,
            s.freezer.project_selection@.len() == 0,
            s.conflict_ops.phase is Idle,
            s.conflict_ops.cached@.len() == 0,
            s.changelog.phase is Idle,
            s.changelog.since_ref@.len() == 0,
            s.changelog.active_request_id is None,
            s.changelog.last_request_id() == 0,
            s.topology.phase is Idle,
            s.workspace_mgr.create_dialog is None,
            s.workspace_mgr.rename_dialog is None,
            s.workspace_mgr.confirm_delete is None,
            !s.workspace_mgr.switcher_open,
            s.activity.latest is Idle,
            !s.activity.popover_open,
            s.palette.query@.len() == 0,
            s.palette.results@.len() == 0,
            s.palette.highlighted == 0,
            s.keyboard.leader == LeaderKeyState::Idle,
    {
        let settings_edit = SettingsEdit::from_config(&config);
        AppState {
            screen: Screen::Dashboard,
            workspace: None,
            workspace_status: None,
            load_phase: LoadPhase::Startup,
            filter: FilterState::default(),
            history_search: String::new(),
            status_bar: None,
            add_project_dialog: None,
            confirm_remove_dialog: None,
            fetching_projects: HashSet::new(),
            is_refreshing: false,
            history_expanded: HashSet::new(),
            settings_edit,
            settings_save_msg: None,
            sync: SyncCenterState::default(),
            context_ops: ContextOpsState::default(),
            freezer: FreezerState::default(),
            conflict_ops: ConflictOpsState::default(),
            changelog: ChangelogState::default(),
            topology: TopologyState::default(),
            all_workspaces: Vec::new(),
            active_workspace_idx: 0,
            workspace_mgr: WorkspaceMgrState::default(),
            missing_projects: HashSet::new(),
            pending_tag_push: None,
            selection: SelectionState::default(),
            activity: ActivityStripState::default(),
            palette: PaletteState::default(),
            grouping_mode: GroupingMode::Auto,
            tier_collapse: TierCollapseState::default(),
            keyboard: KeyboardState::default(),
            detail_panel: DetailPanelState::default(),
            active_modal: ActiveModal::Closed,
            selection_mode: false,
            config,
        }
    }

    /// Applies a filter message: sets the search or the group, toggles a
    /// status chip, or clears everything. Nothing but the filter changes.
    pub fn apply_filter(&mut self, msg: FilterMessage)
        ensures
            filter_values(final(self).filter) == filter_after(old(self).filter, msg),
            *final(self) == (AppState { filter: final(self).filter, ..*old(self) }),
    {
        match msg {
            FilterMessage::SearchChanged(s) => self.filter.search_text = s,
            FilterMessage::GroupChanged(g) => self.filter.active_group = g,
            FilterMessage::StatusFilterToggled(sf) => {
                let mut pos: Option<usize> = None;
                let mut i: usize = 0;
                while i < self.filter.status_filters.len() && pos.is_none()
                    invariant
                        i <= self.filter.status_filters@.len(),
                        self.filter.status_filters@ == old(self).filter.status_filters@,
                        match pos {
                            None => forall|j: int| 0 <= j < i ==> self.filter.status_filters@[j] != sf,
                            Some(p) => p < self.filter.status_filters@.len()
                                && self.filter.status_filters@[p as int] == sf
                                && forall|j: int| 0 <= j < p ==> self.filter.status_filters@[j] != sf,
                        },
                    decreases self.filter.status_filters@.len() - i + (if pos is None { 1int } else { 0int }),
                {
                    if self.filter.status_filters[i] == sf {
                        pos = Some(i);
                    } else {
                        i = i + 1;
                    }
                }
                let ghost s0 = self.filter.status_filters@;
                proof {
                    s0.index_of_first_ensures(sf);
                }
                match pos {
                    Some(p) => {
                        proof {
                            let idx = s0.index_of_first(sf).unwrap();
                            if idx < p {
                                assert(s0[idx] != sf);
                            }
                            if p < idx {
                                assert(s0[p as int] != sf);
                            }
                        }
                        self.filter.status_filters.remove(p);
                    },
                    None => {
                        proof {
                            if s0.contains(sf) {
                                let j = choose|j: int| 0 <= j < s0.len() && s0[j] == sf;
                                assert(s0[j] != sf);
                            }
                        }
                        self.filter.status_filters.push(sf);
                    },
                }
            },
            FilterMessage::AllFiltersCleared => self.filter = FilterState::default(),
        }
    }

    /// The distinct group names of the open workspace's projects, in string
    /// order; none without a workspace.
    pub fn all_groups(&self) -> (r: Vec<String>)
        ensures
            match self.workspace {
                Some(ws) => valid_all_groups(ws.projects@, string_views(r@)),
                None => r@.len() == 0,
            },
    {
        match &self.workspace {
            Some(ws) => sorted_groups(&ws.projects),
            None => Vec::new(),
        }
    }
}

} // verus!
