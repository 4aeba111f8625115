//! Command palette: the action registry, availability, results and dispatch.

use std::collections::HashSet;

use vstd::prelude::*;

use crate::model::{Project, Workspace};
use crate::state::{
    AppState, PaletteActionId, PaletteEntry, PaletteEntryKind, PalettePayload, PaletteState, Screen,
};
use crate::text::{has_substring, folded, str_contains, to_lowercase};

verus! {

broadcast use vstd::std_specs::hash::group_hash_axioms;

/// Whether an action can be chosen now, cannot (with the catalog key of the
/// reason), or is not offered at all.
#[derive(Debug, Clone, Copy)]
pub enum PaletteAvailability {
    Enabled,
    Disabled(&'static str),
    Hidden,
}

/// What choosing a palette entry asks the application to do.
#[derive(Debug, Clone, Copy, PartialEq, Eq, Structural)]
pub enum PaletteCommand {
    BulkFetchAll,
    BulkPull,
    FreezerOpen,
    ContextOpen,
    ChangelogOpen,
    AddProjectDialogOpened,
    RemoveProjectRequested(u128),
    CreateWorkspaceDialogOpened,
    WorkspaceSwitched(u128),
    SelectAll,
    SelectionClear,
    Navigate(Screen),
    Refresh,
    CheatSheetToggled,
    DetailPanelOpened(u128),
}

/// The outcome of choosing the highlighted entry.
#[derive(Debug, Clone, Copy)]
pub enum PaletteDispatch {
    Dispatched(PaletteCommand),
    Disabled(&'static str),
    Noop,
}

/// A project or workspace as the palette lists it.
#[derive(Debug, Clone)]
pub struct PaletteItem {
    pub id: u128,
    pub name: String,
}

/// What the palette reads of the application state.
#[derive(Debug)]
pub struct PaletteContext {
    /// A long-running operation holds the workspace.
    pub busy: bool,
    /// The projects of the open workspace, if one is open.
    pub workspace_projects: Option<Vec<PaletteItem>>,
    /// Projects whose path was missing at the last refresh.
    pub missing_projects: HashSet<u128>,
    /// The selected projects, in selection order.
    pub selected_ids: Vec<u128>,
    /// Some selected project tracks an upstream.
    pub has_upstream: bool,
    /// How many projects the dashboard shows.
    pub visible_count: usize,
    /// Selection mode is on.
    pub selection_mode: bool,
    /// All workspaces, in order.
    pub workspaces: Vec<PaletteItem>,
    /// The index of the active workspace in `workspaces`.
    pub active_workspace_idx: usize,
    /// The id of the open workspace, if one is open.
    pub active_workspace_id: Option<u128>,
}

/// The localized labels the palette shows: one per action in registry
/// order, and the kind prefixes of project and workspace entries.
#[derive(Debug, Clone)]
pub struct PaletteLabels {
    pub actions: Vec<String>,
    pub project_kind: String,
    pub workspace_kind: String,
}

// ---------------------------------------------------------------------------
// Registry
// ---------------------------------------------------------------------------

/// The actions, in the order the palette lists them.
pub open spec fn spec_actions() -> Seq<PaletteActionId> {
    seq![
        PaletteActionId::FetchAll,
        PaletteActionId::PullSelected,
        PaletteActionId::TagSelected,
        PaletteActionId::SwitchSelected,
        PaletteActionId::ChangelogSelected,
        PaletteActionId::AddProject,
        PaletteActionId::RemoveProject,
        PaletteActionId::WorkspaceCreate,
        PaletteActionId::WorkspaceNext,
        PaletteActionId::SelectAll,
        PaletteActionId::SelectionClear,
        PaletteActionId::SettingsOpen,
        PaletteActionId::HistoryOpen,
        PaletteActionId::ToggleTheme,
        PaletteActionId::Refresh,
        PaletteActionId::ShortcutsShow,
    ]
}

/// The actions, in the order the palette lists them.
pub fn actions() -> (r: Vec<PaletteActionId>)
    ensures
        r@ == spec_actions(),
{
    let r = vec![
        PaletteActionId::FetchAll,
        PaletteActionId::PullSelected,
        PaletteActionId::TagSelected,
        PaletteActionId::SwitchSelected,
        PaletteActionId::ChangelogSelected,
        PaletteActionId::AddProject,
        PaletteActionId::RemoveProject,
        PaletteActionId::WorkspaceCreate,
        PaletteActionId::WorkspaceNext,
        PaletteActionId::SelectAll,
        PaletteActionId::SelectionClear,
        PaletteActionId::SettingsOpen,
        PaletteActionId::HistoryOpen,
        PaletteActionId::ToggleTheme,
        PaletteActionId::Refresh,
        PaletteActionId::ShortcutsShow,
    ];
    assert(r@ =~= spec_actions());
    r
}

pub open spec fn spec_action_key(a: PaletteActionId) -> &'static str {
    match a {
        PaletteActionId::FetchAll => "action.fetch_all",
        PaletteActionId::PullSelected => "action.pull_selected",
        PaletteActionId::TagSelected => "action.tag_selected",
        PaletteActionId::SwitchSelected => "action.switch_selected",
        PaletteActionId::ChangelogSelected => "action.changelog_selected",
        PaletteActionId::AddProject => "action.add_project",
        PaletteActionId::RemoveProject => "action.remove_project",
        PaletteActionId::WorkspaceCreate => "action.workspace_create",
        PaletteActionId::WorkspaceNext => "action.workspace_next",
        PaletteActionId::SelectAll => "action.select_all",
        PaletteActionId::SelectionClear => "action.selection_clear",
        PaletteActionId::SettingsOpen => "action.settings_open",
        PaletteActionId::HistoryOpen => "action.history_open",
        PaletteActionId::ToggleTheme => "action.toggle_theme",
        PaletteActionId::Refresh => "action.refresh",
        PaletteActionId::ShortcutsShow => "action.shortcuts_show",
    }
}

/// The stable machine id of an action, which queries also match against.
pub fn action_key(a: PaletteActionId) -> (r: &'static str)
    ensures
        r == spec_action_key(a),
{
    match a {
        PaletteActionId::FetchAll => "action.fetch_all",
        PaletteActionId::PullSelected => "action.pull_selected",
        PaletteActionId::TagSelected => "action.tag_selected",
        PaletteActionId::SwitchSelected => "action.switch_selected",
        PaletteActionId::ChangelogSelected => "action.changelog_selected",
        PaletteActionId::AddProject => "action.add_project",
        PaletteActionId::RemoveProject => "action.remove_project",
        PaletteActionId::WorkspaceCreate => "action.workspace_create",
        PaletteActionId::WorkspaceNext => "action.workspace_next",
        PaletteActionId::SelectAll => "action.select_all",
        PaletteActionId::SelectionClear => "action.selection_clear",
        PaletteActionId::SettingsOpen => "action.settings_open",
        PaletteActionId::HistoryOpen => "action.history_open",
        PaletteActionId::ToggleTheme => "action.toggle_theme",
        PaletteActionId::Refresh => "action.refresh",
        PaletteActionId::ShortcutsShow => "action.shortcuts_show",
    }
}

/// The catalog key of an action's label.
pub fn label_key(a: PaletteActionId) -> (r: &'static str)
    ensures
        r == (match a {
            PaletteActionId::FetchAll => "palette.action.check_all",
            PaletteActionId::PullSelected => "plain.get_latest",
            PaletteActionId::TagSelected => "plain.save_release_point",
            PaletteActionId::SwitchSelected => "plain.change_work_area",
            PaletteActionId::ChangelogSelected => "palette.action.changelog_selected",
            PaletteActionId::AddProject => "palette.action.add_project",
            PaletteActionId::RemoveProject => "palette.action.remove_project",
            PaletteActionId::WorkspaceCreate => "palette.action.workspace_create",
            PaletteActionId::WorkspaceNext => "palette.action.workspace_next",
            PaletteActionId::SelectAll => "plain.select_visible_projects",
            PaletteActionId::SelectionClear => "palette.action.clear_selection",
            PaletteActionId::SettingsOpen => "palette.action.open_settings",
            PaletteActionId::HistoryOpen => "palette.action.open_history",
            PaletteActionId::ToggleTheme => "palette.action.toggle_theme",
            PaletteActionId::Refresh => "palette.action.refresh",
            PaletteActionId::ShortcutsShow => "palette.action.shortcuts",
        }),
{
    match a {
        PaletteActionId::FetchAll => "palette.action.check_all",
        PaletteActionId::PullSelected => "plain.get_latest",
        PaletteActionId::TagSelected => "plain.save_release_point",
        PaletteActionId::SwitchSelected => "plain.change_work_area",
        PaletteActionId::ChangelogSelected => "palette.action.changelog_selected",
        PaletteActionId::AddProject => "palette.action.add_project",
        PaletteActionId::RemoveProject => "palette.action.remove_project",
        PaletteActionId::WorkspaceCreate => "palette.action.workspace_create",
        PaletteActionId::WorkspaceNext => "palette.action.workspace_next",
        PaletteActionId::SelectAll => "plain.select_visible_projects",
        PaletteActionId::SelectionClear => "palette.action.clear_selection",
        PaletteActionId::SettingsOpen => "palette.action.open_settings",
        PaletteActionId::HistoryOpen => "palette.action.open_history",
        PaletteActionId::ToggleTheme => "palette.action.toggle_theme",
        PaletteActionId::Refresh => "palette.action.refresh",
        PaletteActionId::ShortcutsShow => "palette.action.shortcuts",
    }
}

// ---------------------------------------------------------------------------
// Availability
// ---------------------------------------------------------------------------

pub open spec fn spec_unless_busy(ctx: PaletteContext, inner: PaletteAvailability) -> PaletteAvailability {
    if ctx.busy {
        PaletteAvailability::Disabled("plain.activity.busy")
    } else {
        inner
    }
}

/// Some project in `ps` is not missing.
pub open spec fn any_fetchable(ps: Seq<PaletteItem>, missing: Set<u128>) -> bool {
    exists|i: int| 0 <= i < ps.len() && !missing.contains(#[trigger] ps[i].id)
}

pub open spec fn spec_fetchable(ctx: PaletteContext) -> PaletteAvailability {
    match ctx.workspace_projects {
        None => PaletteAvailability::Disabled("palette.disabled.no_workspace"),
        Some(ps) => if any_fetchable(ps@, ctx.missing_projects@) {
            PaletteAvailability::Enabled
        } else {
            PaletteAvailability::Disabled("palette.disabled.no_fetchable_projects")
        },
    }
}

pub open spec fn spec_has_upstream(ctx: PaletteContext) -> PaletteAvailability {
    if ctx.selected_ids@.len() == 0 {
        PaletteAvailability::Disabled("plain.disabled.choose_one")
    } else if ctx.has_upstream {
        PaletteAvailability::Enabled
    } else {
        PaletteAvailability::Disabled("plain.disabled.no_upstream")
    }
}

pub open spec fn spec_non_empty(ctx: PaletteContext) -> PaletteAvailability {
    if ctx.selected_ids@.len() > 0 {
        PaletteAvailability::Enabled
    } else {
        PaletteAvailability::Disabled("plain.disabled.choose_one")
    }
}

pub open spec fn spec_exactly_one(ctx: PaletteContext, many: &'static str) -> PaletteAvailability {
    if ctx.selected_ids@.len() == 1 {
        PaletteAvailability::Enabled
    } else if ctx.selected_ids@.len() == 0 {
        PaletteAvailability::Disabled("plain.disabled.choose_one")
    } else {
        PaletteAvailability::Disabled(many)
    }
}

/// Whether `a` can be chosen in `ctx`.
pub open spec fn spec_availability(a: PaletteActionId, ctx: PaletteContext) -> PaletteAvailability {
    match a {
        PaletteActionId::FetchAll => spec_unless_busy(ctx, spec_fetchable(ctx)),
        PaletteActionId::PullSelected => spec_unless_busy(ctx, spec_has_upstream(ctx)),
        PaletteActionId::TagSelected => spec_unless_busy(ctx, spec_non_empty(ctx)),
        PaletteActionId::SwitchSelected => spec_unless_busy(
            ctx,
            spec_exactly_one(ctx, "plain.selection.choose_one_work_area"),
        ),
        PaletteActionId::ChangelogSelected => spec_non_empty(ctx),
        PaletteActionId::RemoveProject => spec_exactly_one(ctx, "palette.disabled.choose_one_to_remove"),
        PaletteActionId::WorkspaceNext => if ctx.workspaces@.len() > 1 {
            PaletteAvailability::Enabled
        } else {
            PaletteAvailability::Disabled("palette.disabled.only_one_workspace")
        },
        PaletteActionId::SelectAll => if ctx.visible_count == 0 {
            PaletteAvailability::Disabled("plain.selection.no_visible_projects")
        } else {
            PaletteAvailability::Enabled
        },
        PaletteActionId::SelectionClear => if ctx.selection_mode || ctx.selected_ids@.len() > 0 {
            PaletteAvailability::Enabled
        } else {
            PaletteAvailability::Disabled("palette.disabled.no_selection_to_clear")
        },
        PaletteActionId::ToggleTheme => PaletteAvailability::Hidden,
        PaletteActionId::AddProject | PaletteActionId::WorkspaceCreate | PaletteActionId::SettingsOpen
        | PaletteActionId::HistoryOpen | PaletteActionId::Refresh | PaletteActionId::ShortcutsShow =>
            PaletteAvailability::Enabled,
    }
}

fn unless_busy(ctx: &PaletteContext, inner: PaletteAvailability) -> (r: PaletteAvailability)
    ensures
        r == spec_unless_busy(*ctx, inner),
{
    if ctx.busy {
        PaletteAvailability::Disabled("plain.activity.busy")
    } else {
        inner
    }
}

fn workspace_has_fetchable_project(ctx: &PaletteContext) -> (r: PaletteAvailability)
    ensures
        r == spec_fetchable(*ctx),
{
    match &ctx.workspace_projects {
        None => PaletteAvailability::Disabled("palette.disabled.no_workspace"),
        Some(ps) => {
            let mut i: usize = 0;
            while i < ps.len()
                invariant
                    i <= ps@.len(),
                    ctx.workspace_projects == Some(*ps),
                    forall|j: int| 0 <= j < i ==> ctx.missing_projects@.contains(#[trigger] ps@[j].id),
                decreases ps@.len() - i,
            {
                if !ctx.missing_projects.contains(&ps[i].id) {
                    assert(!ctx.missing_projects@.contains(ps@[i as int].id));
                    assert(any_fetchable(ps@, ctx.missing_projects@));
                    return PaletteAvailability::Enabled;
                }
                i = i + 1;
            }
            PaletteAvailability::Disabled("palette.disabled.no_fetchable_projects")
        },
    }
}

fn exactly_one(ctx: &PaletteContext, many: &'static str) -> (r: PaletteAvailability)
    ensures
        r == spec_exactly_one(*ctx, many),
{
    let n = ctx.selected_ids.len();
    if n == 1 {
        PaletteAvailability::Enabled
    } else if n == 0 {
        PaletteAvailability::Disabled("plain.disabled.choose_one")
    } else {
        PaletteAvailability::Disabled(many)
    }
}

fn non_empty(ctx: &PaletteContext) -> (r: PaletteAvailability)
    ensures
        r == spec_non_empty(*ctx),
{
    if ctx.selected_ids.len() > 0 {
        PaletteAvailability::Enabled
    } else {
        PaletteAvailability::Disabled("plain.disabled.choose_one")
    }
}

/// Whether `a` can be chosen in `ctx`.
pub fn availability(a: PaletteActionId, ctx: &PaletteContext) -> (r: PaletteAvailability)
    ensures
        r == spec_availability(a, *ctx),
{
    match a {
        PaletteActionId::FetchAll => unless_busy(ctx, workspace_has_fetchable_project(ctx)),
        PaletteActionId::PullSelected => {
            let inner = if ctx.selected_ids.len() == 0 {
                PaletteAvailability::Disabled("plain.disabled.choose_one")
            } else if ctx.has_upstream {
                PaletteAvailability::Enabled
            } else {
                PaletteAvailability::Disabled("plain.disabled.no_upstream")
            };
            unless_busy(ctx, inner)
        },
        PaletteActionId::TagSelected => unless_busy(ctx, non_empty(ctx)),
        PaletteActionId::SwitchSelected => unless_busy(
            ctx,
            exactly_one(ctx, "plain.selection.choose_one_work_area"),
        ),
        PaletteActionId::ChangelogSelected => non_empty(ctx),
        PaletteActionId::RemoveProject => exactly_one(ctx, "palette.disabled.choose_one_to_remove"),
        PaletteActionId::WorkspaceNext => if ctx.workspaces.len() > 1 {
            PaletteAvailability::Enabled
        } else {
            PaletteAvailability::Disabled("palette.disabled.only_one_workspace")
        },
        PaletteActionId::SelectAll => if ctx.visible_count == 0 {
            PaletteAvailability::Disabled("plain.selection.no_visible_projects")
        } else {
            PaletteAvailability::Enabled
        },
        PaletteActionId::SelectionClear => if ctx.selection_mode || ctx.selected_ids.len() > 0 {
            PaletteAvailability::Enabled
        } else {
            PaletteAvailability::Disabled("palette.disabled.no_selection_to_clear")
        },
        PaletteActionId::ToggleTheme => PaletteAvailability::Hidden,
        PaletteActionId::AddProject | PaletteActionId::WorkspaceCreate | PaletteActionId::SettingsOpen
        | PaletteActionId::HistoryOpen | PaletteActionId::Refresh | PaletteActionId::ShortcutsShow =>
            PaletteAvailability::Enabled,
    }
}

/// The reason shown for an availability: its key when disabled, else none.
pub open spec fn spec_disabled_reason(availability: PaletteAvailability) -> Option<&'static str> {
    match availability {
        PaletteAvailability::Enabled | PaletteAvailability::Hidden => None,
        PaletteAvailability::Disabled(reason) => Some(reason),
    }
}

pub fn disabled_reason(availability: PaletteAvailability) -> (r: Option<&'static str>)
    ensures
        r == spec_disabled_reason(availability),
{
    match availability {
        PaletteAvailability::Enabled | PaletteAvailability::Hidden => None,
        PaletteAvailability::Disabled(reason) => Some(reason),
    }
}

/// An empty query matches everything; otherwise the lower-cased label must
/// contain the (already lower-cased) query.
pub open spec fn spec_matches_query(query: Seq<char>, label: Seq<char>) -> bool {
    query.len() == 0 || has_substring(folded(label), query)
}

pub fn matches_query(query: &str, label: &str) -> (r: bool)
    ensures
        r == spec_matches_query(query@, label@),
{
    query.is_empty() || str_contains(to_lowercase(label).as_str(), query)
}


// ---------------------------------------------------------------------------
// Results
// ---------------------------------------------------------------------------

/// A palette entry by its values: kind, label characters, payload, reason.
pub open spec fn entry_view(e: PaletteEntry) -> (PaletteEntryKind, Seq<char>, PalettePayload, Option<&'static str>) {
    (e.kind, e.label@, e.payload, e.disabled_reason_key)
}

pub open spec fn entries_view(v: Seq<PaletteEntry>) -> Seq<(PaletteEntryKind, Seq<char>, PalettePayload, Option<&'static str>)> {
    v.map_values(|e: PaletteEntry| entry_view(e))
}

/// The label of a project or workspace entry: the kind, a colon, the name.
pub open spec fn kind_label(prefix: Seq<char>, name: Seq<char>) -> Seq<char> {
    prefix + ": "@ + name
}

/// Entries for the first `n` actions: each that is not hidden and whose label
/// or id matches the query, with its disabled reason.
pub open spec fn action_results(ctx: PaletteContext, labels: Seq<String>, q: Seq<char>, n: nat) -> Seq<
    (PaletteEntryKind, Seq<char>, PalettePayload, Option<&'static str>),
>
    decreases n,
{
    if n == 0 || n > spec_actions().len() {
        seq![]
    } else {
        let prev = action_results(ctx, labels, q, (n - 1) as nat);
        let a = spec_actions()[n - 1];
        let av = spec_availability(a, ctx);
        if av is Hidden {
            prev
        } else if spec_matches_query(q, labels[n - 1]@) || spec_matches_query(q, spec_action_key(a)@) {
            prev.push((PaletteEntryKind::Action, labels[n - 1]@, PalettePayload::Action(a), spec_disabled_reason(av)))
        } else {
            prev
        }
    }
}

/// Entries for the first `n` projects whose label matches the query.
pub open spec fn project_results(ps: Seq<PaletteItem>, prefix: Seq<char>, q: Seq<char>, n: nat) -> Seq<
    (PaletteEntryKind, Seq<char>, PalettePayload, Option<&'static str>),
>
    decreases n,
{
    if n == 0 || n > ps.len() {
        seq![]
    } else {
        let prev = project_results(ps, prefix, q, (n - 1) as nat);
        let p = ps[n - 1];
        let label = kind_label(prefix, p.name@);
        if spec_matches_query(q, label) {
            prev.push((PaletteEntryKind::Project, label, PalettePayload::Project(p.id), None))
        } else {
            prev
        }
    }
}

/// Entries for the first `n` workspaces whose label matches the query; the
/// open workspace cannot be chosen again.
pub open spec fn workspace_results(
    ws: Seq<PaletteItem>,
    active: Option<u128>,
    prefix: Seq<char>,
    q: Seq<char>,
    n: nat,
) -> Seq<(PaletteEntryKind, Seq<char>, PalettePayload, Option<&'static str>)>
    decreases n,
{
    if n == 0 || n > ws.len() {
        seq![]
    } else {
        let prev = workspace_results(ws, active, prefix, q, (n - 1) as nat);
        let w = ws[n - 1];
        let label = kind_label(prefix, w.name@);
        if spec_matches_query(q, label) {
            prev.push(
                (
                    PaletteEntryKind::Workspace,
                    label,
                    PalettePayload::Workspace(w.id),
                    if active == Some(w.id) {
                        Some("palette.disabled.already_open")
                    } else {
                        None
                    },
                ),
            )
        } else {
            prev
        }
    }
}

/// Every matching entry: actions, then the open workspace's projects, then workspaces.
pub open spec fn spec_results(ctx: PaletteContext, labels: PaletteLabels, q: Seq<char>) -> Seq<
    (PaletteEntryKind, Seq<char>, PalettePayload, Option<&'static str>),
> {
    action_results(ctx, labels.actions@, q, spec_actions().len()) + match ctx.workspace_projects {
        Some(ps) => project_results(ps@, labels.project_kind@, q, ps@.len()),
        None => seq![],
    } + workspace_results(
        ctx.workspaces@,
        ctx.active_workspace_id,
        labels.workspace_kind@,
        q,
        ctx.workspaces@.len(),
    )
}

/// The most results the palette shows.
pub open spec fn result_limit() -> nat {
    12
}

fn push_entry(
    out: &mut Vec<PaletteEntry>,
    kind: PaletteEntryKind,
    label: String,
    payload: PalettePayload,
    disabled_reason_key: Option<&'static str>,
)
    ensures
        entries_view(final(out)@) == entries_view(old(out)@).push(
            (kind, label@, payload, disabled_reason_key),
        ),
{
    out.push(PaletteEntry { kind, label, payload, disabled_reason_key });
    assert(entries_view(out@) =~= entries_view(old(out)@).push((kind, label@, payload, disabled_reason_key)));
}

fn kind_label_of(prefix: &String, name: &String) -> (r: String)
    ensures
        r@ == kind_label(prefix@, name@),
{
    let a = String::from_str(prefix.as_str());
    let b = a.concat(": ");
    b.concat(name.as_str())
}

/// Recomputes the results for the current query, keeps the first twelve, and
/// moves the highlight onto the last result when it has fallen off the end.
pub fn update_results(palette: &mut PaletteState, ctx: &PaletteContext, labels: &PaletteLabels)
    requires
        labels.actions@.len() == spec_actions().len(),
    ensures
        ({
            let all = spec_results(*ctx, *labels, folded(old(palette).query@));
            let len = if all.len() < result_limit() {
                all.len()
            } else {
                result_limit()
            };
            &&& entries_view(final(palette).results@) == all.take(len as int)
            &&& final(palette).highlighted == if old(palette).highlighted >= len {
                if len == 0 {
                    0
                } else {
                    (len - 1) as usize
                }
            } else {
                old(palette).highlighted
            }
        }),
        final(palette).open == old(palette).open,
        final(palette).query@ == old(palette).query@,
        final(palette).results@.len() <= result_limit(),
        final(palette).results@.len() == 0 ==> final(palette).highlighted == 0,
        final(palette).results@.len() > 0 ==> final(palette).highlighted < final(palette).results@.len(),
        forall|k: int|
            0 <= k < final(palette).results@.len() ==> !(#[trigger] spec_dispatch_entry(
                with_highlight(*final(palette), k),
                *ctx,
            ) is Noop),
{
    let q = to_lowercase(palette.query.as_str());
    let acts = actions();
    let mut entries: Vec<PaletteEntry> = Vec::new();
    let mut i: usize = 0;
    assert(entries_view(entries@) =~= action_results(*ctx, labels.actions@, q@, 0));
    while i < acts.len()
        invariant
            i <= acts@.len(),
            acts@ == spec_actions(),
            labels.actions@.len() == spec_actions().len(),
            entries_view(entries@) == action_results(*ctx, labels.actions@, q@, i as nat),
        decreases acts@.len() - i,
    {
        let a = acts[i];
        let av = availability(a, ctx);
        match av {
            PaletteAvailability::Hidden => {},
            _ => {
                let label = labels.actions[i].clone();
                if matches_query(q.as_str(), label.as_str()) || matches_query(q.as_str(), action_key(a)) {
                    push_entry(&mut entries, PaletteEntryKind::Action, label, PalettePayload::Action(a), disabled_reason(av));
                }
            },
        }
        i = i + 1;
    }
    let ghost base = entries@;
    match &ctx.workspace_projects {
        Some(ps) => {
            let mut j: usize = 0;
            assert(entries_view(entries@) =~= entries_view(base) + project_results(ps@, labels.project_kind@, q@, 0));
            while j < ps.len()
                invariant
                    j <= ps@.len(),
                    entries_view(entries@) == entries_view(base) + project_results(ps@, labels.project_kind@, q@, j as nat),
                decreases ps@.len() - j,
            {
                let label = kind_label_of(&labels.project_kind, &ps[j].name);
                if matches_query(q.as_str(), label.as_str()) {
                    push_entry(&mut entries, PaletteEntryKind::Project, label, PalettePayload::Project(ps[j].id), None);
                }
                assert(entries_view(base) + project_results(ps@, labels.project_kind@, q@, (j + 1) as nat)
                    =~= if spec_matches_query(q@, kind_label(labels.project_kind@, ps@[j as int].name@)) {
                    (entries_view(base) + project_results(ps@, labels.project_kind@, q@, j as nat)).push(
                        (PaletteEntryKind::Project, kind_label(labels.project_kind@, ps@[j as int].name@), PalettePayload::Project(ps@[j as int].id), None),
                    )
                } else {
                    entries_view(base) + project_results(ps@, labels.project_kind@, q@, j as nat)
                });
                j = j + 1;
            }
        },
        None => {
            assert(entries_view(entries@) =~= entries_view(base) + Seq::empty());
        },
    }
    let ghost base2 = entries@;
    let mut k: usize = 0;
    assert(entries_view(entries@) =~= entries_view(base2) + workspace_results(ctx.workspaces@, ctx.active_workspace_id, labels.workspace_kind@, q@, 0));
    while k < ctx.workspaces.len()
        invariant
            k <= ctx.workspaces@.len(),
            entries_view(entries@) == entries_view(base2) + workspace_results(ctx.workspaces@, ctx.active_workspace_id, labels.workspace_kind@, q@, k as nat),
        decreases ctx.workspaces@.len() - k,
    {
        let w = &ctx.workspaces[k];
        let label = kind_label_of(&labels.workspace_kind, &w.name);
        if matches_query(q.as_str(), label.as_str()) {
            let disabled = match ctx.active_workspace_id {
                Some(active) => if active == w.id {
                    Some("palette.disabled.already_open")
                } else {
                    None
                },
                None => None,
            };
            push_entry(&mut entries, PaletteEntryKind::Workspace, label, PalettePayload::Workspace(w.id), disabled);
        }
        assert(entries_view(base2) + workspace_results(ctx.workspaces@, ctx.active_workspace_id, labels.workspace_kind@, q@, (k + 1) as nat)
            =~= if spec_matches_query(q@, kind_label(labels.workspace_kind@, ctx.workspaces@[k as int].name@)) {
            (entries_view(base2) + workspace_results(ctx.workspaces@, ctx.active_workspace_id, labels.workspace_kind@, q@, k as nat)).push(
                (PaletteEntryKind::Workspace, kind_label(labels.workspace_kind@, ctx.workspaces@[k as int].name@), PalettePayload::Workspace(ctx.workspaces@[k as int].id),
                if ctx.active_workspace_id == Some(ctx.workspaces@[k as int].id) { Some("palette.disabled.already_open") } else { None }),
            )
        } else {
            entries_view(base2) + workspace_results(ctx.workspaces@, ctx.active_workspace_id, labels.workspace_kind@, q@, k as nat)
        });
        k = k + 1;
    }
    let ghost all = entries_view(entries@);
    assert(all =~= spec_results(*ctx, *labels, q@));
    entries.truncate(12);
    assert(entries_view(entries@) =~= all.take(entries@.len() as int));
    let len = entries.len();
    palette.results = entries;
    if palette.highlighted >= len {
        palette.highlighted = if len == 0 {
            0
        } else {
            len - 1
        };
    }
    proof {
        lemma_results_live(*ctx, *labels, q@);
        assert forall|k: int| 0 <= k < palette.results@.len() implies !(#[trigger] spec_dispatch_entry(
            with_highlight(*palette, k),
            *ctx,
        ) is Noop) by {
            assert(entries_view(palette.results@)[k] == entry_view(palette.results@[k]));
            assert(entry_live(all[k], *ctx));
            lemma_live_entry_never_noop(with_highlight(*palette, k), *ctx);
        }
    }
}

// ---------------------------------------------------------------------------
// Dispatch
// ---------------------------------------------------------------------------

/// The command an action sends when it is enabled, if it sends one.
pub open spec fn spec_action_command(a: PaletteActionId, ctx: PaletteContext) -> Option<PaletteCommand> {
    match a {
        PaletteActionId::FetchAll => Some(PaletteCommand::BulkFetchAll),
        PaletteActionId::PullSelected => Some(PaletteCommand::BulkPull),
        PaletteActionId::TagSelected => Some(PaletteCommand::FreezerOpen),
        PaletteActionId::SwitchSelected => Some(PaletteCommand::ContextOpen),
        PaletteActionId::ChangelogSelected => Some(PaletteCommand::ChangelogOpen),
        PaletteActionId::AddProject => Some(PaletteCommand::AddProjectDialogOpened),
        PaletteActionId::RemoveProject => if ctx.selected_ids@.len() > 0 {
            Some(PaletteCommand::RemoveProjectRequested(ctx.selected_ids@[0]))
        } else {
            None
        },
        PaletteActionId::WorkspaceCreate => Some(PaletteCommand::CreateWorkspaceDialogOpened),
        PaletteActionId::WorkspaceNext => if ctx.workspaces@.len() < 2 {
            None
        } else {
            Some(
                PaletteCommand::WorkspaceSwitched(
                    ctx.workspaces@[((ctx.active_workspace_idx + 1) % (ctx.workspaces@.len() as int))].id,
                ),
            )
        },
        PaletteActionId::SelectAll => Some(PaletteCommand::SelectAll),
        PaletteActionId::SelectionClear => Some(PaletteCommand::SelectionClear),
        PaletteActionId::SettingsOpen => Some(PaletteCommand::Navigate(Screen::Settings)),
        PaletteActionId::HistoryOpen => Some(PaletteCommand::Navigate(Screen::History)),
        PaletteActionId::ToggleTheme => None,
        PaletteActionId::Refresh => Some(PaletteCommand::Refresh),
        PaletteActionId::ShortcutsShow => Some(PaletteCommand::CheatSheetToggled),
    }
}

/// Choosing an action: its command when enabled, its reason when disabled,
/// nothing when hidden or when it has no command.
pub open spec fn spec_dispatch_action(a: PaletteActionId, ctx: PaletteContext) -> PaletteDispatch {
    match spec_availability(a, ctx) {
        PaletteAvailability::Enabled => match spec_action_command(a, ctx) {
            Some(c) => PaletteDispatch::Dispatched(c),
            None => PaletteDispatch::Noop,
        },
        PaletteAvailability::Disabled(reason) => PaletteDispatch::Disabled(reason),
        PaletteAvailability::Hidden => PaletteDispatch::Noop,
    }
}

fn action_command(a: PaletteActionId, ctx: &PaletteContext) -> (r: Option<PaletteCommand>)
    ensures
        r == spec_action_command(a, *ctx),
{
    match a {
        PaletteActionId::FetchAll => Some(PaletteCommand::BulkFetchAll),
        PaletteActionId::PullSelected => Some(PaletteCommand::BulkPull),
        PaletteActionId::TagSelected => Some(PaletteCommand::FreezerOpen),
        PaletteActionId::SwitchSelected => Some(PaletteCommand::ContextOpen),
        PaletteActionId::ChangelogSelected => Some(PaletteCommand::ChangelogOpen),
        PaletteActionId::AddProject => Some(PaletteCommand::AddProjectDialogOpened),
        PaletteActionId::RemoveProject => if ctx.selected_ids.len() > 0 {
            Some(PaletteCommand::RemoveProjectRequested(ctx.selected_ids[0]))
        } else {
            None
        },
        PaletteActionId::WorkspaceCreate => Some(PaletteCommand::CreateWorkspaceDialogOpened),
        PaletteActionId::WorkspaceNext => {
            let len = ctx.workspaces.len();
            if len < 2 {
                None
            } else {
                let next = (ctx.active_workspace_idx % len + 1) % len;
                proof {
                    lemma_next_index(ctx.active_workspace_idx as int, len as int);
                }
                Some(PaletteCommand::WorkspaceSwitched(ctx.workspaces[next].id))
            }
        },
        PaletteActionId::SelectAll => Some(PaletteCommand::SelectAll),
        PaletteActionId::SelectionClear => Some(PaletteCommand::SelectionClear),
        PaletteActionId::SettingsOpen => Some(PaletteCommand::Navigate(Screen::Settings)),
        PaletteActionId::HistoryOpen => Some(PaletteCommand::Navigate(Screen::History)),
        PaletteActionId::ToggleTheme => None,
        PaletteActionId::Refresh => Some(PaletteCommand::Refresh),
        PaletteActionId::ShortcutsShow => Some(PaletteCommand::CheatSheetToggled),
    }
}

proof fn lemma_next_index(i: int, n: int)
    requires
        i >= 0,
        n > 1,
    ensures
        (i % n + 1) % n == (i + 1) % n,
{
    vstd::arithmetic::div_mod::lemma_add_mod_noop(i, 1, n);
    vstd::arithmetic::div_mod::lemma_small_mod(1nat, n as nat);
}

/// Choosing action `a` in `ctx`.
pub fn dispatch_action(a: PaletteActionId, ctx: &PaletteContext) -> (r: PaletteDispatch)
    ensures
        r == spec_dispatch_action(a, *ctx),
{
    match availability(a, ctx) {
        PaletteAvailability::Enabled => match action_command(a, ctx) {
            Some(c) => PaletteDispatch::Dispatched(c),
            None => PaletteDispatch::Noop,
        },
        PaletteAvailability::Disabled(reason) => PaletteDispatch::Disabled(reason),
        PaletteAvailability::Hidden => PaletteDispatch::Noop,
    }
}

/// Every action the palette lists does something when chosen: it is either
/// dispatched or refused with a reason, never silently ignored.
pub proof fn lemma_listed_actions_never_noop(a: PaletteActionId, ctx: PaletteContext)
    requires
        !(spec_availability(a, ctx) is Hidden),
    ensures
        !(spec_dispatch_action(a, ctx) is Noop),
{
}

/// Some item of `items` has id `id`.
pub open spec fn has_item(items: Seq<PaletteItem>, id: u128) -> bool {
    exists|i: int| 0 <= i < items.len() && #[trigger] items[i].id == id
}

fn contains_item(items: &Vec<PaletteItem>, id: u128) -> (r: bool)
    ensures
        r == has_item(items@, id),
{
    let mut i: usize = 0;
    while i < items.len()
        invariant
            i <= items@.len(),
            forall|j: int| 0 <= j < i ==> #[trigger] items@[j].id != id,
        decreases items@.len() - i,
    {
        if items[i].id == id {
            assert(items@[i as int].id == id);
            return true;
        }
        i = i + 1;
    }
    false
}

/// Choosing the highlighted entry: nothing when no entry is highlighted; the
/// reason when the entry is disabled; otherwise the action's dispatch, a
/// switch to a known workspace, or the detail panel of a project of the open
/// workspace (nothing when the workspace or project is no longer there).
pub open spec fn spec_dispatch_entry(palette: PaletteState, ctx: PaletteContext) -> PaletteDispatch {
    if palette.highlighted >= palette.results@.len() {
        PaletteDispatch::Noop
    } else {
        let e = palette.results@[palette.highlighted as int];
        match e.disabled_reason_key {
            Some(reason) => PaletteDispatch::Disabled(reason),
            None => match e.payload {
                PalettePayload::Action(a) => spec_dispatch_action(a, ctx),
                PalettePayload::Workspace(id) => if has_item(ctx.workspaces@, id) {
                    PaletteDispatch::Dispatched(PaletteCommand::WorkspaceSwitched(id))
                } else {
                    PaletteDispatch::Noop
                },
                PalettePayload::Project(id) => match ctx.workspace_projects {
                    Some(ps) => if has_item(ps@, id) {
                        PaletteDispatch::Dispatched(PaletteCommand::DetailPanelOpened(id))
                    } else {
                        PaletteDispatch::Noop
                    },
                    None => PaletteDispatch::Noop,
                },
            },
        }
    }
}

/// The palette with row `k` highlighted.
pub open spec fn with_highlight(p: PaletteState, k: int) -> PaletteState {
    PaletteState { highlighted: k as usize, ..p }
}

/// An entry does something when chosen: it is refused with a reason, or it
/// is a listed action, a project of the open workspace, or a known workspace.
pub open spec fn entry_live(
    e: (PaletteEntryKind, Seq<char>, PalettePayload, Option<&'static str>),
    ctx: PaletteContext,
) -> bool {
    e.3 is Some || match e.2 {
        PalettePayload::Action(a) => !(spec_availability(a, ctx) is Hidden),
        PalettePayload::Project(id) => ctx.workspace_projects matches Some(ps) && has_item(ps@, id),
        PalettePayload::Workspace(id) => has_item(ctx.workspaces@, id),
    }
}

proof fn lemma_action_results_live(ctx: PaletteContext, labels: Seq<String>, q: Seq<char>, n: nat)
    ensures
        forall|k: int| 0 <= k < action_results(ctx, labels, q, n).len() ==> entry_live(
            #[trigger] action_results(ctx, labels, q, n)[k],
            ctx,
        ),
    decreases n,
{
    if n > 0 && n <= spec_actions().len() {
        lemma_action_results_live(ctx, labels, q, (n - 1) as nat);
        let prev = action_results(ctx, labels, q, (n - 1) as nat);
        assert forall|k: int| 0 <= k < action_results(ctx, labels, q, n).len() implies entry_live(
            #[trigger] action_results(ctx, labels, q, n)[k],
            ctx,
        ) by {
            if k < prev.len() {
                assert(action_results(ctx, labels, q, n)[k] == prev[k]);
            }
        }
    }
}

proof fn lemma_project_results_live(ctx: PaletteContext, ps: Seq<PaletteItem>, prefix: Seq<char>, q: Seq<char>, n: nat)
    requires
        ctx.workspace_projects matches Some(v) && v@ == ps,
    ensures
        forall|k: int| 0 <= k < project_results(ps, prefix, q, n).len() ==> entry_live(
            #[trigger] project_results(ps, prefix, q, n)[k],
            ctx,
        ),
    decreases n,
{
    if n > 0 && n <= ps.len() {
        lemma_project_results_live(ctx, ps, prefix, q, (n - 1) as nat);
        let prev = project_results(ps, prefix, q, (n - 1) as nat);
        assert forall|k: int| 0 <= k < project_results(ps, prefix, q, n).len() implies entry_live(
            #[trigger] project_results(ps, prefix, q, n)[k],
            ctx,
        ) by {
            if k < prev.len() {
                assert(project_results(ps, prefix, q, n)[k] == prev[k]);
            } else {
                assert(ps[n - 1].id == ps[n - 1].id);
                assert(has_item(ps, ps[n - 1].id));
            }
        }
    }
}

proof fn lemma_workspace_results_live(
    ctx: PaletteContext,
    prefix: Seq<char>,
    q: Seq<char>,
    n: nat,
)
    ensures
        forall|k: int| 0 <= k < workspace_results(ctx.workspaces@, ctx.active_workspace_id, prefix, q, n).len() ==> entry_live(
            #[trigger] workspace_results(ctx.workspaces@, ctx.active_workspace_id, prefix, q, n)[k],
            ctx,
        ),
    decreases n,
{
    let ws = ctx.workspaces@;
    if n > 0 && n <= ws.len() {
        lemma_workspace_results_live(ctx, prefix, q, (n - 1) as nat);
        let prev = workspace_results(ws, ctx.active_workspace_id, prefix, q, (n - 1) as nat);
        assert forall|k: int| 0 <= k < workspace_results(ws, ctx.active_workspace_id, prefix, q, n).len() implies entry_live(
            #[trigger] workspace_results(ws, ctx.active_workspace_id, prefix, q, n)[k],
            ctx,
        ) by {
            if k < prev.len() {
                assert(workspace_results(ws, ctx.active_workspace_id, prefix, q, n)[k] == prev[k]);
            } else {
                assert(has_item(ws, ws[n - 1].id));
            }
        }
    }
}

/// Every result the palette computes does something when chosen.
pub proof fn lemma_results_live(ctx: PaletteContext, labels: PaletteLabels, q: Seq<char>)
    ensures
        forall|k: int| 0 <= k < spec_results(ctx, labels, q).len() ==> entry_live(
            #[trigger] spec_results(ctx, labels, q)[k],
            ctx,
        ),
{
    let a = action_results(ctx, labels.actions@, q, spec_actions().len());
    let p = match ctx.workspace_projects {
        Some(ps) => project_results(ps@, labels.project_kind@, q, ps@.len()),
        None => seq![],
    };
    let w = workspace_results(ctx.workspaces@, ctx.active_workspace_id, labels.workspace_kind@, q, ctx.workspaces@.len());
    lemma_action_results_live(ctx, labels.actions@, q, spec_actions().len());
    if let Some(ps) = ctx.workspace_projects {
        lemma_project_results_live(ctx, ps@, labels.project_kind@, q, ps@.len());
    }
    lemma_workspace_results_live(ctx, labels.workspace_kind@, q, ctx.workspaces@.len());
    assert forall|k: int| 0 <= k < spec_results(ctx, labels, q).len() implies entry_live(
        #[trigger] spec_results(ctx, labels, q)[k],
        ctx,
    ) by {
        assert(spec_results(ctx, labels, q) == a + p + w);
        if k < a.len() {
            assert(spec_results(ctx, labels, q)[k] == a[k]);
        } else if k < a.len() + p.len() {
            assert(spec_results(ctx, labels, q)[k] == p[k - a.len()]);
        } else {
            assert(spec_results(ctx, labels, q)[k] == w[k - a.len() - p.len()]);
        }
    }
}

/// Choosing a highlighted entry that does something is never ignored.
pub proof fn lemma_live_entry_never_noop(palette: PaletteState, ctx: PaletteContext)
    requires
        palette.highlighted < palette.results@.len(),
        entry_live(entry_view(palette.results@[palette.highlighted as int]), ctx),
    ensures
        !(spec_dispatch_entry(palette, ctx) is Noop),
{
    let e = palette.results@[palette.highlighted as int];
    if e.disabled_reason_key is None {
        if let PalettePayload::Action(a) = e.payload {
            lemma_listed_actions_never_noop(a, ctx);
        }
    }
}

pub fn dispatch_entry(palette: &PaletteState, ctx: &PaletteContext) -> (r: PaletteDispatch)
    ensures
        r == spec_dispatch_entry(*palette, *ctx),
{
    if palette.highlighted >= palette.results.len() {
        return PaletteDispatch::Noop;
    }
    let e = &palette.results[palette.highlighted];
    if let Some(reason) = e.disabled_reason_key {
        return PaletteDispatch::Disabled(reason);
    }
    match e.payload {
        PalettePayload::Action(a) => dispatch_action(a, ctx),
        PalettePayload::Workspace(id) => if contains_item(&ctx.workspaces, id) {
            PaletteDispatch::Dispatched(PaletteCommand::WorkspaceSwitched(id))
        } else {
            PaletteDispatch::Noop
        },
        PalettePayload::Project(id) => match &ctx.workspace_projects {
            Some(ps) => if contains_item(ps, id) {
                PaletteDispatch::Dispatched(PaletteCommand::DetailPanelOpened(id))
            } else {
                PaletteDispatch::Noop
            },
            None => PaletteDispatch::Noop,
        },
    }
}

// ---------------------------------------------------------------------------
// Context from the application state
// ---------------------------------------------------------------------------

/// A project or workspace as an item: its id and name.
pub open spec fn item_values(i: PaletteItem) -> (u128, Seq<char>) {
    (i.id, i.name@)
}

pub open spec fn items_values(v: Seq<PaletteItem>) -> Seq<(u128, Seq<char>)> {
    v.map_values(|i: PaletteItem| item_values(i))
}

pub open spec fn project_items(v: Seq<Project>) -> Seq<(u128, Seq<char>)> {
    v.map_values(|p: Project| (p.id, p.name@))
}

pub open spec fn workspace_items(v: Seq<Workspace>) -> Seq<(u128, Seq<char>)> {
    v.map_values(|w: Workspace| (w.id, w.name@))
}

fn items_of_projects(v: &Vec<Project>) -> (r: Vec<PaletteItem>)
    ensures
        items_values(r@) == project_items(v@),
{
    let mut out: Vec<PaletteItem> = Vec::new();
    let mut i: usize = 0;
    while i < v.len()
        invariant
            i <= v@.len(),
            items_values(out@) == project_items(v@.take(i as int)),
        decreases v@.len() - i,
    {
        out.push(PaletteItem { id: v[i].id, name: v[i].name.clone() });
        assert(project_items(v@.take(i + 1)) =~= project_items(v@.take(i as int)).push((v@[i as int].id, v@[i as int].name@)));
        assert(items_values(out@) =~= items_values(out@.drop_last()).push(item_values(out@.last())));
        i = i + 1;
    }
    assert(v@.take(v@.len() as int) =~= v@);
    out
}

fn items_of_workspaces(v: &Vec<Workspace>) -> (r: Vec<PaletteItem>)
    ensures
        items_values(r@) == workspace_items(v@),
{
    let mut out: Vec<PaletteItem> = Vec::new();
    let mut i: usize = 0;
    while i < v.len()
        invariant
            i <= v@.len(),
            items_values(out@) == workspace_items(v@.take(i as int)),
        decreases v@.len() - i,
    {
        out.push(PaletteItem { id: v[i].id, name: v[i].name.clone() });
        assert(workspace_items(v@.take(i + 1)) =~= workspace_items(v@.take(i as int)).push((v@[i as int].id, v@[i as int].name@)));
        assert(items_values(out@) =~= items_values(out@.drop_last()).push(item_values(out@.last())));
        i = i + 1;
    }
    assert(v@.take(v@.len() as int) =~= v@);
    out
}

fn copy_id_set(s: &HashSet<u128>) -> (r: HashSet<u128>)
    ensures
        r@ == s@,
{
    let mut out: HashSet<u128> = HashSet::new();
    for k in it: s.iter()
        invariant
            it.seq().unref().to_set() == s@,
            out@ == it.seq().take(it.index() as int).unref().to_set(),
            it.index() == it.seq().len() ==> out@ == s@,
    {
        out.insert(*k);
        proof {
            let t0 = it.seq().take(it.index() as int).unref();
            let t1 = it.seq().take(it.index() + 1).unref();
            assert(t1 =~= t0.push(*k));
            t0.lemma_push_to_set_commute(*k);
            assert(it.seq().take(it.seq().len() as int) =~= it.seq());
        }
    }
    out
}

/// What the palette reads of the application state. What a selection
/// summary and the operation lease decide comes in as arguments: whether
/// an operation holds the workspace, the selected projects in order,
/// whether one tracks an upstream, and how many projects are shown.
pub fn palette_context(
    state: &AppState,
    busy: bool,
    selected_ids: Vec<u128>,
    has_upstream: bool,
    visible_count: usize,
) -> (ctx: PaletteContext)
    ensures
        ctx.busy == busy,
        ctx.selected_ids@ == selected_ids@,
        ctx.has_upstream == has_upstream,
        ctx.visible_count == visible_count,
        ctx.selection_mode == state.selection_mode,
        ctx.missing_projects@ == state.missing_projects@,
        items_values(ctx.workspaces@) == workspace_items(state.all_workspaces@),
        ctx.active_workspace_idx == state.active_workspace_idx,
        match state.workspace {
            Some(ws) => ctx.workspace_projects matches Some(ps) && items_values(ps@) == project_items(ws.projects@)
                && ctx.active_workspace_id == Some(ws.id),
            None => ctx.workspace_projects is None && ctx.active_workspace_id is None,
        },
{
    let (workspace_projects, active_workspace_id) = match &state.workspace {
        Some(ws) => (Some(items_of_projects(&ws.projects)), Some(ws.id)),
        None => (None, None),
    };
    PaletteContext {
        busy,
        workspace_projects,
        missing_projects: copy_id_set(&state.missing_projects),
        selected_ids,
        has_upstream,
        visible_count,
        selection_mode: state.selection_mode,
        workspaces: items_of_workspaces(&state.all_workspaces),
        active_workspace_idx: state.active_workspace_idx,
        active_workspace_id,
    }
}

// ---------------------------------------------------------------------------
// Laws of availability
// ---------------------------------------------------------------------------

/// The actions that change repositories: fetch, pull, tag and switch.
pub open spec fn changes_repositories(a: PaletteActionId) -> bool {
    a == PaletteActionId::FetchAll || a == PaletteActionId::PullSelected || a == PaletteActionId::TagSelected
        || a == PaletteActionId::SwitchSelected
}

/// While an operation runs, every action that changes repositories is
/// refused with the busy reason, whatever else holds.
pub proof fn lemma_busy_refuses_repository_actions(a: PaletteActionId, ctx: PaletteContext)
    requires
        changes_repositories(a),
        ctx.busy,
    ensures
        spec_availability(a, ctx) == PaletteAvailability::Disabled("plain.activity.busy"),
{
}

/// When no operation runs, pulling is enabled whenever a selection is made
/// and a selected project tracks an upstream, and tagging whenever a
/// selection is made.
pub proof fn lemma_idle_selection_enables_pull_and_tag(ctx: PaletteContext)
    requires
        !ctx.busy,
        ctx.selected_ids@.len() > 0,
    ensures
        ctx.has_upstream ==> spec_availability(PaletteActionId::PullSelected, ctx)
            == PaletteAvailability::Enabled,
        spec_availability(PaletteActionId::TagSelected, ctx) == PaletteAvailability::Enabled,
{
}

/// The busy flag changes the availability of no action that leaves
/// repositories alone.
pub proof fn lemma_busy_leaves_other_actions_alone(a: PaletteActionId, ctx: PaletteContext)
    requires
        !changes_repositories(a),
    ensures
        spec_availability(a, ctx) == spec_availability(a, (PaletteContext { busy: !ctx.busy, ..ctx })),
{
}

/// Matching is by a run of characters of the lower-cased label: the empty
/// query matches every label, and any run cut out of a matching query
/// matches too, so typing more never brings back an entry that was gone.
pub proof fn lemma_part_of_a_match_matches(query: Seq<char>, label: Seq<char>, a: int, b: int)
    requires
        0 <= a <= b <= query.len(),
        spec_matches_query(query, label),
    ensures
        spec_matches_query(query.subrange(a, b), label),
        spec_matches_query(Seq::<char>::empty(), label),
{
    let part = query.subrange(a, b);
    if part.len() > 0 {
        let l = folded(label);
        let i = choose|i: int| 0 <= i && i + query.len() <= l.len() && #[trigger] l.subrange(i, i + query.len()) == query;
        assert(l.subrange(i + a, i + a + part.len()) =~= part);
    }
}

} // verus!
