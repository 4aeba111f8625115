//! Sync Center: bulk fetch and Smart Pull planning.

use std::collections::HashMap;

use vstd::prelude::*;

use crate::model::{
    find_status, lemma_status_position_bounds, spec_is_dirty, status_position, Project,
    ProjectStatus, SmartPullDisposition, SmartPullPlan, SmartPullPlanEntry, WorkspaceStatus,
};
use crate::state::dashboard::statuses_of;
use crate::state::inclusion::{included_ids, is_included, reinit_inclusion, spec_is_included, spec_reinit};

verus! {

broadcast use vstd::std_specs::hash::group_hash_axioms;

/// Which bulk operation ran.
#[derive(Debug, Clone, Copy, PartialEq, Eq, Structural)]
pub enum SyncKind {
    Fetch,
    SmartPull,
}

/// What happened to one project.
#[derive(Debug, Clone)]
pub struct ProjectOutcome {
    pub project_id: u128,
    pub project_name: String,
    pub success: bool,
    pub commands_executed: Vec<String>,
    pub stdout: String,
    pub stderr: String,
    pub log_expanded: bool,
}

/// The aggregate result shown after an operation completes.
#[derive(Debug, Clone)]
pub struct SyncResult {
    pub kind: SyncKind,
    pub per_project: Vec<ProjectOutcome>,
    pub recovery_hints: Vec<String>,
}

/// How many outcomes of `s` have success flag `ok`.
pub open spec fn count_success(s: Seq<ProjectOutcome>, ok: bool) -> nat
    decreases s.len(),
{
    if s.len() == 0 {
        0
    } else {
        count_success(s.drop_last(), ok) + if s.last().success == ok {
            1nat
        } else {
            0nat
        }
    }
}

/// Every project of a result is counted once: as a success or as a failure.
pub proof fn lemma_counts_add_up(s: Seq<ProjectOutcome>)
    ensures
        count_success(s, true) + count_success(s, false) == s.len(),
    decreases s.len(),
{
    if s.len() > 0 {
        lemma_counts_add_up(s.drop_last());
    }
}

/// No failure is counted exactly when every project succeeded, and then
/// every project is counted as a success; a single failed project anywhere
/// is counted.
pub proof fn lemma_no_failure_means_every_project_succeeded(s: Seq<ProjectOutcome>)
    ensures
        (count_success(s, false) == 0) == forall|i: int| 0 <= i < s.len() ==> (#[trigger] s[i]).success,
        (count_success(s, true) == s.len()) == forall|i: int| 0 <= i < s.len() ==> (#[trigger] s[i]).success,
    decreases s.len(),
{
    lemma_counts_add_up(s);
    if s.len() > 0 {
        let t = s.drop_last();
        lemma_no_failure_means_every_project_succeeded(t);
        if forall|i: int| 0 <= i < s.len() ==> (#[trigger] s[i]).success {
            assert forall|i: int| 0 <= i < t.len() implies (#[trigger] t[i]).success by {
                assert(t[i] == s[i]);
            }
        }
        if count_success(s, false) == 0 {
            assert forall|i: int| 0 <= i < s.len() implies (#[trigger] s[i]).success by {
                if i < t.len() {
                    assert(t[i] == s[i]);
                }
            }
        }
    }
}

fn count_outcomes(v: &Vec<ProjectOutcome>, ok: bool) -> (r: usize)
    ensures
        r == count_success(v@, ok),
{
    let mut n: usize = 0;
    let mut i: usize = 0;
    while i < v.len()
        invariant
            i <= v@.len(),
            n == count_success(v@.take(i as int), ok),
            n <= i,
        decreases v@.len() - i,
    {
        assert(v@.take(i + 1).drop_last() =~= v@.take(i as int));
        if v[i].success == ok {
            n = n + 1;
        }
        i = i + 1;
    }
    assert(v@.take(v@.len() as int) =~= v@);
    n
}

impl SyncResult {
    /// How many projects succeeded.
    pub fn success_count(&self) -> (r: usize)
        ensures
            r == count_success(self.per_project@, true),
    {
        count_outcomes(&self.per_project, true)
    }

    /// How many projects failed.
    pub fn fail_count(&self) -> (r: usize)
        ensures
            r == count_success(self.per_project@, false),
            r + count_success(self.per_project@, true) == self.per_project@.len(),
    {
        proof {
            lemma_counts_add_up(self.per_project@);
        }
        count_outcomes(&self.per_project, false)
    }

    /// No project failed.
    pub fn all_succeeded(&self) -> (r: bool)
        ensures
            r == (count_success(self.per_project@, false) == 0),
    {
        self.fail_count() == 0
    }
}

/// The phase of the Sync Center workflow.
#[derive(Debug, Clone)]
pub enum SyncPhase {
    Idle,
    FetchRunning { total: usize, done: usize },
    Planning,
    AwaitingConfirm(SmartPullPlan),
    PullRunning { plan: SmartPullPlan, completed: Vec<ProjectOutcome> },
    Done(SyncResult),
}

/// The Sync Center: per-project inclusion, disposition overrides and the phase.
#[derive(Debug)]
pub struct SyncCenterState {
    pub project_selection: HashMap<u128, bool>,
    pub disposition_overrides: HashMap<u128, SmartPullDisposition>,
    pub phase: SyncPhase,
}

impl Default for SyncCenterState {
    fn default() -> (s: Self)
        ensures
            s.project_selection@ == Map::<u128, bool>::empty(),
            s.disposition_overrides@ == Map::<u128, SmartPullDisposition>::empty(),
            s.phase is Idle,
    {
        SyncCenterState {
            project_selection: HashMap::new(),
            disposition_overrides: HashMap::new(),
            phase: SyncPhase::Idle,
        }
    }
}

/// The ids of the projects, in order.
pub open spec fn project_ids(projects: Seq<Project>) -> Seq<u128> {
    projects.map_values(|p: Project| p.id)
}

pub fn ids_of(projects: &[Project]) -> (r: Vec<u128>)
    ensures
        r@ == project_ids(projects@),
{
    let mut r: Vec<u128> = Vec::new();
    let mut i: usize = 0;
    while i < projects.len()
        invariant
            i <= projects@.len(),
            r@ == project_ids(projects@.take(i as int)),
        decreases projects@.len() - i,
    {
        r.push(projects[i].id);
        assert(project_ids(projects@.take(i + 1)) =~= project_ids(projects@.take(i as int)).push(projects@[i as int].id));
        i = i + 1;
    }
    assert(projects@.take(projects@.len() as int) =~= projects@);
    r
}

/// The plan line for one project, by its values.
pub open spec fn plan_line(
    selection: Map<u128, bool>,
    overrides: Map<u128, SmartPullDisposition>,
    p: Project,
    statuses: Seq<ProjectStatus>,
) -> (u128, Seq<char>, bool, bool, SmartPullDisposition) {
    let st = status_position(statuses, p.id);
    let is_dirty = match st {
        Some(j) => spec_is_dirty(statuses[j].working_tree),
        None => false,
    };
    let has_conflict = match st {
        Some(j) => statuses[j].conflict.has_conflict,
        None => false,
    };
    let disposition = if !spec_is_included(selection, p.id) {
        SmartPullDisposition::Excluded
    } else if overrides.contains_key(p.id) {
        overrides[p.id]
    } else if has_conflict {
        SmartPullDisposition::Excluded
    } else if is_dirty {
        SmartPullDisposition::FetchOnly
    } else {
        SmartPullDisposition::Pull
    };
    (p.id, p.name@, is_dirty, has_conflict, disposition)
}

pub open spec fn entry_values(e: SmartPullPlanEntry) -> (u128, Seq<char>, bool, bool, SmartPullDisposition) {
    (e.project_id, e.project_name@, e.is_dirty, e.has_conflict, e.disposition)
}

/// Smart Pull never pulls over local changes or conflicts on its own: a
/// project left out is excluded whatever else holds, and without a user
/// override a conflicted project is excluded and a pulled one is clean.
pub proof fn lemma_plan_guards(
    selection: Map<u128, bool>,
    overrides: Map<u128, SmartPullDisposition>,
    p: Project,
    statuses: Seq<ProjectStatus>,
)
    ensures
        ({
            let line = plan_line(selection, overrides, p, statuses);
            &&& !spec_is_included(selection, p.id) ==> line.4 == SmartPullDisposition::Excluded
            &&& !overrides.contains_key(p.id) && line.3 ==> line.4 == SmartPullDisposition::Excluded
            &&& !overrides.contains_key(p.id) && line.4 == SmartPullDisposition::Pull ==> !line.2 && !line.3
        }),
{
}

impl SyncCenterState {
    /// Re-initialises inclusion from the workspace projects: new ones are
    /// included, known ones keep their toggle, removed ones are forgotten.
    pub fn init_selection(&mut self, projects: &[Project])
        ensures
            final(self).project_selection@ == spec_reinit(old(self).project_selection@, project_ids(projects@)),
            final(self).disposition_overrides@ == old(self).disposition_overrides@,
    {
        let ids = ids_of(projects);
        self.project_selection = reinit_inclusion(&self.project_selection, ids.as_slice());
    }

    /// Whether a project is included; a project never toggled is.
    pub fn is_selected(&self, id: &u128) -> (r: bool)
        ensures
            r == spec_is_included(self.project_selection@, *id),
    {
        is_included(&self.project_selection, id)
    }

    /// The included project ids, each once.
    pub fn selected_ids(&self) -> (r: Vec<u128>)
        ensures
            r@.no_duplicates(),
            forall|k: u128|
                r@.contains(k) <==> (self.project_selection@.contains_key(k) && self.project_selection@[k]),
    {
        included_ids(&self.project_selection)
    }

    /// The Smart Pull plan: one line per project in order. An excluded
    /// project stays out; otherwise the user's override wins; otherwise a
    /// conflicted project stays out, a dirty one is only fetched, and a clean
    /// one is pulled. Dirtiness and conflicts come from the project's first
    /// status, and count as absent when it has none.
    pub fn build_plan(&self, projects: &[Project], workspace_status: Option<&WorkspaceStatus>, id: u128) -> (r: SmartPullPlan)
        ensures
            r.id == id,
            r.entries@.len() == projects@.len(),
            forall|i: int|
                0 <= i < projects@.len() ==> #[trigger] entry_values(r.entries@[i]) == plan_line(
                    self.project_selection@,
                    self.disposition_overrides@,
                    projects@[i],
                    statuses_of(workspace_status),
                ),
    {
        let empty: Vec<ProjectStatus> = Vec::new();
        let statuses: &[ProjectStatus] = match workspace_status {
            Some(ws) => ws.projects.as_slice(),
            None => empty.as_slice(),
        };
        let mut entries: Vec<SmartPullPlanEntry> = Vec::new();
        let mut i: usize = 0;
        while i < projects.len()
            invariant
                i <= projects@.len(),
                statuses@ == statuses_of(workspace_status),
                entries@.len() == i,
                forall|j: int|
                    0 <= j < i ==> #[trigger] entry_values(entries@[j]) == plan_line(
                        self.project_selection@,
                        self.disposition_overrides@,
                        projects@[j],
                        statuses@,
                    ),
            decreases projects@.len() - i,
        {
            let p = &projects[i];
            let selected = self.is_selected(&p.id);
            let pos = find_status(statuses, p.id);
            proof {
                lemma_status_position_bounds(statuses@, p.id);
            }
            let (is_dirty, has_conflict) = match pos {
                Some(j) => (statuses[j].working_tree.is_dirty(), statuses[j].conflict.has_conflict),
                None => (false, false),
            };
            let disposition = if !selected {
                SmartPullDisposition::Excluded
            } else {
                match self.disposition_overrides.get(&p.id) {
                    Some(d) => *d,
                    None => if has_conflict {
                        SmartPullDisposition::Excluded
                    } else if is_dirty {
                        SmartPullDisposition::FetchOnly
                    } else {
                        SmartPullDisposition::Pull
                    },
                }
            };
            entries.push(
                SmartPullPlanEntry {
                    project_id: p.id,
                    project_name: p.name.clone(),
                    is_dirty,
                    has_conflict,
                    disposition,
                },
            );
            assert(entry_values(entries@[i as int]) == plan_line(
                self.project_selection@,
                self.disposition_overrides@,
                projects@[i as int],
                statuses@,
            ));
            i = i + 1;
        }
        SmartPullPlan { id, entries }
    }
}

/// The Start control of a Smart Pull plan awaiting confirmation.
#[derive(Debug, Clone, Copy, PartialEq, Eq)]
pub enum PullStart {
    /// No plan awaits confirmation, so there is no Start control.
    NotOffered,
    Enabled,
    /// Start cannot be pressed, for this reason.
    Disabled(&'static str),
}

/// What the Smart Pull surface allows: closing it, and starting the plan.
#[derive(Debug, Clone, Copy, PartialEq, Eq)]
pub struct PullSurface {
    pub closable: bool,
    pub start: PullStart,
}

/// Some project of the plan is not left out.
pub open spec fn plan_has_work(plan: SmartPullPlan) -> bool {
    exists|i: int| 0 <= i < plan.entries@.len() && #[trigger] plan.entries@[i].disposition != SmartPullDisposition::Excluded
}

/// The surface cannot be closed while a pull runs; a plan awaiting
/// confirmation can start when some project is not left out and nothing is
/// busy, else the reason is busy, then nothing chosen.
pub open spec fn spec_pull_surface(phase: SyncPhase, busy: bool) -> PullSurface {
    PullSurface {
        closable: !(phase is PullRunning),
        start: match phase {
            SyncPhase::AwaitingConfirm(plan) => if plan_has_work(plan) && !busy {
                PullStart::Enabled
            } else if busy {
                PullStart::Disabled("plain.activity.busy")
            } else {
                PullStart::Disabled("plain.disabled.choose_one")
            },
            _ => PullStart::NotOffered,
        },
    }
}

fn has_work(plan: &SmartPullPlan) -> (r: bool)
    ensures
        r == plan_has_work(*plan),
{
    let mut i: usize = 0;
    while i < plan.entries.len()
        invariant
            i <= plan.entries@.len(),
            forall|j: int| 0 <= j < i ==> #[trigger] plan.entries@[j].disposition == SmartPullDisposition::Excluded,
        decreases plan.entries@.len() - i,
    {
        if plan.entries[i].disposition != SmartPullDisposition::Excluded {
            return true;
        }
        i = i + 1;
    }
    false
}

pub fn pull_surface(phase: &SyncPhase, busy: bool) -> (r: PullSurface)
    ensures
        r == spec_pull_surface(*phase, busy),
{
    let closable = match phase {
        SyncPhase::PullRunning { .. } => false,
        _ => true,
    };
    let start = match phase {
        SyncPhase::AwaitingConfirm(plan) => if has_work(plan) && !busy {
            PullStart::Enabled
        } else if busy {
            PullStart::Disabled("plain.activity.busy")
        } else {
            PullStart::Disabled("plain.disabled.choose_one")
        },
        _ => PullStart::NotOffered,
    };
    PullSurface { closable, start }
}

/// The catalog keys of a plan line's action and note: pull; fetch only
/// (noting unsaved changes when dirty); stash and pull (noting the save and
/// restore); skip (noting its reason, else a needed choice for a conflict).
/// An empty note is the empty key.
pub open spec fn spec_disposition_keys(
    d: SmartPullDisposition,
    is_dirty: bool,
    has_conflict: bool,
    skip_reason_key: Option<&'static str>,
) -> (&'static str, &'static str) {
    match d {
        SmartPullDisposition::Pull => ("plain.get_latest.action_get", ""),
        SmartPullDisposition::FetchOnly => (
            "plain.get_latest.action_check",
            if is_dirty { "plain.get_latest.note_unsaved" } else { "" },
        ),
        SmartPullDisposition::StashAndPull => (
            "plain.get_latest.action_get_anyway",
            "plain.get_latest.note_save_restore",
        ),
        SmartPullDisposition::Excluded => (
            "plain.get_latest.action_skip",
            match skip_reason_key {
                Some(k) => k,
                None => if has_conflict { "plain.get_latest.note_needs_choice" } else { "" },
            },
        ),
    }
}

pub fn disposition_keys(
    d: SmartPullDisposition,
    is_dirty: bool,
    has_conflict: bool,
    skip_reason_key: Option<&'static str>,
) -> (r: (&'static str, &'static str))
    ensures
        r == spec_disposition_keys(d, is_dirty, has_conflict, skip_reason_key),
{
    match d {
        SmartPullDisposition::Pull => ("plain.get_latest.action_get", ""),
        SmartPullDisposition::FetchOnly => (
            "plain.get_latest.action_check",
            if is_dirty { "plain.get_latest.note_unsaved" } else { "" },
        ),
        SmartPullDisposition::StashAndPull => (
            "plain.get_latest.action_get_anyway",
            "plain.get_latest.note_save_restore",
        ),
        SmartPullDisposition::Excluded => (
            "plain.get_latest.action_skip",
            match skip_reason_key {
                Some(k) => k,
                None => if has_conflict { "plain.get_latest.note_needs_choice" } else { "" },
            },
        ),
    }
}

} // verus!
