//! The workspace data model: projects and the repository facts observed for them.
//!
//! A project is identified by a 128-bit id. Ids order numerically, which is
//! the order of their canonical lower-case hyphenated hex rendering.

use vstd::prelude::*;

verus! {

/// A registered repository.
#[derive(Debug, Clone)]
pub struct Project {
    pub id: u128,
    pub name: String,
    pub path: String,
    pub group: Option<String>,
}

/// A named set of projects.
#[derive(Debug, Clone)]
pub struct Workspace {
    pub id: u128,
    pub name: String,
    pub projects: Vec<Project>,
}

/// The view of a project's group name.
pub open spec fn group_view(p: Project) -> Option<Seq<char>> {
    match p.group {
        Some(g) => Some(g@),
        None => None,
    }
}

/// Which version-control system a repository uses.
#[derive(Debug, Clone, Copy, PartialEq, Eq, Structural)]
pub enum VcsKind {
    Git,
    Jujutsu,
}

/// Where a repository stands on disk and what it is.
#[derive(Debug, Clone)]
pub struct RepositoryIdentity {
    pub path: String,
    pub vcs_kind: VcsKind,
}

/// The current branch, bookmark or change of a repository.
#[derive(Debug, Clone)]
pub struct VcsContext {
    pub label: String,
    pub branch: Option<String>,
    pub jj_change_id: Option<String>,
    pub jj_bookmark: Option<String>,
    pub is_detached: bool,
}

/// Relation to the upstream.
#[derive(Debug, Clone)]
pub struct RemoteStatus {
    pub upstream: Option<String>,
    pub ahead: u32,
    pub behind: u32,
}

impl Default for RemoteStatus {
    fn default() -> (r: Self)
        ensures
            r.upstream is None,
            r.ahead == 0,
            r.behind == 0,
    {
        RemoteStatus { upstream: None, ahead: 0, behind: 0 }
    }
}

/// Uncommitted and untracked file counts.
#[derive(Debug, Clone, Copy, PartialEq, Eq, Structural)]
pub struct WorkingTreeStatus {
    pub uncommitted_count: u32,
    pub untracked_count: u32,
}

/// The working tree has uncommitted or untracked files.
pub open spec fn spec_is_dirty(w: WorkingTreeStatus) -> bool {
    w.uncommitted_count > 0 || w.untracked_count > 0
}

impl WorkingTreeStatus {
    pub fn is_dirty(&self) -> (r: bool)
        ensures
            r == spec_is_dirty(*self),
    {
        self.uncommitted_count > 0 || self.untracked_count > 0
    }
}

impl Default for WorkingTreeStatus {
    fn default() -> (r: Self)
        ensures
            r.uncommitted_count == 0,
            r.untracked_count == 0,
    {
        WorkingTreeStatus { uncommitted_count: 0, untracked_count: 0 }
    }
}

/// Merge-conflict facts.
#[derive(Debug, Clone, Copy, PartialEq, Eq, Structural)]
pub struct ConflictStatus {
    pub has_conflict: bool,
    pub conflict_count: Option<u32>,
    pub detection_unavailable: bool,
}

impl Default for ConflictStatus {
    fn default() -> (r: Self)
        ensures
            !r.has_conflict,
            r.conflict_count is None,
            !r.detection_unavailable,
    {
        ConflictStatus { has_conflict: false, conflict_count: None, detection_unavailable: false }
    }
}

/// Everything observed about one project at the last refresh.
#[derive(Debug, Clone)]
pub struct ProjectStatus {
    pub project_id: u128,
    pub identity: RepositoryIdentity,
    pub context: Option<VcsContext>,
    pub remote: RemoteStatus,
    pub working_tree: WorkingTreeStatus,
    pub conflict: ConflictStatus,
    pub read_error: Option<String>,
}

/// The statuses of a workspace's projects.
#[derive(Debug, Clone)]
pub struct WorkspaceStatus {
    pub projects: Vec<ProjectStatus>,
}

/// The first position in `statuses` that belongs to project `id`.
pub open spec fn status_position(statuses: Seq<ProjectStatus>, id: u128) -> Option<int>
    decreases statuses.len(),
{
    if statuses.len() == 0 {
        None
    } else if statuses[0].project_id == id {
        Some(0)
    } else {
        match status_position(statuses.drop_first(), id) {
            Some(j) => Some(j + 1),
            None => None,
        }
    }
}

pub proof fn lemma_status_position(statuses: Seq<ProjectStatus>, id: u128, i: int)
    requires
        0 <= i <= statuses.len(),
        forall|j: int| 0 <= j < i ==> statuses[j].project_id != id,
    ensures
        i < statuses.len() && statuses[i].project_id == id ==> status_position(statuses, id)
            == Some(i),
        i == statuses.len() ==> status_position(statuses, id) is None,
    decreases i,
{
    if i > 0 {
        let t = statuses.drop_first();
        assert forall|j: int| 0 <= j < i - 1 implies t[j].project_id != id by {
            assert(t[j] == statuses[j + 1]);
        }
        lemma_status_position(t, id, i - 1);
    } else if statuses.len() > 0 && i < statuses.len() {
    }
}

pub proof fn lemma_status_position_bounds(statuses: Seq<ProjectStatus>, id: u128)
    ensures
        status_position(statuses, id) matches Some(j) ==> 0 <= j < statuses.len()
            && statuses[j].project_id == id,
    decreases statuses.len(),
{
    if statuses.len() > 0 && statuses[0].project_id != id {
        lemma_status_position_bounds(statuses.drop_first(), id);
    }
}

/// The index of the first status of project `id`, if any.
pub fn find_status(statuses: &[ProjectStatus], id: u128) -> (r: Option<usize>)
    ensures
        r matches Some(j) ==> status_position(statuses@, id) == Some(j as int),
        r is None ==> status_position(statuses@, id) is None,
{
    let mut i: usize = 0;
    while i < statuses.len()
        invariant
            i <= statuses.len(),
            forall|j: int| 0 <= j < i ==> statuses@[j].project_id != id,
        decreases statuses.len() - i,
    {
        if statuses[i].project_id == id {
            proof {
                lemma_status_position(statuses@, id, i as int);
            }
            return Some(i);
        }
        i = i + 1;
    }
    proof {
        lemma_status_position(statuses@, id, i as int);
    }
    None
}


// ---------------------------------------------------------------------------
// Smart Pull plans
// ---------------------------------------------------------------------------

/// What a Smart Pull will do with one project.
#[derive(Debug, Clone, Copy, PartialEq, Eq, Structural)]
pub enum SmartPullDisposition {
    /// Fetch and fast-forward.
    Pull,
    /// Fetch only; leave the working tree alone.
    FetchOnly,
    /// Stash local changes, pull, and restore them.
    StashAndPull,
    /// Leave the project out.
    Excluded,
}

/// One project's line in a Smart Pull plan.
#[derive(Debug, Clone)]
pub struct SmartPullPlanEntry {
    pub project_id: u128,
    pub project_name: String,
    pub is_dirty: bool,
    pub has_conflict: bool,
    pub disposition: SmartPullDisposition,
}

/// A Smart Pull plan: an operation id and one entry per project.
#[derive(Debug, Clone)]
pub struct SmartPullPlan {
    pub id: u128,
    pub entries: Vec<SmartPullPlanEntry>,
}

/// How many entries of `s` have disposition `d`.
pub open spec fn count_disposition(s: Seq<SmartPullPlanEntry>, d: SmartPullDisposition) -> nat
    decreases s.len(),
{
    if s.len() == 0 {
        0
    } else {
        count_disposition(s.drop_last(), d) + if s.last().disposition == d {
            1nat
        } else {
            0nat
        }
    }
}

fn count_with(entries: &Vec<SmartPullPlanEntry>, d: SmartPullDisposition) -> (r: usize)
    ensures
        r == count_disposition(entries@, d),
{
    let mut n: usize = 0;
    let mut i: usize = 0;
    while i < entries.len()
        invariant
            i <= entries@.len(),
            n == count_disposition(entries@.take(i as int), d),
            n <= i,
        decreases entries@.len() - i,
    {
        assert(entries@.take(i + 1).drop_last() =~= entries@.take(i as int));
        if entries[i].disposition == d {
            n = n + 1;
        }
        i = i + 1;
    }
    assert(entries@.take(entries@.len() as int) =~= entries@);
    n
}

impl SmartPullPlan {
    /// How many projects will be pulled.
    pub fn pull_count(&self) -> (r: usize)
        ensures
            r == count_disposition(self.entries@, SmartPullDisposition::Pull),
    {
        count_with(&self.entries, SmartPullDisposition::Pull)
    }

    /// How many projects are left out.
    pub fn excluded_count(&self) -> (r: usize)
        ensures
            r == count_disposition(self.entries@, SmartPullDisposition::Excluded),
    {
        count_with(&self.entries, SmartPullDisposition::Excluded)
    }
}


// ---------------------------------------------------------------------------
// Freeze validation and results
// ---------------------------------------------------------------------------

/// One project's readiness for a freeze.
#[derive(Debug, Clone)]
pub struct FreezeValidationEntry {
    pub project_id: u128,
    pub project_name: String,
    pub included: bool,
    pub is_clean: bool,
    pub tag_exists: bool,
    pub notes: Vec<String>,
    pub blockers: Vec<String>,
}

/// The readiness of every project for the freeze `freeze_name`.
#[derive(Debug, Clone)]
pub struct FreezeValidation {
    pub freeze_name: String,
    pub entries: Vec<FreezeValidationEntry>,
}

/// An included project with something stopping the freeze.
pub open spec fn spec_is_blocked(e: FreezeValidationEntry) -> bool {
    e.included && e.blockers@.len() > 0
}

/// An included project with nothing stopping the freeze.
pub open spec fn spec_is_ready(e: FreezeValidationEntry) -> bool {
    e.included && e.blockers@.len() == 0
}

/// How many entries of `s` are blocked (`blocked`) or ready (`!blocked`).
pub open spec fn count_readiness(s: Seq<FreezeValidationEntry>, blocked: bool) -> nat
    decreases s.len(),
{
    if s.len() == 0 {
        0
    } else {
        count_readiness(s.drop_last(), blocked) + if (blocked && spec_is_blocked(s.last())) || (!blocked
            && spec_is_ready(s.last())) {
            1nat
        } else {
            0nat
        }
    }
}

pub open spec fn spec_ready_count(v: FreezeValidation) -> nat {
    count_readiness(v.entries@, false)
}

pub open spec fn spec_blocked_count(v: FreezeValidation) -> nat {
    count_readiness(v.entries@, true)
}

/// No included project is blocked.
pub open spec fn spec_all_ready(v: FreezeValidation) -> bool {
    forall|i: int| 0 <= i < v.entries@.len() ==> !spec_is_blocked(#[trigger] v.entries@[i])
}

impl FreezeValidationEntry {
    /// Included, with something stopping the freeze.
    pub fn is_blocked(&self) -> (r: bool)
        ensures
            r == spec_is_blocked(*self),
    {
        self.included && self.blockers.len() > 0
    }
}

fn count_entries(s: &Vec<FreezeValidationEntry>, blocked: bool) -> (r: usize)
    ensures
        r == count_readiness(s@, blocked),
{
    let mut n: usize = 0;
    let mut i: usize = 0;
    while i < s.len()
        invariant
            i <= s@.len(),
            n == count_readiness(s@.take(i as int), blocked),
            n <= i,
        decreases s@.len() - i,
    {
        assert(s@.take(i + 1).drop_last() =~= s@.take(i as int));
        let e = &s[i];
        let hit = if blocked {
            e.included && e.blockers.len() > 0
        } else {
            e.included && e.blockers.len() == 0
        };
        if hit {
            n = n + 1;
        }
        i = i + 1;
    }
    assert(s@.take(s@.len() as int) =~= s@);
    n
}

impl FreezeValidation {
    /// How many included projects are ready.
    pub fn ready_count(&self) -> (r: usize)
        ensures
            r == spec_ready_count(*self),
    {
        count_entries(&self.entries, false)
    }

    /// How many included projects are blocked.
    pub fn blocked_count(&self) -> (r: usize)
        ensures
            r == spec_blocked_count(*self),
    {
        count_entries(&self.entries, true)
    }

    /// No included project is blocked.
    pub fn all_ready(&self) -> (r: bool)
        ensures
            r == spec_all_ready(*self),
    {
        let mut i: usize = 0;
        while i < self.entries.len()
            invariant
                i <= self.entries@.len(),
                forall|j: int| 0 <= j < i ==> !spec_is_blocked(#[trigger] self.entries@[j]),
            decreases self.entries@.len() - i,
        {
            if self.entries[i].is_blocked() {
                return false;
            }
            i = i + 1;
        }
        true
    }
}

/// One project's part in an executed freeze.
#[derive(Debug, Clone)]
pub struct FreezeProjectResult {
    pub project_id: u128,
    pub project_name: String,
    pub success: bool,
    pub commands_executed: Vec<String>,
    pub stdout: String,
    pub stderr: String,
    pub rollback_attempted: bool,
    pub rollback_succeeded: Option<bool>,
    pub recovery_hint: Option<String>,
}

/// How a freeze ended.
#[derive(Debug, Clone, Copy, PartialEq, Eq, Structural)]
pub enum FreezeOutcome {
    Success,
    RolledBack,
    Failed,
}

/// The result of an executed freeze.
#[derive(Debug, Clone)]
pub struct FreezeResult {
    pub freeze_name: String,
    pub project_results: Vec<FreezeProjectResult>,
    pub outcome: FreezeOutcome,
}

// ---------------------------------------------------------------------------
// Dependency topology
// ---------------------------------------------------------------------------

/// Project `from` depends on project `to`.
#[derive(Debug, Clone)]
pub struct DependencyEdge {
    pub from_project_id: u128,
    pub from_project_name: String,
    pub to_project_name: String,
    pub version_req: String,
    pub is_path_dep: bool,
}

/// The dependency edges between the projects of a workspace.
#[derive(Debug, Clone)]
pub struct DependencyGraph {
    pub edges: Vec<DependencyEdge>,
}

/// The names of the projects that depend directly on `name`, edge by edge.
pub open spec fn spec_direct_dependents(edges: Seq<DependencyEdge>, name: Seq<char>) -> Seq<Seq<char>>
    decreases edges.len(),
{
    if edges.len() == 0 {
        seq![]
    } else {
        let prev = spec_direct_dependents(edges.drop_last(), name);
        if edges.last().to_project_name@ == name {
            prev.push(edges.last().from_project_name@)
        } else {
            prev
        }
    }
}

impl DependencyGraph {
    /// The names of the projects that depend directly on `name`, in edge order.
    pub fn direct_dependent_names(&self, name: &String) -> (r: Vec<String>)
        ensures
            r@.map_values(|s: String| s@) == spec_direct_dependents(self.edges@, name@),
    {
        let mut out: Vec<String> = Vec::new();
        let mut i: usize = 0;
        while i < self.edges.len()
            invariant
                i <= self.edges@.len(),
                out@.map_values(|s: String| s@) == spec_direct_dependents(self.edges@.take(i as int), name@),
            decreases self.edges@.len() - i,
        {
            let ghost before = out@;
            assert(self.edges@.take(i + 1).drop_last() =~= self.edges@.take(i as int));
            if self.edges[i].to_project_name.eq(name) {
                out.push(self.edges[i].from_project_name.clone());
                assert(out@.map_values(|s: String| s@) =~= before.map_values(|s: String| s@).push(
                    self.edges@[i as int].from_project_name@,
                ));
            }
            i = i + 1;
        }
        assert(self.edges@.take(self.edges@.len() as int) =~= self.edges@);
        out
    }
}

/// Freezing `frozen_project_name` affects the projects that depend on it.
#[derive(Debug, Clone)]
pub struct ImpactWarning {
    pub frozen_project_name: String,
    pub dependent_projects: Vec<String>,
    pub is_transitive: bool,
}

// ---------------------------------------------------------------------------
// Conflicts
// ---------------------------------------------------------------------------

/// How a file is conflicted.
#[derive(Debug, Clone, Copy, PartialEq, Eq, Structural)]
pub enum ConflictMarker {
    BothModified,
    BothAdded,
    BothDeleted,
    AddedByUs,
    AddedByThem,
    DeletedByUs,
    DeletedByThem,
}

/// One conflicted file.
#[derive(Debug, Clone)]
pub struct ConflictedFile {
    pub path: String,
    pub marker: ConflictMarker,
}

/// The conflicted files of one project.
#[derive(Debug, Clone)]
pub struct ProjectConflictDetail {
    pub project_id: u128,
    pub project_name: String,
    pub conflicted_files: Vec<ConflictedFile>,
    pub note: Option<String>,
    pub read_error: Option<String>,
}

impl ProjectConflictDetail {
    /// No file is left conflicted.
    pub fn is_resolved(&self) -> (r: bool)
        ensures
            r == (self.conflicted_files@.len() == 0),
    {
        self.conflicted_files.len() == 0
    }

    /// How many files are conflicted.
    pub fn file_count(&self) -> (r: usize)
        ensures
            r == self.conflicted_files@.len(),
    {
        self.conflicted_files.len()
    }
}

// ---------------------------------------------------------------------------
// Branch and change lists
// ---------------------------------------------------------------------------

/// Where a context switch goes.
#[derive(Debug, Clone)]
pub enum ContextTarget {
    GitLocalBranch { name: String },
    GitRemoteBranch { remote: String, name: String },
    JjBookmark { name: String },
    JjChange { change_id: String },
    Manual { reference: String },
}

/// One switchable branch, bookmark or change.
#[derive(Debug, Clone)]
pub struct ContextCandidate {
    pub label: String,
    pub target: ContextTarget,
    pub is_current: bool,
}

/// The switch candidates of one project.
#[derive(Debug, Clone)]
pub struct ContextList {
    pub project_id: u128,
    pub vcs_kind: VcsKind,
    pub candidates: Vec<ContextCandidate>,
    pub warning: Option<String>,
}

/// The outcome of a context switch.
#[derive(Debug, Clone)]
pub struct ContextSwitchResult {
    pub project_id: u128,
    pub target_label: String,
    pub success: bool,
    pub message: Option<String>,
}

// ---------------------------------------------------------------------------
// Changelogs
// ---------------------------------------------------------------------------

/// One commit.
#[derive(Debug, Clone)]
pub struct CommitEntry {
    pub hash: String,
    pub subject: String,
    pub author: String,
    /// Seconds since the Unix epoch.
    pub date: i64,
}

/// The most recent commits of one project, or why they could not be read.
#[derive(Debug, Clone)]
pub struct RecentCommits {
    pub project_id: u128,
    pub entries: Vec<CommitEntry>,
    pub error: Option<String>,
}

/// The commits of one project since a reference.
#[derive(Debug, Clone)]
pub struct ProjectCommits {
    pub project_id: u128,
    pub project_name: String,
    pub since_ref: String,
    pub entries: Vec<CommitEntry>,
    pub error: Option<String>,
}

/// A changelog across projects.
#[derive(Debug, Clone)]
pub struct ChangelogDraft {
    pub release_name: String,
    /// Seconds since the Unix epoch.
    pub generated_at: i64,
    pub projects: Vec<ProjectCommits>,
}

/// How many commits the projects of a changelog list in all.
pub open spec fn total_entries(s: Seq<ProjectCommits>) -> nat
    decreases s.len(),
{
    if s.len() == 0 {
        0
    } else {
        total_entries(s.drop_last()) + s.last().entries@.len()
    }
}

impl ChangelogDraft {
    /// How many commits the changelog lists across its projects.
    pub fn total_commits(&self) -> (r: usize)
        requires
            total_entries(self.projects@) <= usize::MAX,
        ensures
            r == total_entries(self.projects@),
    {
        let mut n: usize = 0;
        let mut i: usize = 0;
        while i < self.projects.len()
            invariant
                i <= self.projects@.len(),
                n == total_entries(self.projects@.take(i as int)),
                total_entries(self.projects@) <= usize::MAX,
            decreases self.projects@.len() - i,
        {
            assert(self.projects@.take(i + 1).drop_last() =~= self.projects@.take(i as int));
            proof {
                lemma_total_entries_prefix(self.projects@, i + 1);
            }
            n = n + self.projects[i].entries.len();
            i = i + 1;
        }
        assert(self.projects@.take(self.projects@.len() as int) =~= self.projects@);
        n
    }
}

/// A prefix lists no more commits than the whole.
pub proof fn lemma_total_entries_prefix(s: Seq<ProjectCommits>, k: int)
    requires
        0 <= k <= s.len(),
    ensures
        total_entries(s.take(k)) <= total_entries(s),
    decreases s.len(),
{
    if k < s.len() {
        assert(s.drop_last().take(k) =~= s.take(k));
        lemma_total_entries_prefix(s.drop_last(), k);
    } else {
        assert(s.take(k) =~= s);
    }
}

} // verus!
