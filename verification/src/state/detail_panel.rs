//! The project detail panel: which project it shows, its recent commits,
//! and the decisions of what the panel lists.

use std::collections::HashMap;

use vstd::prelude::*;

use crate::history::{OperationResult, ProjectOperationResult};
use crate::model::{ProjectStatus, RecentCommits};

verus! {

broadcast use vstd::std_specs::hash::group_hash_axioms;

/// Loading the recent commits of the open project.
#[derive(Debug, Clone)]
pub enum RecentCommitsPhase {
    Idle,
    /// Loading the commits of one project.
    Loading(u128),
    /// The commits of one project are here.
    Loaded { project_id: u128, commits: RecentCommits },
}

/// The detail panel: the project it shows, the commits phase, and the
/// commits already loaded per project.
#[derive(Debug, Clone)]
pub struct DetailPanelState {
    pub open_project_id: Option<u128>,
    pub commits_phase: RecentCommitsPhase,
    pub commits_cached: HashMap<u128, RecentCommits>,
}

impl Default for DetailPanelState {
    fn default() -> (d: Self)
        ensures
            d.open_project_id is None,
            d.commits_phase is Idle,
            d.commits_cached@.len() == 0,
    {
        DetailPanelState {
            open_project_id: None,
            commits_phase: RecentCommitsPhase::Idle,
            commits_cached: HashMap::new(),
        }
    }
}

/// What the recent-commits section shows.
#[derive(Debug, Clone, Copy, PartialEq, Eq, Structural)]
pub enum CommitsSection {
    /// Still loading, also while another project's commits are loading or loaded.
    Loading,
    /// The commits could not be read; the error is shown.
    Error,
    /// The project has no recent commits.
    Empty,
    /// The commits are listed.
    List,
}

/// The commits section of project `id`: the loaded result for that
/// project shows its error, nothing, or its list; anything else is loading.
pub open spec fn spec_commits_section(phase: RecentCommitsPhase, id: u128) -> CommitsSection {
    match phase {
        RecentCommitsPhase::Loaded { project_id, commits } => if project_id != id {
            CommitsSection::Loading
        } else if commits.error is Some {
            CommitsSection::Error
        } else if commits.entries@.len() == 0 {
            CommitsSection::Empty
        } else {
            CommitsSection::List
        },
        _ => CommitsSection::Loading,
    }
}

pub fn commits_section(phase: &RecentCommitsPhase, id: u128) -> (r: CommitsSection)
    ensures
        r == spec_commits_section(*phase, id),
{
    match phase {
        RecentCommitsPhase::Loaded { project_id, commits } => if *project_id != id {
            CommitsSection::Loading
        } else if commits.error.is_some() {
            CommitsSection::Error
        } else if commits.entries.len() == 0 {
            CommitsSection::Empty
        } else {
            CommitsSection::List
        },
        _ => CommitsSection::Loading,
    }
}

/// The catalog key of a status's conflict line: yes, unknown, or no.
pub open spec fn spec_conflict_label_key(s: ProjectStatus) -> &'static str {
    if s.conflict.has_conflict {
        "detail.conflict_yes"
    } else if s.conflict.detection_unavailable {
        "detail.conflict_unknown"
    } else {
        "detail.conflict_no"
    }
}

pub fn conflict_label_key(s: &ProjectStatus) -> (r: &'static str)
    ensures
        r == spec_conflict_label_key(*s),
{
    if s.conflict.has_conflict {
        "detail.conflict_yes"
    } else if s.conflict.detection_unavailable {
        "detail.conflict_unknown"
    } else {
        "detail.conflict_no"
    }
}

/// The first part of `ps` for project `id`, if any.
pub open spec fn first_part(ps: Seq<ProjectOperationResult>, id: u128) -> Option<int>
    decreases ps.len(),
{
    if ps.len() == 0 {
        None
    } else if ps[0].project_id == id {
        Some(0)
    } else {
        match first_part(ps.drop_first(), id) {
            Some(j) => Some(j + 1),
            None => None,
        }
    }
}

/// Whether the operation involved project `id`, and with what success: the
/// success of its first part for the project.
pub open spec fn involvement(r: OperationResult, id: u128) -> Option<bool> {
    match first_part(r.per_project@, id) {
        Some(j) => Some(r.per_project@[j].success),
        None => None,
    }
}

/// The operations among the first `n` that involved project `id`, newest
/// first, each with its position and success mark.
pub open spec fn involving_newest_first(logs: Seq<OperationResult>, id: u128, n: nat) -> Seq<(usize, bool)>
    decreases n,
{
    if n == 0 || n > logs.len() {
        seq![]
    } else {
        (match involvement(logs[n - 1], id) {
            Some(ok) => seq![((n - 1) as usize, ok)],
            None => seq![],
        }) + involving_newest_first(logs, id, (n - 1) as nat)
    }
}

/// At most the first five.
pub open spec fn at_most_five(s: Seq<(usize, bool)>) -> Seq<(usize, bool)> {
    s.take(if s.len() < 5 { s.len() as int } else { 5 })
}

proof fn lemma_first_part_at(ps: Seq<ProjectOperationResult>, id: u128, i: int)
    requires
        0 <= i <= ps.len(),
        forall|j: int| 0 <= j < i ==> ps[j].project_id != id,
    ensures
        i < ps.len() && ps[i].project_id == id ==> first_part(ps, id) == Some(i),
        i == ps.len() ==> first_part(ps, id) is None,
    decreases i,
{
    if i > 0 {
        let t = ps.drop_first();
        assert forall|j: int| 0 <= j < i - 1 implies t[j].project_id != id by {
            assert(t[j] == ps[j + 1]);
        }
        lemma_first_part_at(t, id, i - 1);
    }
}

fn involvement_of(r: &OperationResult, id: u128) -> (o: Option<bool>)
    ensures
        o == involvement(*r, id),
{
    let mut i: usize = 0;
    while i < r.per_project.len()
        invariant
            i <= r.per_project@.len(),
            forall|j: int| 0 <= j < i ==> r.per_project@[j].project_id != id,
        decreases r.per_project@.len() - i,
    {
        if r.per_project[i].project_id == id {
            proof {
                lemma_first_part_at(r.per_project@, id, i as int);
            }
            return Some(r.per_project[i].success);
        }
        i = i + 1;
    }
    proof {
        lemma_first_part_at(r.per_project@, id, i as int);
    }
    None
}

/// The panel's recent operations: the last five operations that involved
/// project `id`, newest first, by position in `logs` (oldest first), each
/// with whether the project succeeded.
pub fn recent_operations(logs: &[OperationResult], id: u128) -> (r: Vec<(usize, bool)>)
    ensures
        r@ == at_most_five(involving_newest_first(logs@, id, logs@.len() as nat)),
{
    let mut out: Vec<(usize, bool)> = Vec::new();
    let mut k: usize = logs.len();
    while k > 0 && out.len() < 5
        invariant
            k <= logs@.len(),
            out@.len() <= 5,
            involving_newest_first(logs@, id, logs@.len() as nat) == out@ + involving_newest_first(logs@, id, k as nat),
        decreases k,
    {
        let ghost before = out@;
        match involvement_of(&logs[k - 1], id) {
            Some(ok) => {
                out.push((k - 1, ok));
            },
            None => {},
        }
        assert(involving_newest_first(logs@, id, k as nat) == (match involvement(logs@[k - 1], id) {
            Some(ok) => seq![((k - 1) as usize, ok)],
            None => seq![],
        }) + involving_newest_first(logs@, id, (k - 1) as nat));
        assert(out@ + involving_newest_first(logs@, id, (k - 1) as nat) =~= before + involving_newest_first(
            logs@,
            id,
            k as nat,
        ));
        k = k - 1;
    }
    let ghost all = involving_newest_first(logs@, id, logs@.len() as nat);
    proof {
        if out@.len() == 5 {
            assert(all.take(5) =~= out@);
        } else {
            assert(k == 0);
            assert(involving_newest_first(logs@, id, 0) =~= Seq::<(usize, bool)>::empty());
            assert(all =~= out@);
            assert(all.take(all.len() as int) =~= all);
        }
    }
    out
}

} // verus!
