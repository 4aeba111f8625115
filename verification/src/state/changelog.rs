//! Changelog aggregation screen state.

use std::collections::HashMap;

use vstd::prelude::*;

use crate::model::{total_entries, ChangelogDraft, ProjectCommits};
use crate::state::inclusion::{included_ids, reinit_inclusion, spec_reinit};
use crate::text::{trim, trimmed};

verus! {

broadcast use vstd::std_specs::hash::group_hash_axioms;

/// The phase of changelog collection.
#[derive(Debug, Clone)]
pub enum ChangelogPhase {
    Idle,
    /// Collecting commits across projects.
    Collecting,
    /// The draft is ready to read and copy.
    Ready(ChangelogDraft),
}

/// The changelog screen.
#[derive(Debug)]
pub struct ChangelogState {
    /// The tag or commit the changelog starts after.
    pub since_ref: String,
    pub phase: ChangelogPhase,
    /// Tags offered for `since_ref`.
    pub available_tags: Vec<String>,
    /// Per-project inclusion.
    pub project_selection: HashMap<u128, bool>,
    /// The collection request whose result is awaited; older results are ignored.
    pub active_request_id: Option<u64>,
    /// The request ids handed out so far.
    pub requests: RequestCounter,
}

/// Hands out increasing request ids; only `advance` changes it.
#[derive(Debug)]
pub struct RequestCounter {
    last: u64,
}

impl RequestCounter {
    /// The id most recently handed out, 0 before the first.
    pub closed spec fn value(&self) -> u64 {
        self.last
    }

    /// A counter that has handed out nothing.
    pub fn new() -> (c: Self)
        ensures
            c.value() == 0,
    {
        RequestCounter { last: 0 }
    }

    /// Hands out the next id: one more, saturating at the maximum.
    pub fn advance(&mut self) -> (r: u64)
        ensures
            r == next_request(old(self).value()),
            final(self).value() == r,
    {
        self.last = self.last.saturating_add(1);
        self.last
    }
}

impl Default for ChangelogState {
    fn default() -> (s: Self)
        ensures
            s.since_ref@.len() == 0,
            s.phase is Idle,
            s.available_tags@.len() == 0,
            s.project_selection@ == Map::<u128, bool>::empty(),
            s.active_request_id is None,
            s.last_request_id() == 0,
    {
        ChangelogState {
            since_ref: String::new(),
            phase: ChangelogPhase::Idle,
            available_tags: Vec::new(),
            project_selection: HashMap::new(),
            active_request_id: None,
            requests: RequestCounter::new(),
        }
    }
}

/// Some project is included.
pub open spec fn any_included(m: Map<u128, bool>) -> bool {
    exists|k: u128| m.contains_key(k) && m[k]
}

/// The request id that follows `last`: one more, saturating at the maximum.
pub open spec fn next_request(last: u64) -> u64 {
    if last < u64::MAX {
        (last + 1) as u64
    } else {
        u64::MAX
    }
}

impl ChangelogState {
    /// The id most recently handed out, 0 before the first.
    pub open spec fn last_request_id(&self) -> u64 {
        self.requests.value()
    }

    /// Re-initialises inclusion from the workspace's project ids.
    pub fn init_selection(&mut self, project_ids: &[u128])
        ensures
            final(self).project_selection@ == spec_reinit(old(self).project_selection@, project_ids@),
            final(self).since_ref@ == old(self).since_ref@,
            final(self).active_request_id == old(self).active_request_id,
            final(self).last_request_id() == old(self).last_request_id(),
    {
        self.project_selection = reinit_inclusion(&self.project_selection, project_ids);
    }

    /// The included project ids, each once.
    pub fn selected_ids(&self) -> (r: Vec<u128>)
        ensures
            r@.no_duplicates(),
            forall|k: u128|
                r@.contains(k) <==> (self.project_selection@.contains_key(k) && self.project_selection@[k]),
    {
        included_ids(&self.project_selection)
    }

    /// Collection can start: a starting reference is given and some project is included.
    pub fn is_ready_to_collect(&self) -> (r: bool)
        ensures
            r == (trimmed(self.since_ref@).len() > 0 && any_included(self.project_selection@)),
    {
        if trim(self.since_ref.as_str()).is_empty() {
            return false;
        }
        let ids = included_ids(&self.project_selection);
        proof {
            if any_included(self.project_selection@) {
                let k = choose|k: u128| self.project_selection@.contains_key(k) && self.project_selection@[k];
                assert(ids@.contains(k));
            }
            if ids@.len() > 0 {
                assert(ids@.contains(ids@[0]));
            }
        }
        ids.len() > 0
    }

    /// Starts a collection: hands out the next request id, makes it the one
    /// awaited, and enters the collecting phase.
    pub fn begin_collection(&mut self) -> (r: u64)
        ensures
            r == next_request(old(self).last_request_id()),
            final(self).last_request_id() == r,
            final(self).active_request_id == Some(r),
            final(self).phase is Collecting,
            final(self).since_ref@ == old(self).since_ref@,
            final(self).project_selection@ == old(self).project_selection@,
    {
        let request_id = self.requests.advance();
        self.active_request_id = Some(request_id);
        self.phase = ChangelogPhase::Collecting;
        request_id
    }

    /// Stops awaiting any collection result.
    pub fn invalidate_collection(&mut self)
        ensures
            final(self).active_request_id is None,
            final(self).last_request_id() == old(self).last_request_id(),
            final(self).since_ref@ == old(self).since_ref@,
            final(self).project_selection@ == old(self).project_selection@,
    {
        self.active_request_id = None;
    }
}

/// Successive collections get strictly increasing ids until the counter
/// saturates, so a stale result can always be told from the awaited one.
pub proof fn lemma_request_ids_increase(last: u64)
    ensures
        last < u64::MAX ==> next_request(last) > last,
        next_request(last) >= last,
        last < u64::MAX - 1 ==> next_request(next_request(last)) != next_request(last),
{
}

/// How a project came out of a changelog collection.
#[derive(Debug, Clone, Copy, PartialEq, Eq, Structural)]
pub enum CommitsOutcome {
    /// Commits were found.
    WithCommits,
    /// The project was read and has no commits since the reference.
    WithoutChanges,
    /// The project could not be read.
    WithError,
}

/// The outcome of one project: an error wins, then commits, else no changes.
pub open spec fn commits_outcome(p: ProjectCommits) -> CommitsOutcome {
    if p.error is Some {
        CommitsOutcome::WithError
    } else if p.entries@.len() > 0 {
        CommitsOutcome::WithCommits
    } else {
        CommitsOutcome::WithoutChanges
    }
}

/// How many projects of `s` have outcome `o`.
pub open spec fn count_commits_outcome(s: Seq<ProjectCommits>, o: CommitsOutcome) -> nat
    decreases s.len(),
{
    if s.len() == 0 {
        0
    } else {
        count_commits_outcome(s.drop_last(), o) + if commits_outcome(s.last()) == o {
            1nat
        } else {
            0nat
        }
    }
}

/// The totals a finished changelog shows.
#[derive(Debug, Clone, Copy, PartialEq, Eq, Structural)]
pub struct ChangelogResultCounts {
    pub total_commits: usize,
    pub projects_with_commits: usize,
    pub projects_without_changes: usize,
    pub projects_with_errors: usize,
}

fn count_projects(s: &Vec<ProjectCommits>, o: CommitsOutcome) -> (r: usize)
    ensures
        r == count_commits_outcome(s@, o),
{
    let mut n: usize = 0;
    let mut i: usize = 0;
    while i < s.len()
        invariant
            i <= s@.len(),
            n == count_commits_outcome(s@.take(i as int), o),
            n <= i,
        decreases s@.len() - i,
    {
        assert(s@.take(i + 1).drop_last() =~= s@.take(i as int));
        let p = &s[i];
        let outcome = if p.error.is_some() {
            CommitsOutcome::WithError
        } else if p.entries.len() > 0 {
            CommitsOutcome::WithCommits
        } else {
            CommitsOutcome::WithoutChanges
        };
        if outcome == o {
            n = n + 1;
        }
        i = i + 1;
    }
    assert(s@.take(s@.len() as int) =~= s@);
    n
}

/// The totals of a finished changelog: commits, and projects with commits,
/// without changes and with errors.
pub fn changelog_result_counts(draft: &ChangelogDraft) -> (r: ChangelogResultCounts)
    requires
        total_entries(draft.projects@) <= usize::MAX,
    ensures
        r.total_commits == total_entries(draft.projects@),
        r.projects_with_commits == count_commits_outcome(draft.projects@, CommitsOutcome::WithCommits),
        r.projects_without_changes == count_commits_outcome(draft.projects@, CommitsOutcome::WithoutChanges),
        r.projects_with_errors == count_commits_outcome(draft.projects@, CommitsOutcome::WithError),
{
    ChangelogResultCounts {
        total_commits: draft.total_commits(),
        projects_with_commits: count_projects(&draft.projects, CommitsOutcome::WithCommits),
        projects_without_changes: count_projects(&draft.projects, CommitsOutcome::WithoutChanges),
        projects_with_errors: count_projects(&draft.projects, CommitsOutcome::WithError),
    }
}

/// The catalog key of the notice over a finished changelog: every project
/// failed; some failed; nothing changed; or ready.
pub open spec fn spec_notice_key(project_count: nat, counts: ChangelogResultCounts) -> &'static str {
    if project_count > 0 && counts.projects_with_errors == project_count {
        "plain.changelog.all_failed"
    } else if counts.projects_with_errors > 0 {
        "plain.changelog.some_failed"
    } else if counts.total_commits == 0 {
        "plain.changelog.no_changes_found"
    } else {
        "plain.changelog.ready"
    }
}

pub fn changelog_notice_key(draft: &ChangelogDraft, counts: &ChangelogResultCounts) -> (r: &'static str)
    ensures
        r == spec_notice_key(draft.projects@.len(), *counts),
{
    let all_failed = draft.projects.len() > 0 && counts.projects_with_errors == draft.projects.len();
    if all_failed {
        "plain.changelog.all_failed"
    } else if counts.projects_with_errors > 0 {
        "plain.changelog.some_failed"
    } else if counts.total_commits == 0 {
        "plain.changelog.no_changes_found"
    } else {
        "plain.changelog.ready"
    }
}

/// Every project of a changelog has exactly one outcome.
pub proof fn lemma_commits_outcomes_partition(s: Seq<ProjectCommits>)
    ensures
        count_commits_outcome(s, CommitsOutcome::WithCommits) + count_commits_outcome(s, CommitsOutcome::WithoutChanges)
            + count_commits_outcome(s, CommitsOutcome::WithError) == s.len(),
    decreases s.len(),
{
    if s.len() > 0 {
        lemma_commits_outcomes_partition(s.drop_last());
    }
}

} // verus!
