//! Context operations: switching a project's branch, bookmark or change.

use std::collections::HashMap;

use vstd::prelude::*;

use crate::model::{ContextCandidate, ContextList, ContextSwitchResult, ContextTarget};
use crate::text::{has_substring, folded, str_contains, to_lowercase};

verus! {

/// The phase of the context-switch workflow.
#[derive(Debug, Clone)]
pub enum ContextPhase {
    /// No project chosen yet.
    Idle,
    /// Loading the candidates of a project.
    LoadingList(u128),
    /// Browsing the candidates, narrowed by a search.
    BrowsingList { project_id: u128, list: ContextList, search: String },
    /// Confirming a chosen target.
    ConfirmSwitch {
        project_id: u128,
        project_name: String,
        target: ContextTarget,
        target_label: String,
        is_dirty: bool,
        disabled_reason_key: Option<&'static str>,
    },
    /// The switch is running.
    Switching { target_label: String },
    /// The switch finished.
    Done(ContextSwitchResult),
}

/// The context operations screen.
#[derive(Debug)]
pub struct ContextOpsState {
    pub phase: ContextPhase,
    /// Candidate lists fetched per project.
    pub cached_lists: HashMap<u128, ContextList>,
}

impl Default for ContextOpsState {
    fn default() -> (s: Self)
        ensures
            s.phase is Idle,
            s.cached_lists@ == Map::<u128, ContextList>::empty(),
    {
        ContextOpsState { phase: ContextPhase::Idle, cached_lists: HashMap::new() }
    }
}

/// The candidates of `list` whose lower-cased label contains the lower-cased
/// search (all of them for an empty search), as indices, in order.
pub open spec fn spec_filtered(candidates: Seq<ContextCandidate>, search: Seq<char>, n: nat) -> Seq<usize>
    decreases n,
{
    if n == 0 || n > candidates.len() {
        seq![]
    } else {
        let prev = spec_filtered(candidates, search, (n - 1) as nat);
        let q = folded(search);
        if q.len() == 0 || has_substring(folded(candidates[n - 1].label@), q) {
            prev.push((n - 1) as usize)
        } else {
            prev
        }
    }
}

impl ContextOpsState {
    /// The candidates of the browsed list that match the search, in order;
    /// none unless a list is being browsed.
    pub fn filtered_candidates(&self) -> (r: Vec<&ContextCandidate>)
        ensures
            match self.phase {
                ContextPhase::BrowsingList { list, search, .. } => {
                    let idx = spec_filtered(list.candidates@, search@, list.candidates@.len() as nat);
                    &&& r@.len() == idx.len()
                    &&& forall|k: int| 0 <= k < r@.len() ==> *r@[k] == list.candidates@[idx[k] as int]
                },
                _ => r@.len() == 0,
            },
    {
        match &self.phase {
            ContextPhase::BrowsingList { list, search, .. } => {
                let q = to_lowercase(search.as_str());
                let mut out: Vec<&ContextCandidate> = Vec::new();
                let mut i: usize = 0;
                while i < list.candidates.len()
                    invariant
                        i <= list.candidates@.len(),
                        q@ == folded(search@),
                        out@.len() == spec_filtered(list.candidates@, search@, i as nat).len(),
                        forall|k: int| 0 <= k < out@.len() ==> *out@[k] == list.candidates@[
                            spec_filtered(list.candidates@, search@, i as nat)[k] as int
                        ],
                    decreases list.candidates@.len() - i,
                {
                    let label = to_lowercase(list.candidates[i].label.as_str());
                    if q.as_str().is_empty() || str_contains(label.as_str(), q.as_str()) {
                        out.push(&list.candidates[i]);
                    }
                    i = i + 1;
                }
                out
            },
            _ => Vec::new(),
        }
    }
}

/// What the search lists of the first `n` candidates.
proof fn lemma_filtered_prefix(candidates: Seq<ContextCandidate>, search: Seq<char>, n: nat)
    requires
        n <= candidates.len(),
        candidates.len() <= usize::MAX,
    ensures
        ({
            let idx = spec_filtered(candidates, search, n);
            let q = folded(search);
            &&& forall|k: int| 0 <= k < idx.len() ==> (#[trigger] idx[k]) < n && (q.len() == 0 || has_substring(
                folded(candidates[idx[k] as int].label@),
                q,
            ))
            &&& forall|k: int, l: int| 0 <= k < l < idx.len() ==> #[trigger] idx[k] < #[trigger] idx[l]
            &&& forall|j: int|
                0 <= j < n && (q.len() == 0 || has_substring(folded((#[trigger] candidates[j]).label@), q))
                    ==> exists|k: int| 0 <= k < idx.len() && idx[k] == j
            &&& q.len() == 0 ==> idx.len() == n
        }),
    decreases n,
{
    if n > 0 {
        lemma_filtered_prefix(candidates, search, (n - 1) as nat);
        let prev = spec_filtered(candidates, search, (n - 1) as nat);
        let idx = spec_filtered(candidates, search, n);
        let q = folded(search);
        assert forall|j: int|
            0 <= j < n && (q.len() == 0 || has_substring(folded((#[trigger] candidates[j]).label@), q))
                implies exists|k: int| 0 <= k < idx.len() && idx[k] == j by {
            if j < n - 1 {
                let k = choose|k: int| 0 <= k < prev.len() && prev[k] == j;
                assert(idx[k] == prev[k]);
            } else {
                assert(idx[prev.len() as int] == j);
            }
        }
    }
}

/// The switch search lists exactly the candidates whose lower-cased label
/// holds the lower-cased search, each once and in list order; an empty
/// search lists them all.
pub proof fn lemma_search_lists_exactly_the_matches(candidates: Seq<ContextCandidate>, search: Seq<char>)
    requires
        candidates.len() <= usize::MAX,
    ensures
        ({
            let idx = spec_filtered(candidates, search, candidates.len());
            let q = folded(search);
            &&& forall|k: int| 0 <= k < idx.len() ==> (#[trigger] idx[k]) < candidates.len() && (q.len() == 0
                || has_substring(folded(candidates[idx[k] as int].label@), q))
            &&& forall|k: int, l: int| 0 <= k < l < idx.len() ==> #[trigger] idx[k] < #[trigger] idx[l]
            &&& forall|j: int|
                0 <= j < candidates.len() && (q.len() == 0 || has_substring(
                    folded((#[trigger] candidates[j]).label@),
                    q,
                )) ==> exists|k: int| 0 <= k < idx.len() && idx[k] == j
            &&& q.len() == 0 ==> idx.len() == candidates.len()
        }),
{
    lemma_filtered_prefix(candidates, search, candidates.len());
}

/// What choosing in the switch surface asks the application to do.
#[derive(Debug, Clone)]
pub enum ContextCommand {
    /// Switch a project to a target, shown under a label.
    SwitchTargetChosen(u128, ContextTarget, String),
}

/// The catalog key of why a candidate cannot be chosen: it is the current one.
pub open spec fn spec_candidate_reason(c: ContextCandidate) -> Option<&'static str> {
    if c.is_current {
        Some("plain.switch.reason_current")
    } else {
        None
    }
}

pub fn candidate_reason(c: &ContextCandidate) -> (r: Option<&'static str>)
    ensures
        r == spec_candidate_reason(*c),
{
    if c.is_current {
        Some("plain.switch.reason_current")
    } else {
        None
    }
}

/// Choosing a candidate of project `project_id`: nothing for the current
/// one, else a switch to its target under its label.
pub open spec fn spec_candidate_action(project_id: u128, c: ContextCandidate) -> Option<ContextCommand> {
    if c.is_current {
        None
    } else {
        Some(ContextCommand::SwitchTargetChosen(project_id, c.target, c.label))
    }
}

fn copy_target(t: &ContextTarget) -> (r: ContextTarget)
    ensures
        r == *t,
{
    match t {
        ContextTarget::GitLocalBranch { name } => ContextTarget::GitLocalBranch { name: name.clone() },
        ContextTarget::GitRemoteBranch { remote, name } => ContextTarget::GitRemoteBranch {
            remote: remote.clone(),
            name: name.clone(),
        },
        ContextTarget::JjBookmark { name } => ContextTarget::JjBookmark { name: name.clone() },
        ContextTarget::JjChange { change_id } => ContextTarget::JjChange { change_id: change_id.clone() },
        ContextTarget::Manual { reference } => ContextTarget::Manual { reference: reference.clone() },
    }
}

impl ContextOpsState {
    /// One action per filtered candidate of the browsed list, in order; none
    /// unless a list is being browsed.
    pub fn switch_candidate_actions(&self) -> (r: Vec<Option<ContextCommand>>)
        ensures
            match self.phase {
                ContextPhase::BrowsingList { project_id, list, search } => {
                    let idx = spec_filtered(list.candidates@, search@, list.candidates@.len() as nat);
                    &&& r@.len() == idx.len()
                    &&& forall|k: int|
                        0 <= k < r@.len() ==> #[trigger] r@[k] == spec_candidate_action(
                            project_id,
                            list.candidates@[idx[k] as int],
                        )
                },
                _ => r@.len() == 0,
            },
    {
        let candidates = self.filtered_candidates();
        let mut out: Vec<Option<ContextCommand>> = Vec::new();
        match &self.phase {
            ContextPhase::BrowsingList { project_id, .. } => {
                let mut i: usize = 0;
                while i < candidates.len()
                    invariant
                        i <= candidates@.len(),
                        out@.len() == i,
                        forall|k: int|
                            0 <= k < i ==> #[trigger] out@[k] == spec_candidate_action(*project_id, *candidates@[k]),
                    decreases candidates@.len() - i,
                {
                    let c = candidates[i];
                    if c.is_current {
                        out.push(None);
                    } else {
                        out.push(
                            Some(ContextCommand::SwitchTargetChosen(*project_id, copy_target(&c.target), c.label.clone())),
                        );
                    }
                    i = i + 1;
                }
            },
            _ => {},
        }
        out
    }

    /// The surface can be closed unless a switch is running.
    pub fn switch_closable(&self) -> (r: bool)
        ensures
            r == !(self.phase is Switching),
    {
        match self.phase {
            ContextPhase::Switching { .. } => false,
            _ => true,
        }
    }

    /// Confirming a chosen target: the Switch button's reason it cannot be
    /// pressed (busy first, then the target's own reason), and the caution
    /// shown (the target's reason, else a dirty-tree hint, else no next
    /// step). Nothing unless a target awaits confirmation.
    pub fn confirm_switch_keys(&self, busy: bool) -> (r: Option<(Option<&'static str>, &'static str)>)
        ensures
            match self.phase {
                ContextPhase::ConfirmSwitch { is_dirty, disabled_reason_key, .. } => r == Some((
                    if busy {
                        Some("plain.activity.busy")
                    } else {
                        disabled_reason_key
                    },
                    match disabled_reason_key {
                        Some(k) => k,
                        None => if is_dirty {
                            "plain.switch.dirty_hint"
                        } else {
                            "plain.no_next_step"
                        },
                    },
                )),
                _ => r is None,
            },
    {
        match &self.phase {
            ContextPhase::ConfirmSwitch { is_dirty, disabled_reason_key, .. } => {
                let reason = if busy {
                    Some("plain.activity.busy")
                } else {
                    *disabled_reason_key
                };
                let caution = match disabled_reason_key {
                    Some(k) => *k,
                    None => if *is_dirty {
                        "plain.switch.dirty_hint"
                    } else {
                        "plain.no_next_step"
                    },
                };
                Some((reason, caution))
            },
            _ => None,
        }
    }
}

} // verus!
