//! Freezer: tagging a release point across projects.

use std::collections::{HashMap, HashSet};

use vstd::prelude::*;

use crate::model::{
    spec_all_ready, spec_blocked_count, spec_is_blocked, spec_ready_count, FreezeResult,
    FreezeValidation, FreezeValidationEntry, ImpactWarning,
};
use crate::state::inclusion::{included_ids, reinit_inclusion, spec_reinit};
use crate::text::{
    chars_of, contains_char, has_char, has_substring, folded, str_contains, to_lowercase, trim,
    trimmed,
};

verus! {

broadcast use vstd::std_specs::hash::group_hash_axioms;

/// The phase of the Freezer workflow.
#[derive(Debug, Clone)]
pub enum FreezerPhase {
    /// The user is naming the freeze and choosing projects.
    Idle,
    /// Validation is running under an operation lease.
    Validating { lease_id: u64 },
    /// Validation is done and awaits confirmation.
    ValidationReady(FreezeValidation),
    /// The freeze is being executed.
    Executing,
    /// The freeze finished.
    Done(FreezeResult),
}

/// The Freezer screen.
#[derive(Debug)]
pub struct FreezerState {
    pub phase: FreezerPhase,
    /// When the execution started, in seconds since the Unix epoch.
    pub execution_started_at: Option<i64>,
    /// The tag or bookmark name.
    pub freeze_name: String,
    /// The annotation; empty for a lightweight tag.
    pub tag_message: String,
    /// Impact warnings for the validation awaiting confirmation.
    pub impact_warnings: Vec<ImpactWarning>,
    /// Whether dependency data existed to check that validation against.
    pub topology_checked: bool,
    /// Per-project inclusion.
    pub project_selection: HashMap<u128, bool>,
}

impl Default for FreezerState {
    fn default() -> (s: Self)
        ensures
            s.phase is Idle,
            s.execution_started_at is None,
            s.freeze_name@.len() == 0,
            s.tag_message@.len() == 0,
            s.impact_warnings@.len() == 0,
            !s.topology_checked,
            s.project_selection@ == Map::<u128, bool>::empty(),
    {
        FreezerState {
            phase: FreezerPhase::Idle,
            execution_started_at: None,
            freeze_name: String::new(),
            tag_message: String::new(),
            impact_warnings: Vec::new(),
            topology_checked: false,
            project_selection: HashMap::new(),
        }
    }
}

/// A printable ASCII character: ASCII and not a control character.
pub open spec fn is_printable_ascii(c: char) -> bool {
    (c as u32) < 0x80 && !((c as u32) < 0x20 || (c as u32) == 0x7f)
}

/// A freeze name is valid when, trimmed, it is non-empty, has no space or
/// tab, and is printable ASCII throughout.
pub open spec fn spec_freeze_name_ok(name: Seq<char>) -> bool {
    let n = trimmed(name);
    &&& n.len() > 0
    &&& !has_char(n, ' ')
    &&& !has_char(n, '\t')
    &&& forall|i: int| 0 <= i < n.len() ==> is_printable_ascii(#[trigger] n[i])
}

fn all_printable_ascii(s: &[char]) -> (r: bool)
    ensures
        r == forall|i: int| 0 <= i < s@.len() ==> is_printable_ascii(#[trigger] s@[i]),
{
    let mut i: usize = 0;
    while i < s.len()
        invariant
            i <= s@.len(),
            forall|j: int| 0 <= j < i ==> is_printable_ascii(#[trigger] s@[j]),
        decreases s@.len() - i,
    {
        let c = s[i] as u32;
        if !(c < 0x80 && !(c < 0x20 || c == 0x7f)) {
            assert(!is_printable_ascii(s@[i as int]));
            return false;
        }
        i = i + 1;
    }
    true
}

/// Whether the Save button of a validated freeze can be pressed, or the
/// catalog key of why not.
#[derive(Debug, Clone, Copy, PartialEq, Eq)]
pub enum SaveReleaseControl {
    Enabled,
    Disabled(&'static str),
}

/// Saving needs nothing busy, no blocked project and at least one ready one.
/// Otherwise the reason is: busy; nothing chosen (no ready and no blocked
/// project); one project to fix; several to fix.
pub open spec fn spec_save_release_control(v: FreezeValidation, busy: bool) -> SaveReleaseControl {
    if busy {
        SaveReleaseControl::Disabled("plain.activity.busy")
    } else if spec_all_ready(v) && spec_ready_count(v) > 0 {
        SaveReleaseControl::Enabled
    } else if spec_ready_count(v) == 0 && spec_blocked_count(v) == 0 {
        SaveReleaseControl::Disabled("plain.disabled.choose_one")
    } else if spec_blocked_count(v) == 1 {
        SaveReleaseControl::Disabled("plain.release.fix_one")
    } else {
        SaveReleaseControl::Disabled("plain.release.fix_some")
    }
}

pub fn save_release_control(v: &FreezeValidation, busy: bool) -> (r: SaveReleaseControl)
    ensures
        r == spec_save_release_control(*v, busy),
{
    let blocked = v.blocked_count();
    let ready = v.ready_count();
    let can_save = v.all_ready() && ready > 0 && !busy;
    if busy {
        SaveReleaseControl::Disabled("plain.activity.busy")
    } else if can_save {
        SaveReleaseControl::Enabled
    } else if ready == 0 && blocked == 0 {
        SaveReleaseControl::Disabled("plain.disabled.choose_one")
    } else if blocked == 1 {
        SaveReleaseControl::Disabled("plain.release.fix_one")
    } else {
        SaveReleaseControl::Disabled("plain.release.fix_some")
    }
}

/// A freeze is saved only when nothing is busy, some project is ready and
/// no included project is blocked.
pub proof fn lemma_save_needs_ready_validation(v: FreezeValidation, busy: bool)
    ensures
        spec_save_release_control(v, busy) is Enabled <==> (!busy && spec_ready_count(v) > 0 && forall|i: int|
            0 <= i < v.entries@.len() ==> !spec_is_blocked(#[trigger] v.entries@[i])),
{
}

/// What the validate step offers while the freeze is being named.
#[derive(Debug, Clone, Copy, PartialEq, Eq)]
pub enum ValidateControl {
    /// Validation is running.
    Checking,
    /// Validation can start.
    Enabled,
    /// Validation cannot start, for this reason.
    Disabled(&'static str),
    /// The name is not valid, so nothing is offered.
    Hidden,
}

/// The step of an unvalidated freeze: checking while validating; otherwise
/// offered for a valid name, refused while busy; nothing for an invalid name.
pub open spec fn spec_validate_control(phase: FreezerPhase, name: Seq<char>, busy: bool) -> ValidateControl {
    if phase is Validating {
        ValidateControl::Checking
    } else if spec_freeze_name_ok(name) {
        if busy {
            ValidateControl::Disabled("plain.activity.busy")
        } else {
            ValidateControl::Enabled
        }
    } else {
        ValidateControl::Hidden
    }
}

/// The catalog key of one validation row: blocked (by its first blocker),
/// left out, or ready.
pub open spec fn spec_row_status(e: FreezeValidationEntry) -> Option<&'static str> {
    if spec_is_blocked(e) {
        None
    } else if !e.included {
        Some("plain.release.row_excluded")
    } else {
        Some("plain.release.row_ready")
    }
}

/// The catalog key of the message for a blocker: a name already in use, a
/// conflict, unsaved changes, or a general plea for help.
pub open spec fn spec_blocker_key(blocker: Seq<char>) -> &'static str {
    let l = folded(blocker);
    if has_substring(l, "tag"@) && has_substring(l, "exist"@) {
        "plain.release.blocker_name_used"
    } else if has_substring(l, "conflict"@) || has_substring(l, "merge"@) {
        "plain.release.blocker_needs_choice"
    } else if has_substring(l, "dirty"@) || has_substring(l, "uncommitted"@) {
        "plain.release.blocker_unsaved"
    } else {
        "plain.needs_help"
    }
}

/// Maps a blocker, as the validation reports it, to a plain message key.
pub fn blocker_key(blocker: &str) -> (r: &'static str)
    ensures
        r == spec_blocker_key(blocker@),
{
    let lower = to_lowercase(blocker);
    let l = lower.as_str();
    if str_contains(l, "tag") && str_contains(l, "exist") {
        "plain.release.blocker_name_used"
    } else if str_contains(l, "conflict") || str_contains(l, "merge") {
        "plain.release.blocker_needs_choice"
    } else if str_contains(l, "dirty") || str_contains(l, "uncommitted") {
        "plain.release.blocker_unsaved"
    } else {
        "plain.needs_help"
    }
}

/// The catalog key of a validation row's message: the first blocker's
/// message for a blocked row, else left out or ready.
pub fn row_message_key(e: &FreezeValidationEntry) -> (r: &'static str)
    ensures
        r == match spec_row_status(*e) {
            Some(k) => k,
            None => spec_blocker_key(e.blockers@[0]@),
        },
{
    if e.is_blocked() {
        blocker_key(e.blockers[0].as_str())
    } else if !e.included {
        "plain.release.row_excluded"
    } else {
        "plain.release.row_ready"
    }
}

impl FreezerState {
    /// Re-initialises inclusion from the workspace's project ids.
    pub fn init_selection(&mut self, project_ids: &[u128])
        ensures
            final(self).project_selection@ == spec_reinit(old(self).project_selection@, project_ids@),
            final(self).freeze_name@ == old(self).freeze_name@,
    {
        self.project_selection = reinit_inclusion(&self.project_selection, project_ids);
    }

    /// The included project ids.
    pub fn selected_ids(&self) -> (r: HashSet<u128>)
        ensures
            forall|k: u128|
                r@.contains(k) <==> (self.project_selection@.contains_key(k) && self.project_selection@[k]),
    {
        let ids = included_ids(&self.project_selection);
        let mut out: HashSet<u128> = HashSet::new();
        let mut i: usize = 0;
        while i < ids.len()
            invariant
                i <= ids@.len(),
                forall|k: u128| out@.contains(k) <==> ids@.take(i as int).contains(k),
            decreases ids@.len() - i,
        {
            out.insert(ids[i]);
            proof {
                let t0 = ids@.take(i as int);
                let t1 = ids@.take(i + 1);
                assert(t1 =~= t0.push(ids@[i as int]));
                assert forall|k: u128| out@.contains(k) <==> t1.contains(k) by {
                    if t1.contains(k) {
                        let j = choose|j: int| 0 <= j < t1.len() && t1[j] == k;
                        if j < i {
                            assert(t0[j] == k);
                        }
                    }
                    if t0.contains(k) {
                        let j = choose|j: int| 0 <= j < t0.len() && t0[j] == k;
                        assert(t1[j] == k);
                    }
                    if k == ids@[i as int] {
                        assert(t1[i as int] == k);
                    }
                }
            }
            i = i + 1;
        }
        assert(ids@.take(ids@.len() as int) =~= ids@);
        out
    }

    /// The validate step while the freeze is not yet validated.
    pub fn validate_control(&self, busy: bool) -> (r: ValidateControl)
        ensures
            r == spec_validate_control(self.phase, self.freeze_name@, busy),
    {
        if let FreezerPhase::Validating { .. } = self.phase {
            ValidateControl::Checking
        } else if self.freeze_name_is_valid() {
            if busy {
                ValidateControl::Disabled("plain.activity.busy")
            } else {
                ValidateControl::Enabled
            }
        } else {
            ValidateControl::Hidden
        }
    }

    /// The catalog key of the error under the name field: none while the
    /// name is empty (nothing typed yet) or valid.
    pub fn name_error_key(&self) -> (r: Option<&'static str>)
        ensures
            r == if self.freeze_name@.len() == 0 || spec_freeze_name_ok(self.freeze_name@) {
                None::<&'static str>
            } else {
                Some("plain.release.name_invalid")
            },
    {
        if self.freeze_name.as_str().is_empty() {
            None
        } else if !self.freeze_name_is_valid() {
            Some("plain.release.name_invalid")
        } else {
            None
        }
    }

    /// Whether the freeze name can be used as a tag.
    pub fn freeze_name_is_valid(&self) -> (r: bool)
        ensures
            r == spec_freeze_name_ok(self.freeze_name@),
    {
        let n = chars_of(trim(self.freeze_name.as_str()));
        n.len() > 0 && !contains_char(n.as_slice(), ' ') && !contains_char(n.as_slice(), '\t')
            && all_printable_ascii(n.as_slice())
    }
}

} // verus!
