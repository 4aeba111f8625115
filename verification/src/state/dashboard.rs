//! Dashboard classification, filtering, grouping and ordering.

use std::collections::HashSet;

use vstd::prelude::*;

use crate::config::{DashboardGrouping, DashboardSort};
use crate::message::StatusFilter;
use crate::model::{
    find_status, group_view, lemma_status_position_bounds, spec_is_dirty, status_position, Project, ProjectStatus,
    WorkspaceStatus,
};
use crate::state::FilterState;
use crate::text::{
    chars_of, compare_chars, has_substring, lemma_lex_order_antisymmetric, lemma_lex_order_range,
    lemma_lex_order_transitive, lemma_lex_order_zero, lex_order, folded, str_contains,
    to_lowercase,
};

verus! {

/// How urgently a project needs the user.
#[derive(Debug, Clone, Copy, PartialEq, Eq, Structural)]
pub enum DashboardTier {
    NeedsHelp,
    InProgress,
    AllSet,
}

/// Why a project needs help.
#[derive(Debug, Clone, Copy, PartialEq, Eq, Structural)]
pub enum DashboardCause {
    MissingPath,
    Conflict,
    ConflictDetectionUnavailable,
    ReadUnavailable,
    DetachedContext,
    StatusUnknown,
}

/// The kind of work in progress a count measures.
#[derive(Debug, Clone, Copy, PartialEq, Eq, Structural)]
pub enum ProgressKind {
    Uncommitted,
    Untracked,
    Ahead,
    Behind,
}

/// The count that explains why a project is in progress.
#[derive(Debug, Clone, Copy, PartialEq, Eq, Structural)]
pub struct RelevantCount {
    pub kind: ProgressKind,
    pub value: u32,
}

/// One dashboard row: the project (by its index in the project list), its
/// status (by its index in the status list), and its classification.
#[derive(Debug, Clone, Copy, PartialEq, Eq, Structural)]
pub struct DashboardEntry {
    pub project_index: usize,
    pub status_index: Option<usize>,
    pub project_id: u128,
    pub tier: DashboardTier,
    pub cause: Option<DashboardCause>,
    pub relevant_count: Option<RelevantCount>,
}

// ---------------------------------------------------------------------------
// Classification
// ---------------------------------------------------------------------------

/// The first non-zero count in the order uncommitted, untracked, ahead, behind.
pub open spec fn spec_relevant_count(s: ProjectStatus) -> Option<RelevantCount> {
    if s.working_tree.uncommitted_count > 0 {
        Some(RelevantCount { kind: ProgressKind::Uncommitted, value: s.working_tree.uncommitted_count })
    } else if s.working_tree.untracked_count > 0 {
        Some(RelevantCount { kind: ProgressKind::Untracked, value: s.working_tree.untracked_count })
    } else if s.remote.ahead > 0 {
        Some(RelevantCount { kind: ProgressKind::Ahead, value: s.remote.ahead })
    } else if s.remote.behind > 0 {
        Some(RelevantCount { kind: ProgressKind::Behind, value: s.remote.behind })
    } else {
        None
    }
}

/// Tier, cause and count of a project, by the first rule that applies:
/// missing path, conflict, conflict detection unavailable, read error,
/// detached context (all needing help, with that cause), no status at all
/// (needing help, status unknown), a non-zero count (in progress), else all set.
pub open spec fn spec_classify(status: Option<ProjectStatus>, path_missing: bool) -> (
    DashboardTier,
    Option<DashboardCause>,
    Option<RelevantCount>,
) {
    if path_missing {
        (DashboardTier::NeedsHelp, Some(DashboardCause::MissingPath), None)
    } else {
        match status {
            None => (DashboardTier::NeedsHelp, Some(DashboardCause::StatusUnknown), None),
            Some(s) => if s.conflict.has_conflict {
                (DashboardTier::NeedsHelp, Some(DashboardCause::Conflict), None)
            } else if s.conflict.detection_unavailable {
                (DashboardTier::NeedsHelp, Some(DashboardCause::ConflictDetectionUnavailable), None)
            } else if s.read_error is Some {
                (DashboardTier::NeedsHelp, Some(DashboardCause::ReadUnavailable), None)
            } else if s.context matches Some(c) && c.is_detached {
                (DashboardTier::NeedsHelp, Some(DashboardCause::DetachedContext), None)
            } else {
                match spec_relevant_count(s) {
                    Some(rc) => (DashboardTier::InProgress, None, Some(rc)),
                    None => (DashboardTier::AllSet, None, None),
                }
            },
        }
    }
}

/// The count that puts a status in progress, if any.
pub fn relevant_count(status: &ProjectStatus) -> (r: Option<RelevantCount>)
    ensures
        r == spec_relevant_count(*status),
{
    if status.working_tree.uncommitted_count > 0 {
        Some(RelevantCount { kind: ProgressKind::Uncommitted, value: status.working_tree.uncommitted_count })
    } else if status.working_tree.untracked_count > 0 {
        Some(RelevantCount { kind: ProgressKind::Untracked, value: status.working_tree.untracked_count })
    } else if status.remote.ahead > 0 {
        Some(RelevantCount { kind: ProgressKind::Ahead, value: status.remote.ahead })
    } else if status.remote.behind > 0 {
        Some(RelevantCount { kind: ProgressKind::Behind, value: status.remote.behind })
    } else {
        None
    }
}

/// Classifies one project from its status and whether its path is missing.
pub fn classify(status: Option<&ProjectStatus>, path_missing: bool) -> (r: (
    DashboardTier,
    Option<DashboardCause>,
    Option<RelevantCount>,
))
    ensures
        r == spec_classify(
            match status {
                Some(s) => Some(*s),
                None => None,
            },
            path_missing,
        ),
{
    if path_missing {
        return (DashboardTier::NeedsHelp, Some(DashboardCause::MissingPath), None);
    }
    match status {
        None => (DashboardTier::NeedsHelp, Some(DashboardCause::StatusUnknown), None),
        Some(s) => {
            if s.conflict.has_conflict {
                (DashboardTier::NeedsHelp, Some(DashboardCause::Conflict), None)
            } else if s.conflict.detection_unavailable {
                (DashboardTier::NeedsHelp, Some(DashboardCause::ConflictDetectionUnavailable), None)
            } else if s.read_error.is_some() {
                (DashboardTier::NeedsHelp, Some(DashboardCause::ReadUnavailable), None)
            } else if match &s.context {
                Some(c) => c.is_detached,
                None => false,
            } {
                (DashboardTier::NeedsHelp, Some(DashboardCause::DetachedContext), None)
            } else {
                match relevant_count(s) {
                    Some(rc) => (DashboardTier::InProgress, None, Some(rc)),
                    None => (DashboardTier::AllSet, None, None),
                }
            }
        },
    }
}

// ---------------------------------------------------------------------------
// Filtering
// ---------------------------------------------------------------------------

/// Whether an entry, with the status it was classified from, passes one chip.
/// Facts about behind, ahead, dirty and conflict count only where the status
/// is usable: not for a missing path, an unreadable repository or an unknown status.
pub open spec fn spec_matches_status_filter(
    entry: DashboardEntry,
    status: Option<ProjectStatus>,
    filter: StatusFilter,
) -> bool {
    let usable = !(entry.cause == Some(DashboardCause::MissingPath) || entry.cause == Some(
        DashboardCause::ReadUnavailable,
    ) || entry.cause == Some(DashboardCause::StatusUnknown));
    match filter {
        StatusFilter::AllSet => entry.tier == DashboardTier::AllSet,
        StatusFilter::Behind => usable && (status matches Some(s) && s.remote.behind > 0),
        StatusFilter::Ahead => usable && (status matches Some(s) && s.remote.ahead > 0),
        StatusFilter::Dirty => usable && (status matches Some(s) && spec_is_dirty(s.working_tree)),
        StatusFilter::Conflict => usable && (status matches Some(s) && s.conflict.has_conflict),
        StatusFilter::NeedsHelp => entry.tier == DashboardTier::NeedsHelp,
    }
}

pub fn matches_status_filter(
    entry: &DashboardEntry,
    status: Option<&ProjectStatus>,
    filter: &StatusFilter,
) -> (r: bool)
    ensures
        r == spec_matches_status_filter(
            *entry,
            match status {
                Some(s) => Some(*s),
                None => None,
            },
            *filter,
        ),
{
    let usable = !(entry.cause == Some(DashboardCause::MissingPath) || entry.cause == Some(
        DashboardCause::ReadUnavailable,
    ) || entry.cause == Some(DashboardCause::StatusUnknown));
    match filter {
        StatusFilter::AllSet => entry.tier == DashboardTier::AllSet,
        StatusFilter::Behind => usable && match status {
            Some(s) => s.remote.behind > 0,
            None => false,
        },
        StatusFilter::Ahead => usable && match status {
            Some(s) => s.remote.ahead > 0,
            None => false,
        },
        StatusFilter::Dirty => usable && match status {
            Some(s) => s.working_tree.is_dirty(),
            None => false,
        },
        StatusFilter::Conflict => usable && match status {
            Some(s) => s.conflict.has_conflict,
            None => false,
        },
        StatusFilter::NeedsHelp => entry.tier == DashboardTier::NeedsHelp,
    }
}

/// The status an entry was classified from.
pub open spec fn entry_status(statuses: Seq<ProjectStatus>, e: DashboardEntry) -> Option<ProjectStatus> {
    match e.status_index {
        Some(j) => Some(statuses[j as int]),
        None => None,
    }
}

/// Whether an entry passes the filter: its lower-cased name contains the
/// lower-cased search text (when there is one), its group is the active group
/// (when there is one), and it passes at least one status chip (when any is on).
pub open spec fn spec_matches_filter(
    project: Project,
    status: Option<ProjectStatus>,
    filter: FilterState,
    e: DashboardEntry,
) -> bool {
    &&& (filter.search_text@.len() == 0 || has_substring(
        folded(project.name@),
        folded(filter.search_text@),
    ))
    &&& (filter.active_group matches Some(g) ==> group_view(project) == Some(g@))
    &&& (filter.status_filters@.len() == 0 || exists|k: int|
        0 <= k < filter.status_filters@.len() && spec_matches_status_filter(
            e,
            status,
            #[trigger] filter.status_filters@[k],
        ))
}

pub fn matches_filter(
    entry: &DashboardEntry,
    project: &Project,
    status: Option<&ProjectStatus>,
    filter: &FilterState,
) -> (r: bool)
    ensures
        r == spec_matches_filter(
            *project,
            match status {
                Some(s) => Some(*s),
                None => None,
            },
            *filter,
            *entry,
        ),
{
    if !filter.search_text.as_str().is_empty() {
        let name = to_lowercase(project.name.as_str());
        let search = to_lowercase(filter.search_text.as_str());
        if !str_contains(name.as_str(), search.as_str()) {
            return false;
        }
    }
    match &filter.active_group {
        Some(group) => {
            let same = match &project.group {
                Some(pg) => pg.eq(group),
                None => false,
            };
            if !same {
                return false;
            }
        },
        None => {},
    }
    if filter.status_filters.len() == 0 {
        return true;
    }
    let mut k: usize = 0;
    while k < filter.status_filters.len()
        invariant
            k <= filter.status_filters@.len(),
            filter.search_text@.len() == 0 || has_substring(
                folded(project.name@),
                folded(filter.search_text@),
            ),
            filter.active_group matches Some(g) ==> group_view(*project) == Some(g@),
            forall|j: int|
                0 <= j < k ==> !spec_matches_status_filter(
                    *entry,
                    match status {
                        Some(s) => Some(*s),
                        None => None,
                    },
                    #[trigger] filter.status_filters@[j],
                ),
        decreases filter.status_filters@.len() - k,
    {
        if matches_status_filter(entry, status, &filter.status_filters[k]) {
            assert(spec_matches_status_filter(
                *entry,
                match status {
                    Some(s) => Some(*s),
                    None => None,
                },
                filter.status_filters@[k as int],
            ));
            return true;
        }
        k = k + 1;
    }
    false
}

// ---------------------------------------------------------------------------
// Ordering
// ---------------------------------------------------------------------------

pub open spec fn tier_rank(t: DashboardTier) -> int {
    match t {
        DashboardTier::NeedsHelp => 0,
        DashboardTier::InProgress => 1,
        DashboardTier::AllSet => 2,
    }
}

/// Urgency of a cause among projects needing help: conflict first, unknown last.
pub open spec fn spec_cause_rank(cause: Option<DashboardCause>) -> int {
    match cause {
        Some(DashboardCause::Conflict) => 0,
        Some(DashboardCause::MissingPath) => 1,
        Some(DashboardCause::ConflictDetectionUnavailable) => 2,
        Some(DashboardCause::ReadUnavailable) => 3,
        Some(DashboardCause::DetachedContext) => 4,
        Some(DashboardCause::StatusUnknown) | None => 5,
    }
}

pub open spec fn kind_rank(k: ProgressKind) -> int {
    match k {
        ProgressKind::Uncommitted => 0,
        ProgressKind::Untracked => 1,
        ProgressKind::Ahead => 2,
        ProgressKind::Behind => 3,
    }
}

/// Sign of an integer comparison.
pub open spec fn int_order(a: int, b: int) -> int {
    if a < b {
        -1
    } else if a > b {
        1
    } else {
        0
    }
}

/// The key an entry sorts by: tier, urgency within the tier, amount, the
/// lower-cased name and the id. Under name order only the last two count.
/// Within progress, a smaller kind comes first and, for one kind, a larger count.
pub open spec fn sort_key(e: DashboardEntry, lower_name: Seq<char>, sort: DashboardSort) -> (
    int,
    int,
    int,
    Seq<char>,
    int,
) {
    match sort {
        DashboardSort::NameAscending => (0, 0, 0, lower_name, e.project_id as int),
        DashboardSort::Recommended => {
            let (within, amount) = match e.tier {
                DashboardTier::NeedsHelp => (spec_cause_rank(e.cause), 0int),
                DashboardTier::InProgress => match e.relevant_count {
                    Some(rc) => (kind_rank(rc.kind), -(rc.value as int)),
                    None => (4int, 0int),
                },
                DashboardTier::AllSet => (0int, 0int),
            };
            (tier_rank(e.tier), within, amount, lower_name, e.project_id as int)
        },
    }
}

/// Lexicographic comparison of sort keys: -1, 0 or 1.
pub open spec fn key_order(a: (int, int, int, Seq<char>, int), b: (int, int, int, Seq<char>, int)) -> int {
    if a.0 != b.0 {
        int_order(a.0, b.0)
    } else if a.1 != b.1 {
        int_order(a.1, b.1)
    } else if a.2 != b.2 {
        int_order(a.2, b.2)
    } else if lex_order(a.3, b.3) != 0 {
        lex_order(a.3, b.3)
    } else {
        int_order(a.4, b.4)
    }
}

/// How two entries compare under `sort`: -1, 0 or 1.
pub open spec fn entry_order(
    projects: Seq<Project>,
    a: DashboardEntry,
    b: DashboardEntry,
    sort: DashboardSort,
) -> int {
    key_order(
        sort_key(a, folded(projects[a.project_index as int].name@), sort),
        sort_key(b, folded(projects[b.project_index as int].name@), sort),
    )
}

/// Every entry comes no later than the entries after it.
pub open spec fn sorted_by(projects: Seq<Project>, s: Seq<DashboardEntry>, sort: DashboardSort) -> bool {
    forall|i: int, j: int| 0 <= i < j < s.len() ==> entry_order(projects, s[i], s[j], sort) <= 0
}

pub proof fn lemma_key_order_antisymmetric(a: (int, int, int, Seq<char>, int), b: (int, int, int, Seq<char>, int))
    ensures
        key_order(a, b) == -key_order(b, a),
{
    lemma_lex_order_antisymmetric(a.3, b.3);
}

pub proof fn lemma_key_order_transitive(
    a: (int, int, int, Seq<char>, int),
    b: (int, int, int, Seq<char>, int),
    c: (int, int, int, Seq<char>, int),
)
    requires
        key_order(a, b) <= 0,
        key_order(b, c) <= 0,
    ensures
        key_order(a, c) <= 0,
{
    lemma_lex_order_range(a.3, b.3);
    lemma_lex_order_range(b.3, c.3);
    lemma_lex_order_range(a.3, c.3);
    lemma_lex_order_zero(a.3, b.3);
    lemma_lex_order_zero(b.3, c.3);
    lemma_lex_order_zero(a.3, c.3);
    if a.0 == b.0 && b.0 == c.0 && a.1 == b.1 && b.1 == c.1 && a.2 == b.2 && b.2 == c.2 {
        if lex_order(a.3, b.3) <= 0 && lex_order(b.3, c.3) <= 0 {
            lemma_lex_order_transitive(a.3, b.3, c.3);
        }
    }
}

/// Urgency of a cause among projects needing help: conflict first, unknown last.
pub fn cause_rank(cause: Option<DashboardCause>) -> (r: u8)
    ensures
        r == spec_cause_rank(cause),
{
    match cause {
        Some(DashboardCause::Conflict) => 0,
        Some(DashboardCause::MissingPath) => 1,
        Some(DashboardCause::ConflictDetectionUnavailable) => 2,
        Some(DashboardCause::ReadUnavailable) => 3,
        Some(DashboardCause::DetachedContext) => 4,
        Some(DashboardCause::StatusUnknown) | None => 5,
    }
}

fn kind_rank_of(k: ProgressKind) -> (r: u8)
    ensures
        r == kind_rank(k),
{
    match k {
        ProgressKind::Uncommitted => 0,
        ProgressKind::Untracked => 1,
        ProgressKind::Ahead => 2,
        ProgressKind::Behind => 3,
    }
}

fn tier_rank_of(t: DashboardTier) -> (r: u8)
    ensures
        r == tier_rank(t),
{
    match t {
        DashboardTier::NeedsHelp => 0,
        DashboardTier::InProgress => 1,
        DashboardTier::AllSet => 2,
    }
}

fn order_u8(a: u8, b: u8) -> (r: i8)
    ensures
        r == int_order(a as int, b as int),
{
    if a < b {
        -1
    } else if a > b {
        1
    } else {
        0
    }
}

/// Progress order: by kind, then by a larger count first; an entry with a
/// count before one without.
pub fn compare_progress(left: &DashboardEntry, right: &DashboardEntry) -> (r: i8)
    ensures
        r == (match (left.relevant_count, right.relevant_count) {
            (Some(l), Some(q)) => if kind_rank(l.kind) != kind_rank(q.kind) {
                int_order(kind_rank(l.kind), kind_rank(q.kind))
            } else {
                int_order(q.value as int, l.value as int)
            },
            (Some(_), None) => -1,
            (None, Some(_)) => 1,
            (None, None) => 0,
        }),
{
    match (left.relevant_count, right.relevant_count) {
        (Some(l), Some(q)) => {
            let c = order_u8(kind_rank_of(l.kind), kind_rank_of(q.kind));
            if c != 0 {
                c
            } else if q.value < l.value {
                -1
            } else if q.value > l.value {
                1
            } else {
                0
            }
        },
        (Some(_), None) => -1,
        (None, Some(_)) => 1,
        (None, None) => 0,
    }
}

/// Identity order: lower-cased name, then id.
pub fn compare_identity(left: &DashboardEntry, right: &DashboardEntry, names: &Vec<Vec<char>>) -> (r: i8)
    requires
        left.project_index < names@.len(),
        right.project_index < names@.len(),
    ensures
        r == (if lex_order(names@[left.project_index as int]@, names@[right.project_index as int]@) != 0 {
            lex_order(names@[left.project_index as int]@, names@[right.project_index as int]@)
        } else {
            int_order(left.project_id as int, right.project_id as int)
        }),
{
    let c = compare_chars(names[left.project_index].as_slice(), names[right.project_index].as_slice());
    if c != 0 {
        c
    } else if left.project_id < right.project_id {
        -1
    } else if left.project_id > right.project_id {
        1
    } else {
        0
    }
}

/// The lower-cased names line up with the projects.
pub open spec fn names_match(projects: Seq<Project>, names: Seq<Vec<char>>) -> bool {
    &&& names.len() == projects.len()
    &&& forall|i: int| 0 <= i < names.len() ==> #[trigger] names[i]@ == folded(projects[i].name@)
}

/// Every entry points into the project list.
pub open spec fn indices_in(s: Seq<DashboardEntry>, n: int) -> bool {
    forall|i: int| 0 <= i < s.len() ==> (#[trigger] s[i]).project_index < n
}

fn compare_entries(
    left: &DashboardEntry,
    right: &DashboardEntry,
    projects: &[Project],
    names: &Vec<Vec<char>>,
    sort: DashboardSort,
) -> (r: i8)
    requires
        names_match(projects@, names@),
        left.project_index < projects@.len(),
        right.project_index < projects@.len(),
    ensures
        r == entry_order(projects@, *left, *right, sort),
{
    proof {
        lemma_lex_order_range(names@[left.project_index as int]@, names@[right.project_index as int]@);
        assert(names@[left.project_index as int]@ == folded(projects@[left.project_index as int].name@));
        assert(names@[right.project_index as int]@ == folded(projects@[right.project_index as int].name@));
    }
    match sort {
        DashboardSort::NameAscending => compare_identity(left, right, names),
        DashboardSort::Recommended => {
            let t = order_u8(tier_rank_of(left.tier), tier_rank_of(right.tier));
            if t != 0 {
                return t;
            }
            let w = match left.tier {
                DashboardTier::NeedsHelp => order_u8(cause_rank(left.cause), cause_rank(right.cause)),
                DashboardTier::InProgress => compare_progress(left, right),
                DashboardTier::AllSet => 0,
            };
            if w != 0 {
                return w;
            }
            compare_identity(left, right, names)
        },
    }
}

/// Sorts the entries in place: afterwards they hold the same entries, each no
/// later than those after it under `sort`.
pub fn sort_entries(
    entries: &mut Vec<DashboardEntry>,
    projects: &[Project],
    names: &Vec<Vec<char>>,
    sort: DashboardSort,
)
    requires
        names_match(projects@, names@),
        indices_in(old(entries)@, projects@.len() as int),
    ensures
        sorted_by(projects@, final(entries)@, sort),
        final(entries)@.to_multiset() == old(entries)@.to_multiset(),
        indices_in(final(entries)@, projects@.len() as int),
{
    let mut out: Vec<DashboardEntry> = Vec::new();
    let n = entries.len();
    let ghost input = entries@;
    let mut k: usize = 0;
    assert(out@ =~= input.take(0));
    while k < n
        invariant
            n == input.len(),
            entries@ == input,
            k <= n,
            names_match(projects@, names@),
            indices_in(input, projects@.len() as int),
            indices_in(out@, projects@.len() as int),
            sorted_by(projects@, out@, sort),
            out@.to_multiset() == input.take(k as int).to_multiset(),
        decreases n - k,
    {
        let e = entries[k];
        let mut p: usize = out.len();
        let mut done = false;
        while p > 0 && !done
            invariant
                p <= out@.len(),
                done ==> p > 0 && entry_order(projects@, out@[p - 1], e, sort) <= 0,
                e.project_index < projects@.len(),
                names_match(projects@, names@),
                indices_in(out@, projects@.len() as int),
                forall|j: int| p <= j < out@.len() ==> entry_order(projects@, out@[j], e, sort) > 0,
            decreases p + (if done { 0int } else { 1int }),
        {
            if compare_entries(&out[p - 1], &e, projects, names, sort) > 0 {
                p = p - 1;
            } else {
                done = true;
            }
        }
        proof {
            let s = out@;
            assert forall|i: int| 0 <= i < p implies entry_order(projects@, s[i], e, sort) <= 0 by {
                if i < p - 1 {
                    assert(entry_order(projects@, s[i], s[p - 1], sort) <= 0);
                    lemma_key_order_transitive(
                        sort_key(s[i], folded(projects@[s[i].project_index as int].name@), sort),
                        sort_key(s[p - 1], folded(projects@[s[p - 1].project_index as int].name@), sort),
                        sort_key(e, folded(projects@[e.project_index as int].name@), sort),
                    );
                }
            }
            assert forall|j: int| p <= j < s.len() implies entry_order(projects@, e, s[j], sort) <= 0 by {
                lemma_key_order_antisymmetric(
                    sort_key(e, folded(projects@[e.project_index as int].name@), sort),
                    sort_key(s[j], folded(projects@[s[j].project_index as int].name@), sort),
                );
            }
        }
        let ghost before = out@;
        out.insert(p, e);
        proof {
            let s = out@;
            assert(s =~= before.insert(p as int, e));
            assert forall|i: int, j: int| 0 <= i < j < s.len() implies entry_order(projects@, s[i], s[j], sort) <= 0 by {
                if j < p {
                    assert(s[i] == before[i] && s[j] == before[j]);
                } else if j == p {
                    assert(s[i] == before[i]);
                } else if i == p {
                    assert(s[j] == before[j - 1]);
                } else if i < p {
                    assert(s[i] == before[i] && s[j] == before[j - 1]);
                } else {
                    assert(s[i] == before[i - 1] && s[j] == before[j - 1]);
                }
            }
            assert(s.remove(p as int) =~= before);
            assert(s[p as int] == e);
            assert(s.to_multiset() =~= before.to_multiset().insert(e)) by {
                s.to_multiset_ensures();
                assert(s.to_multiset().remove(e) =~= before.to_multiset());
            }
            assert(input.take(k + 1) =~= input.take(k as int).push(e));
            input.take(k as int).to_multiset_ensures();
        }
        k = k + 1;
    }
    proof {
        assert(input.take(n as int) =~= input);
    }
    *entries = out;
}


// ---------------------------------------------------------------------------
// Sections
// ---------------------------------------------------------------------------

/// What a dashboard section is headed by.
#[derive(Debug, Clone, PartialEq, Eq)]
pub enum DashboardSectionKey {
    Tier(DashboardTier),
    ProjectGroup(Option<String>),
    Flat,
}

/// The view of a section key: group names by their characters.
pub ghost enum SectionKeyView {
    Tier(DashboardTier),
    ProjectGroup(Option<Seq<char>>),
    Flat,
}

impl View for DashboardSectionKey {
    type V = SectionKeyView;

    open spec fn view(&self) -> SectionKeyView {
        match self {
            DashboardSectionKey::Tier(t) => SectionKeyView::Tier(*t),
            DashboardSectionKey::ProjectGroup(g) => SectionKeyView::ProjectGroup(
                match g {
                    Some(n) => Some(n@),
                    None => None,
                },
            ),
            DashboardSectionKey::Flat => SectionKeyView::Flat,
        }
    }
}

/// A headed run of dashboard rows; a collapsed section shows no rows.
#[derive(Debug, Clone)]
pub struct DashboardSection {
    pub key: DashboardSectionKey,
    pub collapsed: bool,
    pub entries: Vec<DashboardEntry>,
}

pub ghost struct SectionView {
    pub key: SectionKeyView,
    pub collapsed: bool,
    pub entries: Seq<DashboardEntry>,
}

impl View for DashboardSection {
    type V = SectionView;

    open spec fn view(&self) -> SectionView {
        SectionView { key: self.key@, collapsed: self.collapsed, entries: self.entries@ }
    }
}

pub open spec fn sections_view(v: Seq<DashboardSection>) -> Seq<SectionView> {
    v.map_values(|s: DashboardSection| s@)
}

/// One section with these rows, or none when there are no rows.
pub open spec fn section_if_any(key: SectionKeyView, collapsed: bool, entries: Seq<DashboardEntry>) -> Seq<
    SectionView,
> {
    if entries.len() > 0 {
        seq![SectionView { key, collapsed, entries }]
    } else {
        seq![]
    }
}

pub open spec fn tier_pred(t: DashboardTier) -> spec_fn(DashboardEntry) -> bool {
    |e: DashboardEntry| e.tier == t
}

/// Attention grouping: needs help (never collapsed), in progress, all set,
/// each with its rows in order, each only when it has rows.
pub open spec fn attention_layout(s: Seq<DashboardEntry>, in_progress_collapsed: bool, all_set_collapsed: bool) -> Seq<
    SectionView,
> {
    section_if_any(
        SectionKeyView::Tier(DashboardTier::NeedsHelp),
        false,
        s.filter(tier_pred(DashboardTier::NeedsHelp)),
    ) + section_if_any(
        SectionKeyView::Tier(DashboardTier::InProgress),
        in_progress_collapsed,
        s.filter(tier_pred(DashboardTier::InProgress)),
    ) + section_if_any(
        SectionKeyView::Tier(DashboardTier::AllSet),
        all_set_collapsed,
        s.filter(tier_pred(DashboardTier::AllSet)),
    )
}

/// No grouping: one flat section when there are rows.
pub open spec fn flat_layout(s: Seq<DashboardEntry>) -> Seq<SectionView> {
    section_if_any(SectionKeyView::Flat, false, s)
}

pub open spec fn group_pred(projects: Seq<Project>, g: Option<Seq<char>>) -> spec_fn(DashboardEntry) -> bool {
    |e: DashboardEntry| group_view(projects[e.project_index as int]) == g
}

/// Order of group names: case-insensitively, then by the exact name.
pub open spec fn name_order(a: Seq<char>, b: Seq<char>) -> int {
    if lex_order(folded(a), folded(b)) != 0 {
        lex_order(folded(a), folded(b))
    } else {
        lex_order(a, b)
    }
}

/// `names` are the distinct group names of the rows, in name order.
pub open spec fn valid_group_names(projects: Seq<Project>, s: Seq<DashboardEntry>, names: Seq<Seq<char>>) -> bool {
    &&& forall|i: int, j: int| 0 <= i < j < names.len() ==> name_order(names[i], names[j]) < 0
    &&& forall|n: Seq<char>|
        names.contains(n) <==> exists|k: int|
            0 <= k < s.len() && #[trigger] group_view(projects[s[k].project_index as int]) == Some(n)
}

/// The expanded section of group `n`.
pub open spec fn group_section(projects: Seq<Project>, s: Seq<DashboardEntry>, n: Seq<char>) -> SectionView {
    SectionView {
        key: SectionKeyView::ProjectGroup(Some(n)),
        collapsed: false,
        entries: s.filter(group_pred(projects, Some(n))),
    }
}

/// Group grouping: one section per group name, then the ungrouped rows.
pub open spec fn group_layout(projects: Seq<Project>, s: Seq<DashboardEntry>, names: Seq<Seq<char>>) -> Seq<
    SectionView,
> {
    names.map_values(|n: Seq<char>| group_section(projects, s, n)) + section_if_any(SectionKeyView::ProjectGroup(None), false, s.filter(group_pred(projects, None)))
}

/// The rows of `s` for which `pred` holds, in order.
fn filter_entries<F: Fn(&DashboardEntry) -> bool>(
    s: &Vec<DashboardEntry>,
    pred: Ghost<spec_fn(DashboardEntry) -> bool>,
    keep: F,
) -> (r: Vec<DashboardEntry>)
    requires
        forall|i: int| 0 <= i < s@.len() ==> keep.requires((&s@[i],)),
        forall|i: int, b: bool|
            0 <= i < s@.len() && #[trigger] keep.ensures((&s@[i],), b) ==> b == (pred@)(s@[i]),
    ensures
        r@ == s@.filter(pred@),
{
    let mut out: Vec<DashboardEntry> = Vec::new();
    let mut k: usize = 0;
    while k < s.len()
        invariant
            k <= s@.len(),
            out@ == s@.take(k as int).filter(pred@),
            forall|i: int| 0 <= i < s@.len() ==> keep.requires((&s@[i],)),
            forall|i: int, b: bool|
                0 <= i < s@.len() && #[trigger] keep.ensures((&s@[i],), b) ==> b == (pred@)(s@[i]),
        decreases s@.len() - k,
    {
        let e = s[k];
        proof {
            assert(s@.take(k + 1) =~= s@.take(k as int).push(e));
            s@.take(k as int).lemma_filter_push(e, pred@);
        }
        if keep(&e) {
            out.push(e);
        }
        k = k + 1;
    }
    assert(s@.take(s@.len() as int) =~= s@);
    out
}


fn is_needs_help(e: &DashboardEntry) -> (b: bool)
    ensures
        b == (tier_pred(DashboardTier::NeedsHelp))(*e),
{
    e.tier == DashboardTier::NeedsHelp
}

fn is_in_progress(e: &DashboardEntry) -> (b: bool)
    ensures
        b == (tier_pred(DashboardTier::InProgress))(*e),
{
    e.tier == DashboardTier::InProgress
}

fn is_all_set(e: &DashboardEntry) -> (b: bool)
    ensures
        b == (tier_pred(DashboardTier::AllSet))(*e),
{
    e.tier == DashboardTier::AllSet
}

fn push_section_if_any(
    out: &mut Vec<DashboardSection>,
    key: DashboardSectionKey,
    collapsed: bool,
    entries: Vec<DashboardEntry>,
)
    ensures
        sections_view(final(out)@) == sections_view(old(out)@) + section_if_any(
            key@,
            collapsed,
            entries@,
        ),
{
    let ghost before = out@;
    if entries.len() > 0 {
        out.push(DashboardSection { key, collapsed, entries });
        assert(sections_view(out@) =~= sections_view(before) + section_if_any(key@, collapsed, entries@));
    } else {
        assert(sections_view(out@) =~= sections_view(before) + section_if_any(key@, collapsed, entries@));
    }
}

/// Sections by attention tier: needs help, in progress, all set, each only
/// when it has rows, each holding its rows in their given order.
pub fn attention_sections(entries: Vec<DashboardEntry>, in_progress_collapsed: bool, all_set_collapsed: bool) -> (r: Vec<
    DashboardSection,
>)
    ensures
        sections_view(r@) == attention_layout(entries@, in_progress_collapsed, all_set_collapsed),
{
    let help = filter_entries(
        &entries,
        Ghost(tier_pred(DashboardTier::NeedsHelp)),
        is_needs_help,
    );
    let progress = filter_entries(
        &entries,
        Ghost(tier_pred(DashboardTier::InProgress)),
        is_in_progress,
    );
    let set = filter_entries(
        &entries,
        Ghost(tier_pred(DashboardTier::AllSet)),
        is_all_set,
    );
    let mut out: Vec<DashboardSection> = Vec::new();
    assert(sections_view(out@) =~= Seq::<SectionView>::empty());
    push_section_if_any(&mut out, DashboardSectionKey::Tier(DashboardTier::NeedsHelp), false, help);
    push_section_if_any(
        &mut out,
        DashboardSectionKey::Tier(DashboardTier::InProgress),
        in_progress_collapsed,
        progress,
    );
    push_section_if_any(&mut out, DashboardSectionKey::Tier(DashboardTier::AllSet), all_set_collapsed, set);
    out
}

pub proof fn lemma_name_order_facts(a: Seq<char>, b: Seq<char>)
    ensures
        name_order(a, b) == -name_order(b, a),
        name_order(a, b) == 0 <==> a == b,
        -1 <= name_order(a, b) <= 1,
{
    lemma_lex_order_antisymmetric(folded(a), folded(b));
    lemma_lex_order_antisymmetric(a, b);
    lemma_lex_order_zero(folded(a), folded(b));
    lemma_lex_order_zero(a, b);
    lemma_lex_order_range(folded(a), folded(b));
    lemma_lex_order_range(a, b);
}

pub proof fn lemma_name_order_transitive(a: Seq<char>, b: Seq<char>, c: Seq<char>)
    requires
        name_order(a, b) < 0,
        name_order(b, c) < 0,
    ensures
        name_order(a, c) < 0,
{
    let (la, lb, lc) = (folded(a), folded(b), folded(c));
    lemma_lex_order_range(la, lb);
    lemma_lex_order_range(lb, lc);
    lemma_lex_order_range(la, lc);
    lemma_lex_order_zero(la, lb);
    lemma_lex_order_zero(lb, lc);
    lemma_lex_order_zero(la, lc);
    if lex_order(la, lb) <= 0 && lex_order(lb, lc) <= 0 {
        lemma_lex_order_transitive(la, lb, lc);
    }
    if lex_order(la, lb) == 0 && lex_order(lb, lc) == 0 {
        lemma_lex_order_transitive(a, b, c);
    }
}

pub open spec fn names_view(v: Seq<String>) -> Seq<Seq<char>> {
    v.map_values(|s: String| s@)
}

/// Order of two group names: -1, 0 or 1.
fn compare_names(a_lower: &[char], a: &[char], b_lower: &[char], b: &[char]) -> (r: i8)
    ensures
        r == (if lex_order(a_lower@, b_lower@) != 0 {
            lex_order(a_lower@, b_lower@)
        } else {
            lex_order(a@, b@)
        }),
{
    let c = compare_chars(a_lower, b_lower);
    if c != 0 {
        c
    } else {
        compare_chars(a, b)
    }
}

/// The cached lower-cased and raw characters line up with the names.
pub open spec fn aligned(names: Seq<String>, lowers: Seq<Vec<char>>, raws: Seq<Vec<char>>) -> bool {
    &&& lowers.len() == names.len()
    &&& raws.len() == names.len()
    &&& forall|i: int|
        0 <= i < names.len() ==> (#[trigger] lowers[i])@ == folded(names[i]@) && raws[i]@
            == names[i]@
}

/// Names in strictly increasing name order.
pub open spec fn strictly_ordered(names: Seq<Seq<char>>) -> bool {
    forall|i: int, j: int| 0 <= i < j < names.len() ==> name_order(names[i], names[j]) < 0
}

/// The position at which `g` belongs among `names`, and whether it is there already.
fn locate_name(names: &Vec<String>, lowers: &Vec<Vec<char>>, raws: &Vec<Vec<char>>, gl: &Vec<char>, gr: &Vec<char>) -> (r: (usize, bool))
    requires
        aligned(names@, lowers@, raws@),
        strictly_ordered(names_view(names@)),
        gl@ == folded(gr@),
    ensures
        r.0 <= names@.len(),
        forall|i: int| 0 <= i < r.0 ==> name_order(names@[i]@, gr@) < 0,
        r.1 ==> r.0 < names@.len() && names@[r.0 as int]@ == gr@,
        !r.1 && r.0 < names@.len() ==> name_order(gr@, names@[r.0 as int]@) < 0,
        !r.1 ==> !names_view(names@).contains(gr@),
    {
    let mut p: usize = 0;
    let mut found = false;
    let mut stop = false;
    while p < names.len() && !stop
        invariant
            p <= names@.len(),
            aligned(names@, lowers@, raws@),
            gl@ == folded(gr@),
            forall|i: int| 0 <= i < p ==> name_order(names@[i]@, gr@) < 0,
            stop ==> p < names@.len(),
            found ==> stop && names@[p as int]@ == gr@,
            stop && !found ==> name_order(gr@, names@[p as int]@) < 0,
        decreases names@.len() - p + (if stop { 0int } else { 1int }),
    {
        assert(lowers@[p as int]@ == folded(names@[p as int]@));
        let c = compare_names(lowers[p].as_slice(), raws[p].as_slice(), gl.as_slice(), gr.as_slice());
        proof {
            lemma_name_order_facts(names@[p as int]@, gr@);
        }
        if c < 0 {
            p = p + 1;
        } else {
            stop = true;
            if c == 0 {
                found = true;
            }
        }
    }
    proof {
        let nv = names_view(names@);
        if !found {
            assert forall|i: int| 0 <= i < nv.len() implies nv[i] != gr@ by {
                if i < p {
                    lemma_name_order_facts(nv[i], gr@);
                } else if i == p {
                    lemma_name_order_facts(gr@, nv[i]);
                } else {
                    lemma_name_order_transitive(gr@, nv[p as int], nv[i]);
                    lemma_name_order_facts(gr@, nv[i]);
                }
            }
        }
    }
    (p, found)
}

/// Inserts `g` at `p`, keeping the caches aligned.
fn insert_name(
    names: &mut Vec<String>,
    lowers: &mut Vec<Vec<char>>,
    raws: &mut Vec<Vec<char>>,
    p: usize,
    g: &String,
    gl: Vec<char>,
    gr: Vec<char>,
)
    requires
        aligned(old(names)@, old(lowers)@, old(raws)@),
        p <= old(names)@.len(),
        gl@ == folded(g@),
        gr@ == g@,
    ensures
        aligned(final(names)@, final(lowers)@, final(raws)@),
        names_view(final(names)@) == names_view(old(names)@).insert(p as int, g@),
{
    let ghost before = names@;
    let ghost bl = lowers@;
    let ghost br = raws@;
    names.insert(p, g.clone());
    lowers.insert(p, gl);
    raws.insert(p, gr);
    proof {
        assert forall|i: int|
            0 <= i < names@.len() implies (#[trigger] lowers@[i])@ == folded(names@[i]@) && raws@[i]@
                == names@[i]@ by {
            if i > p {
                assert(names@[i] == before[i - 1]);
                assert(lowers@[i] == bl[i - 1]);
                assert(raws@[i] == br[i - 1]);
            } else if i < p {
                assert(names@[i] == before[i]);
                assert(lowers@[i] == bl[i]);
                assert(raws@[i] == br[i]);
            }
        }
        assert(names_view(names@) =~= names_view(before).insert(p as int, g@));
    }
}

pub proof fn lemma_insert_keeps_order(nv: Seq<Seq<char>>, p: int, g: Seq<char>)
    requires
        strictly_ordered(nv),
        0 <= p <= nv.len(),
        forall|i: int| 0 <= i < p ==> name_order(nv[i], g) < 0,
        p < nv.len() ==> name_order(g, nv[p]) < 0,
    ensures
        strictly_ordered(nv.insert(p, g)),
        forall|n: Seq<char>| nv.insert(p, g).contains(n) <==> (nv.contains(n) || n == g),
{
    let s = nv.insert(p, g);
    assert forall|i: int, j: int| 0 <= i < j < s.len() implies name_order(s[i], s[j]) < 0 by {
        if j < p {
        } else if j == p {
        } else if i == p {
            if j - 1 > p {
                lemma_name_order_transitive(g, nv[p], nv[j - 1]);
            }
        } else if i < p {
        } else {
        }
    }
    assert forall|n: Seq<char>| s.contains(n) <==> (nv.contains(n) || n == g) by {
        if s.contains(n) {
            let i = choose|i: int| 0 <= i < s.len() && s[i] == n;
            if i < p {
                assert(nv[i] == n);
            } else if i > p {
                assert(nv[i - 1] == n);
            }
        }
        if nv.contains(n) {
            let i = choose|i: int| 0 <= i < nv.len() && nv[i] == n;
            if i < p {
                assert(s[i] == n);
            } else {
                assert(s[i + 1] == n);
            }
        }
        if n == g {
            assert(s[p] == n);
        }
    }
}

/// The group names of the first `k` rows.
pub open spec fn groups_among(projects: Seq<Project>, s: Seq<DashboardEntry>, k: int, n: Seq<char>) -> bool {
    exists|q: int| 0 <= q < k && #[trigger] group_view(projects[s[q].project_index as int]) == Some(n)
}

/// The distinct group names of the rows, in name order.
pub fn group_names(entries: &Vec<DashboardEntry>, projects: &[Project]) -> (r: Vec<String>)
    requires
        indices_in(entries@, projects@.len() as int),
    ensures
        valid_group_names(projects@, entries@, names_view(r@)),
{
    let mut names: Vec<String> = Vec::new();
    let mut lowers: Vec<Vec<char>> = Vec::new();
    let mut raws: Vec<Vec<char>> = Vec::new();
    let mut k: usize = 0;
    while k < entries.len()
        invariant
            k <= entries@.len(),
            indices_in(entries@, projects@.len() as int),
            aligned(names@, lowers@, raws@),
            strictly_ordered(names_view(names@)),
            forall|n: Seq<char>|
                names_view(names@).contains(n) <==> groups_among(projects@, entries@, k as int, n),
        decreases entries@.len() - k,
    {
        let e = entries[k];
        let ghost nv = names_view(names@);
        let ghost gv = group_view(projects@[e.project_index as int]);
        assert(forall|n: Seq<char>| nv.contains(n) <==> groups_among(projects@, entries@, k as int, n));
        match &projects[e.project_index].group {
            None => {
                assert(forall|n: Seq<char>|
                    names_view(names@).contains(n) <==> (nv.contains(n) || gv == Some(n)));
            },
            Some(g) => {
                let gl = chars_of(to_lowercase(g.as_str()).as_str());
                let gr = chars_of(g.as_str());
                let (p, found) = locate_name(&names, &lowers, &raws, &gl, &gr);
                if !found {
                    insert_name(&mut names, &mut lowers, &mut raws, p, g, gl, gr);
                    proof {
                        lemma_insert_keeps_order(nv, p as int, g@);
                    }
                } else {
                    assert(nv[p as int] == g@);
                }
                assert(gv == Some(g@));
                assert(forall|n: Seq<char>|
                    names_view(names@).contains(n) <==> (nv.contains(n) || gv == Some(n)));
            },
        }
        proof {
            assert forall|n: Seq<char>|
                names_view(names@).contains(n) <==> groups_among(projects@, entries@, k + 1, n) by {
                assert(names_view(names@).contains(n) <==> (nv.contains(n) || gv == Some(n)));
                assert(nv.contains(n) <==> groups_among(projects@, entries@, k as int, n));
                if groups_among(projects@, entries@, k + 1, n) {
                    let q = choose|q: int|
                        0 <= q < k + 1 && #[trigger] group_view(projects@[entries@[q].project_index as int])
                            == Some(n);
                    if q < k {
                        assert(groups_among(projects@, entries@, k as int, n));
                    } else {
                        assert(gv == Some(n));
                    }
                }
                if groups_among(projects@, entries@, k as int, n) {
                    let q = choose|q: int|
                        0 <= q < k && #[trigger] group_view(projects@[entries@[q].project_index as int])
                            == Some(n);
                    assert(groups_among(projects@, entries@, k + 1, n));
                }
                if gv == Some(n) {
                    assert(group_view(projects@[entries@[k as int].project_index as int]) == Some(n));
                    assert(groups_among(projects@, entries@, k + 1, n));
                }
            }
        }
        k = k + 1;
    }
    proof {
        assert forall|n: Seq<char>|
            names_view(names@).contains(n) <==> exists|q: int|
                0 <= q < entries@.len() && #[trigger] group_view(
                    projects@[entries@[q].project_index as int],
                ) == Some(n) by {
            assert(groups_among(projects@, entries@, entries@.len() as int, n) <==> exists|q: int|
                0 <= q < entries@.len() && #[trigger] group_view(
                    projects@[entries@[q].project_index as int],
                ) == Some(n));
        }
    }
    names
}

/// The rows whose project is in group `name` (`None`: in no group), in order.
fn entries_in_group(entries: &Vec<DashboardEntry>, projects: &[Project], name: Option<&String>) -> (r: Vec<
    DashboardEntry,
>)
    requires
        indices_in(entries@, projects@.len() as int),
    ensures
        r@ == entries@.filter(
            group_pred(
                projects@,
                match name {
                    Some(n) => Some(n@),
                    None => None,
                },
            ),
        ),
{
    let ghost g = match name {
        Some(n) => Some(n@),
        None => None,
    };
    let mut out: Vec<DashboardEntry> = Vec::new();
    let mut k: usize = 0;
    while k < entries.len()
        invariant
            k <= entries@.len(),
            indices_in(entries@, projects@.len() as int),
            g == match name {
                Some(n) => Some(n@),
                None => None,
            },
            out@ == entries@.take(k as int).filter(group_pred(projects@, g)),
        decreases entries@.len() - k,
    {
        let e = entries[k];
        proof {
            assert(entries@.take(k + 1) =~= entries@.take(k as int).push(e));
            entries@.take(k as int).lemma_filter_push(e, group_pred(projects@, g));
        }
        let keep = match (&projects[e.project_index].group, name) {
            (Some(pg), Some(n)) => pg.eq(n),
            (None, None) => true,
            _ => false,
        };
        if keep {
            out.push(e);
        }
        k = k + 1;
    }
    assert(entries@.take(entries@.len() as int) =~= entries@);
    out
}

/// Sections by project group: one per group name in name order, then one for
/// the rows in no group when there are any. None is collapsed.
pub fn project_group_sections(entries: Vec<DashboardEntry>, projects: &[Project]) -> (r: Vec<DashboardSection>)
    requires
        indices_in(entries@, projects@.len() as int),
    ensures
        exists|names: Seq<Seq<char>>|
            valid_group_names(projects@, entries@, names) && sections_view(r@) == group_layout(
                projects@,
                entries@,
                names,
            ),
{
    let names = group_names(&entries, projects);
    let ghost nv = names_view(names@);
    let mut out: Vec<DashboardSection> = Vec::new();
    let mut i: usize = 0;
    while i < names.len()
        invariant
            i <= names@.len(),
            nv == names_view(names@),
            indices_in(entries@, projects@.len() as int),
            sections_view(out@) == nv.take(i as int).map_values(
                |n: Seq<char>| group_section(projects@, entries@, n),
            ),
        decreases names@.len() - i,
    {
        let es = entries_in_group(&entries, projects, Some(&names[i]));
        let ghost before = out@;
        let key = DashboardSectionKey::ProjectGroup(Some(names[i].clone()));
        out.push(DashboardSection { key, collapsed: false, entries: es });
        proof {
            assert(nv.take(i + 1) =~= nv.take(i as int).push(nv[i as int]));
            assert(sections_view(out@) =~= sections_view(before).push(
                group_section(projects@, entries@, nv[i as int]),
            ));
            assert(nv.take(i + 1).map_values(|n: Seq<char>| group_section(projects@, entries@, n))
                =~= nv.take(i as int).map_values(|n: Seq<char>| group_section(projects@, entries@, n)).push(
                group_section(projects@, entries@, nv[i as int]),
            ));
        }
        i = i + 1;
    }
    assert(nv.take(names@.len() as int) =~= nv);
    let ungrouped = entries_in_group(&entries, projects, None);
    push_section_if_any(&mut out, DashboardSectionKey::ProjectGroup(None), false, ungrouped);
    out
}

/// The ids of the rows a user can see and select: those of every section
/// that is not collapsed, in display order.
pub open spec fn selectable_ids(secs: Seq<SectionView>) -> Seq<u128>
    decreases secs.len(),
{
    if secs.len() == 0 {
        seq![]
    } else {
        selectable_ids(secs.drop_last()) + if secs.last().collapsed {
            Seq::<u128>::empty()
        } else {
            secs.last().entries.map_values(|e: DashboardEntry| e.project_id)
        }
    }
}

/// The ids of the visible rows, section by section.
pub fn visible_ids(sections: &Vec<DashboardSection>) -> (r: Vec<u128>)
    ensures
        r@ == selectable_ids(sections_view(sections@)),
{
    let mut ids: Vec<u128> = Vec::new();
    let mut i: usize = 0;
    while i < sections.len()
        invariant
            i <= sections@.len(),
            ids@ == selectable_ids(sections_view(sections@.take(i as int))),
        decreases sections@.len() - i,
    {
        let ghost base = ids@;
        let sec = &sections[i];
        proof {
            assert(sections_view(sections@.take(i + 1)).drop_last() =~= sections_view(sections@.take(i as int)));
            assert(sections_view(sections@.take(i + 1)).last() == sec@);
        }
        if !sec.collapsed {
            let mut j: usize = 0;
            while j < sec.entries.len()
                invariant
                    j <= sec.entries@.len(),
                    ids@ == base + sec.entries@.take(j as int).map_values(|e: DashboardEntry| e.project_id),
                decreases sec.entries@.len() - j,
            {
                ids.push(sec.entries[j].project_id);
                proof {
                    assert(sec.entries@.take(j + 1).map_values(|e: DashboardEntry| e.project_id)
                        =~= sec.entries@.take(j as int).map_values(|e: DashboardEntry| e.project_id).push(
                        sec.entries@[j as int].project_id,
                    ));
                }
                j = j + 1;
            }
            assert(sec.entries@.take(sec.entries@.len() as int) =~= sec.entries@);
        } else {
            assert(ids@ =~= base + Seq::<u128>::empty());
        }
        i = i + 1;
    }
    assert(sections@.take(sections@.len() as int) =~= sections@);
    ids
}


// ---------------------------------------------------------------------------
// The whole display
// ---------------------------------------------------------------------------

/// The options the dashboard is laid out with.
#[derive(Debug, Clone, Copy)]
pub struct DashboardDisplayOptions {
    pub grouping: DashboardGrouping,
    pub sort: DashboardSort,
    pub in_progress_collapsed: bool,
    pub all_set_collapsed: bool,
}

/// The sections to draw and, in order, the ids of the rows that can be selected.
#[derive(Debug, Clone)]
pub struct DashboardDisplay {
    pub sections: Vec<DashboardSection>,
    pub ordered_selectable_ids: Vec<u128>,
}

/// The entry of project `i`: its first status, classified.
pub open spec fn spec_entry(projects: Seq<Project>, statuses: Seq<ProjectStatus>, missing: Set<u128>, i: int) -> DashboardEntry {
    let p = projects[i];
    let pos = status_position(statuses, p.id);
    let st = match pos {
        Some(j) => Some(statuses[j]),
        None => None,
    };
    let c = spec_classify(st, missing.contains(p.id));
    DashboardEntry {
        project_index: i as usize,
        status_index: match pos {
            Some(j) => Some(j as usize),
            None => None,
        },
        project_id: p.id,
        tier: c.0,
        cause: c.1,
        relevant_count: c.2,
    }
}

/// The entries of the first `n` projects that pass the filter, in project order.
pub open spec fn spec_candidates(
    projects: Seq<Project>,
    statuses: Seq<ProjectStatus>,
    missing: Set<u128>,
    filter: FilterState,
    n: nat,
) -> Seq<DashboardEntry>
    decreases n,
{
    if n == 0 || n > projects.len() {
        seq![]
    } else {
        let prev = spec_candidates(projects, statuses, missing, filter, (n - 1) as nat);
        let e = spec_entry(projects, statuses, missing, n - 1);
        if spec_matches_filter(projects[n - 1], entry_status(statuses, e), filter, e) {
            prev.push(e)
        } else {
            prev
        }
    }
}

/// `secs` lays out the ordered rows `s` as the grouping asks.
pub open spec fn layout_matches(
    projects: Seq<Project>,
    s: Seq<DashboardEntry>,
    options: DashboardDisplayOptions,
    secs: Seq<SectionView>,
) -> bool {
    match options.grouping {
        DashboardGrouping::Attention => secs == attention_layout(
            s,
            options.in_progress_collapsed,
            options.all_set_collapsed,
        ),
        DashboardGrouping::ProjectGroup => exists|names: Seq<Seq<char>>|
            valid_group_names(projects, s, names) && secs == group_layout(projects, s, names),
        DashboardGrouping::Flat => secs == flat_layout(s),
    }
}

pub open spec fn statuses_of(workspace_status: Option<&WorkspaceStatus>) -> Seq<ProjectStatus> {
    match workspace_status {
        Some(ws) => ws.projects@,
        None => seq![],
    }
}

/// The dashboard for a workspace: every project is classified from its first
/// status (or as missing), those passing the filter are sorted, laid out in
/// sections, and the rows of the expanded sections give the selectable ids.
pub fn build_dashboard_display(
    projects: &[Project],
    workspace_status: Option<&WorkspaceStatus>,
    missing_projects: &HashSet<u128>,
    filter: &FilterState,
    options: DashboardDisplayOptions,
) -> (display: DashboardDisplay)
    ensures
        exists|sorted: Seq<DashboardEntry>|
            {
                &&& sorted.to_multiset() == spec_candidates(
                    projects@,
                    statuses_of(workspace_status),
                    missing_projects@,
                    *filter,
                    projects@.len() as nat,
                ).to_multiset()
                &&& sorted_by(projects@, sorted, options.sort)
                &&& layout_matches(projects@, sorted, options, sections_view(display.sections@))
            },
        display.ordered_selectable_ids@ == selectable_ids(sections_view(display.sections@)),
        section_entries(sections_view(display.sections@)).to_multiset() == spec_candidates(
            projects@,
            statuses_of(workspace_status),
            missing_projects@,
            *filter,
            projects@.len() as nat,
        ).to_multiset(),
        distinct_ids(projects@) ==> rows_have_distinct_ids(section_entries(sections_view(display.sections@))),
        distinct_ids(projects@) ==> sections_have_distinct_ids(sections_view(display.sections@)),
        options.grouping != DashboardGrouping::Attention ==> none_collapsed(sections_view(display.sections@)),
{
    broadcast use vstd::std_specs::hash::group_hash_axioms;

    let empty: Vec<ProjectStatus> = Vec::new();
    let statuses: &[ProjectStatus] = match workspace_status {
        Some(ws) => ws.projects.as_slice(),
        None => empty.as_slice(),
    };
    assert(statuses@ == statuses_of(workspace_status));
    let mut names: Vec<Vec<char>> = Vec::new();
    let mut entries: Vec<DashboardEntry> = Vec::new();
    let mut i: usize = 0;
    while i < projects.len()
        invariant
            i <= projects@.len(),
            statuses@ == statuses_of(workspace_status),
            names@.len() == i,
            forall|j: int| 0 <= j < i ==> #[trigger] names@[j]@ == folded(projects@[j].name@),
            entries@ == spec_candidates(projects@, statuses@, missing_projects@, *filter, i as nat),
            indices_in(entries@, i as int),
        decreases projects@.len() - i,
    {
        let p = &projects[i];
        names.push(chars_of(to_lowercase(p.name.as_str()).as_str()));
        let pos = find_status(statuses, p.id);
        proof {
            lemma_status_position_bounds(statuses@, p.id);
        }
        let status: Option<&ProjectStatus> = match pos {
            Some(j) => Some(&statuses[j]),
            None => None,
        };
        let missing = missing_projects.contains(&p.id);
        let (tier, cause, relevant_count) = classify(status, missing);
        let entry = DashboardEntry {
            project_index: i,
            status_index: pos,
            project_id: p.id,
            tier,
            cause,
            relevant_count,
        };
        assert(entry == spec_entry(projects@, statuses@, missing_projects@, i as int));
        if matches_filter(&entry, p, status, filter) {
            entries.push(entry);
        }
        i = i + 1;
    }
    sort_entries(&mut entries, projects, &names, options.sort);
    let ghost sorted = entries@;
    let sections = match options.grouping {
        DashboardGrouping::Attention => attention_sections(
            entries,
            options.in_progress_collapsed,
            options.all_set_collapsed,
        ),
        DashboardGrouping::ProjectGroup => project_group_sections(entries, projects),
        DashboardGrouping::Flat => {
            let mut out: Vec<DashboardSection> = Vec::new();
            assert(sections_view(out@) =~= Seq::<SectionView>::empty());
            push_section_if_any(&mut out, DashboardSectionKey::Flat, false, entries);
            out
        },
    };
    let ids = visible_ids(&sections);
    assert(layout_matches(projects@, sorted, options, sections_view(sections@)));
    proof {
        lemma_sections_partition_rows(projects@, sorted, options, sections_view(sections@));
        if options.grouping != DashboardGrouping::Attention {
            lemma_only_attention_collapses(projects@, sorted, options, sections_view(sections@));
        }
        if distinct_ids(projects@) {
            lemma_rows_have_distinct_ids(
                projects@,
                statuses@,
                missing_projects@,
                *filter,
                section_entries(sections_view(sections@)),
            );
            lemma_no_project_in_two_sections(sections_view(sections@));
        }
    }
    DashboardDisplay { sections, ordered_selectable_ids: ids }
}


// ---------------------------------------------------------------------------
// Every row in exactly one section
// ---------------------------------------------------------------------------

/// The rows of all sections, section after section.
pub open spec fn section_entries(secs: Seq<SectionView>) -> Seq<DashboardEntry>
    decreases secs.len(),
{
    if secs.len() == 0 {
        seq![]
    } else {
        section_entries(secs.drop_last()) + secs.last().entries
    }
}

proof fn lemma_count_push(s: Seq<DashboardEntry>, a: DashboardEntry, x: DashboardEntry)
    ensures
        s.push(a).to_multiset().count(x) == s.to_multiset().count(x) + if a == x {
            1nat
        } else {
            0nat
        },
{
    s.to_multiset_ensures();
}

proof fn lemma_count_concat(a: Seq<DashboardEntry>, b: Seq<DashboardEntry>, x: DashboardEntry)
    ensures
        (a + b).to_multiset().count(x) == a.to_multiset().count(x) + b.to_multiset().count(x),
    decreases b.len(),
{
    if b.len() == 0 {
        assert(a + b =~= a);
        assert(b.to_multiset().count(x) == 0) by {
            b.to_multiset_ensures();
        }
    } else {
        let bi = b.drop_last();
        lemma_count_concat(a, bi, x);
        assert(a + b =~= (a + bi).push(b.last()));
        assert(b =~= bi.push(b.last()));
        lemma_count_push(a + bi, b.last(), x);
        lemma_count_push(bi, b.last(), x);
    }
}

proof fn lemma_count_filter(s: Seq<DashboardEntry>, p: spec_fn(DashboardEntry) -> bool, x: DashboardEntry)
    ensures
        s.filter(p).to_multiset().count(x) == if p(x) {
            s.to_multiset().count(x)
        } else {
            0
        },
    decreases s.len(),
{
    if s.len() == 0 {
        s.to_multiset_ensures();
        s.filter(p).to_multiset_ensures();
    } else {
        let si = s.drop_last();
        lemma_count_filter(si, p, x);
        assert(s =~= si.push(s.last()));
        si.lemma_filter_push(s.last(), p);
        lemma_count_push(si, s.last(), x);
        lemma_count_push(si.filter(p), s.last(), x);
    }
}

proof fn lemma_section_entries_concat(a: Seq<SectionView>, b: Seq<SectionView>)
    ensures
        section_entries(a + b) == section_entries(a) + section_entries(b),
    decreases b.len(),
{
    if b.len() == 0 {
        assert(a + b =~= a);
        assert(section_entries(a) + section_entries(b) =~= section_entries(a));
    } else {
        lemma_section_entries_concat(a, b.drop_last());
        assert((a + b).drop_last() =~= a + b.drop_last());
        assert(section_entries(a + b) =~= section_entries(a) + section_entries(b));
    }
}

proof fn lemma_section_if_any_entries(key: SectionKeyView, collapsed: bool, e: Seq<DashboardEntry>)
    ensures
        section_entries(section_if_any(key, collapsed, e)) == e,
{
    if e.len() > 0 {
        let one = seq![SectionView { key, collapsed, entries: e }];
        assert(one.drop_last() =~= Seq::<SectionView>::empty());
        assert(section_entries(one.drop_last()) =~= Seq::<DashboardEntry>::empty());
        assert(one.last().entries == e);
        assert(section_entries(one) =~= e);
    } else {
        assert(e =~= Seq::<DashboardEntry>::empty());
    }
}

proof fn lemma_named_sections_count(
    projects: Seq<Project>,
    s: Seq<DashboardEntry>,
    names: Seq<Seq<char>>,
    x: DashboardEntry,
)
    requires
        strictly_ordered(names),
    ensures
        section_entries(names.map_values(|n: Seq<char>| group_section(projects, s, n))).to_multiset().count(x)
            == if group_view(projects[x.project_index as int]) matches Some(n) && names.contains(n) {
            s.to_multiset().count(x)
        } else {
            0
        },
    decreases names.len(),
{
    let secs = names.map_values(|n: Seq<char>| group_section(projects, s, n));
    if names.len() == 0 {
        assert(section_entries(secs) =~= Seq::<DashboardEntry>::empty());
        section_entries(secs).to_multiset_ensures();
    } else {
        let init = names.drop_last();
        let last = names.last();
        assert(strictly_ordered(init));
        lemma_named_sections_count(projects, s, init, x);
        let isecs = init.map_values(|n: Seq<char>| group_section(projects, s, n));
        assert(secs.drop_last() =~= isecs);
        lemma_count_concat(section_entries(isecs), s.filter(group_pred(projects, Some(last))), x);
        lemma_count_filter(s, group_pred(projects, Some(last)), x);
        if group_view(projects[x.project_index as int]) == Some(last) {
            assert forall|i: int| 0 <= i < init.len() implies init[i] != last by {
                assert(name_order(names[i], names[names.len() - 1]) < 0);
                lemma_name_order_facts(names[i], last);
            }
        }
        if let Some(n) = group_view(projects[x.project_index as int]) {
            if names.contains(n) && n != last {
                let i = choose|i: int| 0 <= i < names.len() && names[i] == n;
                assert(init[i] == n);
            }
            if init.contains(n) {
                let i = choose|i: int| 0 <= i < init.len() && init[i] == n;
                assert(names[i] == n);
            }
        }
    }
}

/// Whatever the grouping, the sections together hold each row exactly as
/// often as the ordered rows do: no row is lost or shown twice.
pub proof fn lemma_sections_partition_rows(
    projects: Seq<Project>,
    s: Seq<DashboardEntry>,
    options: DashboardDisplayOptions,
    secs: Seq<SectionView>,
)
    requires
        layout_matches(projects, s, options, secs),
    ensures
        section_entries(secs).to_multiset() == s.to_multiset(),
{
    assert forall|x: DashboardEntry|
        section_entries(secs).to_multiset().count(x) == s.to_multiset().count(x) by {
        match options.grouping {
            DashboardGrouping::Attention => {
                let a = section_if_any(
                    SectionKeyView::Tier(DashboardTier::NeedsHelp),
                    false,
                    s.filter(tier_pred(DashboardTier::NeedsHelp)),
                );
                let b = section_if_any(
                    SectionKeyView::Tier(DashboardTier::InProgress),
                    options.in_progress_collapsed,
                    s.filter(tier_pred(DashboardTier::InProgress)),
                );
                let c = section_if_any(
                    SectionKeyView::Tier(DashboardTier::AllSet),
                    options.all_set_collapsed,
                    s.filter(tier_pred(DashboardTier::AllSet)),
                );
                lemma_section_entries_concat(a + b, c);
                lemma_section_entries_concat(a, b);
                lemma_section_if_any_entries(
                    SectionKeyView::Tier(DashboardTier::NeedsHelp),
                    false,
                    s.filter(tier_pred(DashboardTier::NeedsHelp)),
                );
                lemma_section_if_any_entries(
                    SectionKeyView::Tier(DashboardTier::InProgress),
                    options.in_progress_collapsed,
                    s.filter(tier_pred(DashboardTier::InProgress)),
                );
                lemma_section_if_any_entries(
                    SectionKeyView::Tier(DashboardTier::AllSet),
                    options.all_set_collapsed,
                    s.filter(tier_pred(DashboardTier::AllSet)),
                );
                let fa = s.filter(tier_pred(DashboardTier::NeedsHelp));
                let fb = s.filter(tier_pred(DashboardTier::InProgress));
                let fc = s.filter(tier_pred(DashboardTier::AllSet));
                lemma_count_concat(fa + fb, fc, x);
                lemma_count_concat(fa, fb, x);
                lemma_count_filter(s, tier_pred(DashboardTier::NeedsHelp), x);
                lemma_count_filter(s, tier_pred(DashboardTier::InProgress), x);
                lemma_count_filter(s, tier_pred(DashboardTier::AllSet), x);
            },
            DashboardGrouping::Flat => {
                lemma_section_if_any_entries(SectionKeyView::Flat, false, s);
            },
            DashboardGrouping::ProjectGroup => {
                let names = choose|names: Seq<Seq<char>>|
                    valid_group_names(projects, s, names) && secs == group_layout(projects, s, names);
                let named = names.map_values(|n: Seq<char>| group_section(projects, s, n));
                let rest = section_if_any(
                    SectionKeyView::ProjectGroup(None),
                    false,
                    s.filter(group_pred(projects, None)),
                );
                lemma_section_entries_concat(named, rest);
                lemma_section_if_any_entries(
                    SectionKeyView::ProjectGroup(None),
                    false,
                    s.filter(group_pred(projects, None)),
                );
                lemma_count_concat(section_entries(named), s.filter(group_pred(projects, None)), x);
                lemma_count_filter(s, group_pred(projects, None), x);
                lemma_named_sections_count(projects, s, names, x);
                s.to_multiset_ensures();
                if s.contains(x) {
                    let k = choose|k: int| 0 <= k < s.len() && s[k] == x;
                    if let Some(n) = group_view(projects[x.project_index as int]) {
                        assert(group_view(projects[s[k].project_index as int]) == Some(n));
                        assert(names.contains(n));
                    }
                }
            },
        }
    }
    assert(section_entries(secs).to_multiset() =~= s.to_multiset());
}


// ---------------------------------------------------------------------------
// No project in two rows
// ---------------------------------------------------------------------------

/// No two projects share an id.
pub open spec fn distinct_ids(projects: Seq<Project>) -> bool {
    forall|i: int, j: int|
        0 <= i < projects.len() && 0 <= j < projects.len() && i != j ==> #[trigger] projects[i].id
            != #[trigger] projects[j].id
}

/// No two rows share a project id.
pub open spec fn rows_have_distinct_ids(s: Seq<DashboardEntry>) -> bool {
    forall|a: int, b: int|
        0 <= a < s.len() && 0 <= b < s.len() && a != b ==> #[trigger] s[a].project_id
            != #[trigger] s[b].project_id
}

proof fn lemma_candidates_shape(
    projects: Seq<Project>,
    statuses: Seq<ProjectStatus>,
    missing: Set<u128>,
    filter: FilterState,
    n: nat,
)
    requires
        n <= projects.len(),
        projects.len() <= usize::MAX,
    ensures
        ({
            let c = spec_candidates(projects, statuses, missing, filter, n);
            &&& forall|k: int| 0 <= k < c.len() ==> (#[trigger] c[k]).project_index < n
                && c[k].project_id == projects[c[k].project_index as int].id
            &&& forall|k: int, l: int| 0 <= k < l < c.len() ==> (#[trigger] c[k]).project_index
                < (#[trigger] c[l]).project_index
        }),
    decreases n,
{
    if n > 0 {
        lemma_candidates_shape(projects, statuses, missing, filter, (n - 1) as nat);
        let prev = spec_candidates(projects, statuses, missing, filter, (n - 1) as nat);
        let e = spec_entry(projects, statuses, missing, n - 1);
        assert(e.project_index == n - 1);
        assert(e.project_id == projects[n - 1].id);
        let c = spec_candidates(projects, statuses, missing, filter, n);
        assert(c == prev || c == prev.push(e));
    }
}

/// With distinct project ids, rows that are a reordering of the filtered
/// projects never show one project twice.
pub proof fn lemma_rows_have_distinct_ids(
    projects: Seq<Project>,
    statuses: Seq<ProjectStatus>,
    missing: Set<u128>,
    filter: FilterState,
    rows: Seq<DashboardEntry>,
)
    requires
        distinct_ids(projects),
        projects.len() <= usize::MAX,
        rows.to_multiset() == spec_candidates(projects, statuses, missing, filter, projects.len() as nat).to_multiset(),
    ensures
        rows_have_distinct_ids(rows),
{
    let c = spec_candidates(projects, statuses, missing, filter, projects.len() as nat);
    lemma_candidates_shape(projects, statuses, missing, filter, projects.len() as nat);
    assert forall|a: int, b: int| 0 <= a < c.len() && 0 <= b < c.len() && a != b implies c[a].project_id
        != c[b].project_id by {
        if a < b {
            assert(c[a].project_index < c[b].project_index);
        } else {
            assert(c[b].project_index < c[a].project_index);
        }
        assert(projects[c[a].project_index as int].id != projects[c[b].project_index as int].id);
    }
    assert(c.no_duplicates()) by {
        assert forall|a: int, b: int| 0 <= a < c.len() && 0 <= b < c.len() && a != b implies c[a] != c[b] by {
            assert(c[a].project_id != c[b].project_id);
        }
    }
    c.lemma_multiset_has_no_duplicates();
    rows.lemma_multiset_has_no_duplicates_conv();
    rows.to_multiset_ensures();
    c.to_multiset_ensures();
    assert forall|a: int, b: int| 0 <= a < rows.len() && 0 <= b < rows.len() && a != b implies rows[a].project_id
        != rows[b].project_id by {
        let x = rows[a];
        let y = rows[b];
        assert(rows.contains(x));
        assert(rows.contains(y));
        assert(rows.to_multiset().count(x) > 0);
        assert(rows.to_multiset().count(y) > 0);
        assert(c.to_multiset().count(x) > 0);
        assert(c.to_multiset().count(y) > 0);
        assert(c.contains(x));
        assert(c.contains(y));
        let p = choose|p: int| 0 <= p < c.len() && c[p] == x;
        let q = choose|q: int| 0 <= q < c.len() && c[q] == y;
        assert(x != y);
        assert(p != q);
    }
}

/// No project id occurs twice among the sections' rows: neither within one
/// section nor in two.
pub open spec fn sections_have_distinct_ids(secs: Seq<SectionView>) -> bool {
    forall|i: int, j: int, p: int, q: int|
        0 <= i < secs.len() && 0 <= j < secs.len() && 0 <= p < secs[i].entries.len() && 0 <= q
            < secs[j].entries.len() && (i != j || p != q) ==> #[trigger] secs[i].entries[p].project_id
            != #[trigger] secs[j].entries[q].project_id
}

proof fn lemma_section_prefix(secs: Seq<SectionView>, i: int, j: int)
    requires
        0 <= i <= j <= secs.len(),
    ensures
        section_entries(secs.take(j)) == section_entries(secs.take(i)) + section_entries(secs.subrange(i, j)),
{
    assert(secs.take(j) =~= secs.take(i) + secs.subrange(i, j));
    lemma_section_entries_concat(secs.take(i), secs.subrange(i, j));
}

proof fn lemma_section_position(secs: Seq<SectionView>, i: int, p: int)
    requires
        0 <= i < secs.len(),
        0 <= p < secs[i].entries.len(),
    ensures
        section_entries(secs.take(i)).len() + p < section_entries(secs.take(i + 1)).len(),
        section_entries(secs.take(i + 1)).len() <= section_entries(secs).len(),
        section_entries(secs)[section_entries(secs.take(i)).len() + p] == secs[i].entries[p],
{
    lemma_section_prefix(secs, i, i + 1);
    lemma_section_prefix(secs, i + 1, secs.len() as int);
    assert(secs.subrange(i, i + 1) =~= seq![secs[i]]);
    let one = seq![secs[i]];
    assert(one.drop_last() =~= Seq::<SectionView>::empty());
    assert(section_entries(one.drop_last()) == Seq::<DashboardEntry>::empty());
    assert(section_entries(one) == section_entries(one.drop_last()) + one.last().entries);
    assert(section_entries(one) =~= secs[i].entries);
    assert(secs.take(secs.len() as int) =~= secs);
}

/// Rows without repeated ids, laid out in sections, put no project in two
/// sections and none twice in one.
pub proof fn lemma_no_project_in_two_sections(secs: Seq<SectionView>)
    requires
        rows_have_distinct_ids(section_entries(secs)),
    ensures
        sections_have_distinct_ids(secs),
{
    let all = section_entries(secs);
    assert forall|i: int, j: int, p: int, q: int|
        0 <= i < secs.len() && 0 <= j < secs.len() && 0 <= p < secs[i].entries.len() && 0 <= q
            < secs[j].entries.len() && (i != j || p != q) implies #[trigger] secs[i].entries[p].project_id
            != #[trigger] secs[j].entries[q].project_id by {
        lemma_section_position(secs, i, p);
        lemma_section_position(secs, j, q);
        let a = section_entries(secs.take(i)).len() + p;
        let b = section_entries(secs.take(j)).len() + q;
        if i < j {
            lemma_section_prefix(secs, i + 1, j);
        } else if j < i {
            lemma_section_prefix(secs, j + 1, i);
        }
        assert(a != b);
        assert(all[a].project_id != all[b].project_id);
    }
}

/// No section is collapsed.
pub open spec fn none_collapsed(secs: Seq<SectionView>) -> bool {
    forall|k: int| 0 <= k < secs.len() ==> !(#[trigger] secs[k]).collapsed
}

/// Only the attention grouping collapses a section: laid out flat or by
/// project group, every section shows its rows.
pub proof fn lemma_only_attention_collapses(
    projects: Seq<Project>,
    s: Seq<DashboardEntry>,
    options: DashboardDisplayOptions,
    secs: Seq<SectionView>,
)
    requires
        layout_matches(projects, s, options, secs),
        options.grouping != DashboardGrouping::Attention,
    ensures
        none_collapsed(secs),
{
    if options.grouping == DashboardGrouping::ProjectGroup {
        let names = choose|names: Seq<Seq<char>>|
            valid_group_names(projects, s, names) && secs == group_layout(projects, s, names);
        let named = names.map_values(|n: Seq<char>| group_section(projects, s, n));
        let rest = section_if_any(SectionKeyView::ProjectGroup(None), false, s.filter(group_pred(projects, None)));
        assert forall|k: int| 0 <= k < secs.len() implies !(#[trigger] secs[k]).collapsed by {
            if k < named.len() {
                assert(secs[k] == named[k]);
            } else {
                assert(secs[k] == rest[k - named.len()]);
            }
        }
    }
}

// ---------------------------------------------------------------------------
// Laws of classification and filtering
// ---------------------------------------------------------------------------

/// The count shown for a project in progress is that project's own count of
/// the kind it names, and it is not zero; every kind before it, in the order
/// uncommitted, untracked, ahead, behind, is zero. There is no count exactly
/// when all four are zero.
pub proof fn lemma_relevant_count_is_own_count(s: ProjectStatus)
    ensures
        match spec_relevant_count(s) {
            Some(rc) => {
                &&& rc.value > 0
                &&& rc.value == match rc.kind {
                    ProgressKind::Uncommitted => s.working_tree.uncommitted_count,
                    ProgressKind::Untracked => s.working_tree.untracked_count,
                    ProgressKind::Ahead => s.remote.ahead,
                    ProgressKind::Behind => s.remote.behind,
                }
                &&& (rc.kind != ProgressKind::Uncommitted ==> s.working_tree.uncommitted_count == 0)
                &&& ((rc.kind == ProgressKind::Ahead || rc.kind == ProgressKind::Behind)
                    ==> s.working_tree.untracked_count == 0)
                &&& (rc.kind == ProgressKind::Behind ==> s.remote.ahead == 0)
            },
            None => s.working_tree.uncommitted_count == 0 && s.working_tree.untracked_count == 0
                && s.remote.ahead == 0 && s.remote.behind == 0,
        },
{
}

/// For a project at an existing path whose repository was read, the behind,
/// ahead, dirty and conflict chips read the status itself: a project matches
/// the chip exactly when it is behind, ahead, has uncommitted or untracked
/// files, or has a conflict.
pub proof fn lemma_chips_read_the_status(s: ProjectStatus, e: DashboardEntry)
    requires
        s.read_error is None,
        e.tier == spec_classify(Some(s), false).0,
        e.cause == spec_classify(Some(s), false).1,
    ensures
        spec_matches_status_filter(e, Some(s), StatusFilter::Behind) == (s.remote.behind > 0),
        spec_matches_status_filter(e, Some(s), StatusFilter::Ahead) == (s.remote.ahead > 0),
        spec_matches_status_filter(e, Some(s), StatusFilter::Dirty) == (s.working_tree.uncommitted_count
            > 0 || s.working_tree.untracked_count > 0),
        spec_matches_status_filter(e, Some(s), StatusFilter::Conflict) == s.conflict.has_conflict,
        spec_matches_status_filter(e, Some(s), StatusFilter::NeedsHelp) == (s.conflict.has_conflict
            || s.conflict.detection_unavailable || (s.context matches Some(c) && c.is_detached)),
        spec_matches_status_filter(e, Some(s), StatusFilter::AllSet) == (!s.conflict.has_conflict
            && !s.conflict.detection_unavailable && !(s.context matches Some(c) && c.is_detached)
            && s.working_tree.uncommitted_count == 0 && s.working_tree.untracked_count == 0
            && s.remote.ahead == 0 && s.remote.behind == 0),
{
}

/// A shown entry passes the search and group parts of the filter: its
/// lower-cased name holds the lower-cased search text, when there is one,
/// and it belongs to the active group, when there is one. With no search,
/// no group and no chip, every entry is shown.
pub proof fn lemma_shown_entry_passes_search_and_group(
    project: Project,
    status: Option<ProjectStatus>,
    filter: FilterState,
    e: DashboardEntry,
)
    ensures
        spec_matches_filter(project, status, filter, e) ==> (filter.search_text@.len() == 0
            || has_substring(folded(project.name@), folded(filter.search_text@))),
        spec_matches_filter(project, status, filter, e) ==> (filter.active_group matches Some(g)
            ==> project.group matches Some(pg) && pg@ == g@),
        (filter.search_text@.len() == 0 && filter.active_group is None && filter.status_filters@.len()
            == 0) ==> spec_matches_filter(project, status, filter, e),
{
}

/// A missing path, a conflict or a read error needs help; so does a
/// project with no status.
pub proof fn lemma_classify_trouble_needs_help(status: Option<ProjectStatus>, path_missing: bool)
    ensures
        path_missing ==> spec_classify(status, path_missing) == (
            DashboardTier::NeedsHelp,
            Some(DashboardCause::MissingPath),
            None::<RelevantCount>,
        ),
        status is None ==> spec_classify(status, path_missing).0 == DashboardTier::NeedsHelp,
        (status matches Some(s) && (s.conflict.has_conflict || s.read_error is Some)) ==> spec_classify(
            status,
            path_missing,
        ).0 == DashboardTier::NeedsHelp,
{
}

/// A project at an existing path whose repository was read, with no
/// conflict, conflict detection available and an attached context, is in
/// progress exactly when one of its four counts is not zero, and then shows
/// a count; otherwise it is all set and shows none.
pub proof fn lemma_classify_reads_the_counts(s: ProjectStatus)
    requires
        !s.conflict.has_conflict,
        !s.conflict.detection_unavailable,
        s.read_error is None,
        !(s.context matches Some(c) && c.is_detached),
    ensures
        ({
            let any = s.working_tree.uncommitted_count > 0 || s.working_tree.untracked_count > 0
                || s.remote.ahead > 0 || s.remote.behind > 0;
            &&& (spec_classify(Some(s), false).0 == DashboardTier::InProgress) == any
            &&& (spec_classify(Some(s), false).0 == DashboardTier::AllSet) == !any
            &&& (spec_classify(Some(s), false).2 is Some) == any
            &&& spec_classify(Some(s), false).1 is None
        }),
{
}

/// Status chips combine by "any": an entry whose name and group pass the
/// filter is kept as soon as it matches one of the chips that are on,
/// whatever the other chips say.
pub proof fn lemma_one_chip_keeps_an_entry(
    project: Project,
    status: Option<ProjectStatus>,
    filter: FilterState,
    e: DashboardEntry,
    k: int,
)
    requires
        filter.search_text@.len() == 0 || has_substring(folded(project.name@), folded(filter.search_text@)),
        filter.active_group matches Some(g) ==> project.group matches Some(pg) && pg@ == g@,
        0 <= k < filter.status_filters@.len(),
        spec_matches_status_filter(e, status, filter.status_filters@[k]),
    ensures
        spec_matches_filter(project, status, filter, e),
{
}

/// With chips on, a kept entry matches at least one of them.
pub proof fn lemma_kept_entry_matches_a_chip(
    project: Project,
    status: Option<ProjectStatus>,
    filter: FilterState,
    e: DashboardEntry,
)
    requires
        filter.status_filters@.len() > 0,
        spec_matches_filter(project, status, filter, e),
    ensures
        exists|k: int|
            0 <= k < filter.status_filters@.len() && spec_matches_status_filter(
                e,
                status,
                #[trigger] filter.status_filters@[k],
            ),
{
}

/// Turning on more chips, with some already on, never hides an entry that
/// was shown: the kept entries of a set of chips are the union of those of
/// each chip.
pub proof fn lemma_more_chips_keep_more(
    project: Project,
    status: Option<ProjectStatus>,
    fewer: FilterState,
    more: FilterState,
    e: DashboardEntry,
)
    requires
        fewer.search_text@ == more.search_text@,
        fewer.active_group == more.active_group,
        fewer.status_filters@.len() > 0,
        forall|k: int|
            0 <= k < fewer.status_filters@.len() ==> more.status_filters@.contains(
                #[trigger] fewer.status_filters@[k],
            ),
        spec_matches_filter(project, status, fewer, e),
    ensures
        spec_matches_filter(project, status, more, e),
{
    let k = choose|k: int|
        0 <= k < fewer.status_filters@.len() && spec_matches_status_filter(
            e,
            status,
            #[trigger] fewer.status_filters@[k],
        );
    assert(more.status_filters@.contains(fewer.status_filters@[k]));
    let j = choose|j: int| 0 <= j < more.status_filters@.len() && more.status_filters@[j] == fewer.status_filters@[k];
    assert(spec_matches_status_filter(e, status, more.status_filters@[j]));
}

} // verus!
