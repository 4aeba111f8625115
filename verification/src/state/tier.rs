//! Attention tiers: which of three buckets a project falls in, and why.

use vstd::prelude::*;

use crate::model::ProjectStatus;
use crate::state::AttentionTier;
use crate::text::{chars_of, compare_chars, lemma_lex_order_zero};

verus! {

/// Why a project needs attention.
#[derive(Debug, Clone, Copy, PartialEq, Eq, Structural)]
pub enum AttentionCause {
    PathNotFound,
    Conflict,
    ConflictDetectionUnavailable,
    DetachedHead,
    OperationFailed,
    DirtyForLong,
}

/// The context label of a status, empty when there is no context.
pub open spec fn context_label(s: ProjectStatus) -> Seq<char> {
    match s.context {
        Some(c) => c.label@,
        None => seq![],
    }
}

/// A label naming a default line of work: main, master, trunk, or none at all.
pub open spec fn is_default_label(l: Seq<char>) -> bool {
    l == "main"@ || l == "master"@ || l == "trunk"@ || l.len() == 0
}

/// Tier and cause by the first rule that applies: missing path; no status
/// (needs attention, no cause); conflict; conflict detection unavailable; a
/// context label starting with `(` (detached); read error; any uncommitted,
/// untracked, ahead or behind count (active); a non-default label (active);
/// otherwise clean.
pub open spec fn spec_compute_tier(status: Option<ProjectStatus>, path_exists: bool) -> (
    AttentionTier,
    Option<AttentionCause>,
) {
    if !path_exists {
        (AttentionTier::NeedsAttention, Some(AttentionCause::PathNotFound))
    } else {
        match status {
            None => (AttentionTier::NeedsAttention, None),
            Some(s) => {
                let ctx = context_label(s);
                if s.conflict.has_conflict {
                    (AttentionTier::NeedsAttention, Some(AttentionCause::Conflict))
                } else if s.conflict.detection_unavailable {
                    (AttentionTier::NeedsAttention, Some(AttentionCause::ConflictDetectionUnavailable))
                } else if ctx.len() > 0 && ctx[0] == '(' {
                    (AttentionTier::NeedsAttention, Some(AttentionCause::DetachedHead))
                } else if s.read_error is Some {
                    (AttentionTier::NeedsAttention, Some(AttentionCause::OperationFailed))
                } else if s.working_tree.uncommitted_count > 0 || s.working_tree.untracked_count > 0
                    || s.remote.ahead > 0 || s.remote.behind > 0 {
                    (AttentionTier::Active, None)
                } else if !is_default_label(ctx) {
                    (AttentionTier::Active, None)
                } else {
                    (AttentionTier::Clean, None)
                }
            },
        }
    }
}

fn same_chars(a: &Vec<char>, b: &str) -> (r: bool)
    ensures
        r == (a@ == b@),
{
    let bc = chars_of(b);
    proof {
        lemma_lex_order_zero(a@, bc@);
    }
    compare_chars(a.as_slice(), bc.as_slice()) == 0
}

/// Classifies one project into an attention tier.
pub fn compute_tier(status: Option<&ProjectStatus>, path_exists: bool) -> (r: (
    AttentionTier,
    Option<AttentionCause>,
))
    ensures
        r == spec_compute_tier(
            match status {
                Some(s) => Some(*s),
                None => None,
            },
            path_exists,
        ),
{
    if !path_exists {
        return (AttentionTier::NeedsAttention, Some(AttentionCause::PathNotFound));
    }
    let s = match status {
        Some(s) => s,
        None => {
            return (AttentionTier::NeedsAttention, None);
        },
    };
    if s.conflict.has_conflict {
        return (AttentionTier::NeedsAttention, Some(AttentionCause::Conflict));
    }
    if s.conflict.detection_unavailable {
        return (AttentionTier::NeedsAttention, Some(AttentionCause::ConflictDetectionUnavailable));
    }
    let ctx: Vec<char> = match &s.context {
        Some(c) => chars_of(c.label.as_str()),
        None => Vec::new(),
    };
    assert(ctx@ == context_label(*s));
    if ctx.len() > 0 && ctx[0] == '(' {
        return (AttentionTier::NeedsAttention, Some(AttentionCause::DetachedHead));
    }
    if s.read_error.is_some() {
        return (AttentionTier::NeedsAttention, Some(AttentionCause::OperationFailed));
    }
    if s.working_tree.uncommitted_count > 0 || s.working_tree.untracked_count > 0 || s.remote.ahead > 0
        || s.remote.behind > 0 {
        return (AttentionTier::Active, None);
    }
    let default_label = same_chars(&ctx, "main") || same_chars(&ctx, "master") || same_chars(
        &ctx,
        "trunk",
    ) || ctx.len() == 0;
    if !default_label {
        return (AttentionTier::Active, None);
    }
    (AttentionTier::Clean, None)
}

/// A missing path needs attention for that cause, whatever the status says;
/// at an existing path, no status, a conflict, unavailable conflict
/// detection, a detached context or a read error each need attention.
pub proof fn lemma_trouble_needs_attention(status: Option<ProjectStatus>, path_exists: bool)
    ensures
        !path_exists ==> spec_compute_tier(status, path_exists) == (
            AttentionTier::NeedsAttention,
            Some(AttentionCause::PathNotFound),
        ),
        path_exists && status is None ==> spec_compute_tier(status, path_exists).0
            == AttentionTier::NeedsAttention,
        (path_exists && (status matches Some(s) && s.conflict.has_conflict)) ==> spec_compute_tier(
            status,
            path_exists,
        ) == (AttentionTier::NeedsAttention, Some(AttentionCause::Conflict)),
        (status matches Some(s) && (s.conflict.detection_unavailable || s.read_error is Some || (context_label(
            s,
        ).len() > 0 && context_label(s)[0] == '('))) ==> spec_compute_tier(status, path_exists).0
            == AttentionTier::NeedsAttention,
{
}

/// A project at an existing path whose repository was read, with no
/// conflict and an attached context, is active as soon as it has
/// uncommitted or untracked files or commits ahead of or behind its
/// upstream; it is clean exactly when all four counts are zero and it sits
/// on a default line of work. Such a project never needs attention.
pub proof fn lemma_pending_work_is_active(s: ProjectStatus)
    requires
        !s.conflict.has_conflict,
        !s.conflict.detection_unavailable,
        s.read_error is None,
        !(context_label(s).len() > 0 && context_label(s)[0] == '('),
    ensures
        (s.working_tree.uncommitted_count > 0 || s.working_tree.untracked_count > 0 || s.remote.ahead > 0
            || s.remote.behind > 0) ==> spec_compute_tier(Some(s), true) == (AttentionTier::Active, None::<
            AttentionCause,
        >),
        (spec_compute_tier(Some(s), true).0 == AttentionTier::Clean) == (s.working_tree.uncommitted_count == 0
            && s.working_tree.untracked_count == 0 && s.remote.ahead == 0 && s.remote.behind == 0
            && is_default_label(context_label(s))),
        spec_compute_tier(Some(s), true).0 != AttentionTier::NeedsAttention,
        spec_compute_tier(Some(s), true).1 is None,
{
}

} // verus!
