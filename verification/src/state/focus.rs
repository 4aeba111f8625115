//! Keyboard focus model.
//!
//! Buttons, chips and other controls cannot hold focus on their own, so the
//! application owns focus for them and keeps the focus of text inputs in
//! lockstep with it through [`reconcile`].

use vstd::prelude::*;

use crate::state::dashboard::{
    sections_view, selectable_ids, DashboardCause, DashboardDisplay, DashboardEntry, DashboardSectionKey,
    DashboardTier, SectionKeyView, SectionView,
};
use crate::message::StatusFilter;
use crate::state::AppState;
use crate::text::{id_string, id_text};

verus! {

/// A single position in a view's keyboard focus order.
#[derive(Debug, Clone, PartialEq, Eq, Hash)]
pub enum FocusTarget {
    /// A control that cannot focus itself, under a key that stays stable
    /// across frames so that [`resolve`] finds it again.
    Control(String),
    /// A text input, under the name of its widget id.
    TextInput(String),
}

impl FocusTarget {
    /// A control under a fixed key.
    pub fn control(key: &str) -> (t: Self)
        ensures
            t matches FocusTarget::Control(k) && k@ == key@,
    {
        FocusTarget::Control(String::from_str(key))
    }

    /// A control under a key built at run time (one per row, say).
    pub fn control_dynamic(key: String) -> (t: Self)
        ensures
            t == FocusTarget::Control(key),
    {
        FocusTarget::Control(key)
    }

    /// A text input under its widget id.
    pub fn text_input(id: String) -> (t: Self)
        ensures
            t == FocusTarget::TextInput(id),
    {
        FocusTarget::TextInput(id)
    }
}

/// A view's focus order: each target with the message that its activation
/// (Enter or Space) dispatches; `None` for a Tab stop with nothing to
/// activate, such as a disabled control.
pub type FocusOrder<M> = Vec<(FocusTarget, Option<M>)>;

/// Which way Tab or Shift-Tab moves.
#[derive(Debug, Clone, Copy, PartialEq, Eq, Structural)]
pub enum Direction {
    Next,
    Previous,
}

/// What must happen to the text-input focus when the focus moves.
#[derive(Debug, Clone, PartialEq, Eq)]
pub enum Reconciliation {
    /// Neither target is a text input: the text-input focus stays as it is.
    Keep,
    /// The new target is a text input, which must take the focus.
    FocusTextInput(String),
    /// The old target was a text input and the new one is not: its focus
    /// must be cleared.
    ClearTextInputFocus,
}

/// Two targets name the same control or the same text input.
pub open spec fn same_target(a: FocusTarget, b: FocusTarget) -> bool {
    match (a, b) {
        (FocusTarget::Control(x), FocusTarget::Control(y)) => x@ == y@,
        (FocusTarget::TextInput(x), FocusTarget::TextInput(y)) => x@ == y@,
        _ => false,
    }
}

/// `i` is the first position of `t` in `order`.
pub open spec fn first_position<M>(order: Seq<(FocusTarget, Option<M>)>, t: FocusTarget, i: int) -> bool {
    &&& 0 <= i < order.len()
    &&& same_target(order[i].0, t)
    &&& forall|j: int| 0 <= j < i ==> !same_target(#[trigger] order[j].0, t)
}

/// The position of the effective current target: none while focus was
/// never engaged; the target's own position while it is in the order;
/// the first position when it has gone (none for an empty order).
pub open spec fn resolve_index<M>(order: Seq<(FocusTarget, Option<M>)>, current: Option<FocusTarget>) -> Option<int> {
    match current {
        None => None,
        Some(t) => if exists|i: int| first_position(order, t, i) {
            Some(choose|i: int| first_position(order, t, i))
        } else if order.len() > 0 {
            Some(0)
        } else {
            None
        },
    }
}

/// The position that Tab (`Next`) or Shift-Tab (`Previous`) moves to,
/// wrapping around at either end.
pub open spec fn advance_index<M>(
    order: Seq<(FocusTarget, Option<M>)>,
    current: Option<FocusTarget>,
    direction: Direction,
) -> Option<int> {
    let n = order.len() as int;
    if n == 0 {
        None
    } else {
        match (resolve_index(order, current), direction) {
            (None, Direction::Next) => Some(0),
            (None, Direction::Previous) => Some(n - 1),
            (Some(i), Direction::Next) => Some((i + 1) % n),
            (Some(i), Direction::Previous) => Some((i + n - 1) % n),
        }
    }
}

/// The target at an optional position.
pub open spec fn target_at<M>(order: Seq<(FocusTarget, Option<M>)>, i: Option<int>) -> Option<FocusTarget> {
    match i {
        Some(k) => Some(order[k].0),
        None => None,
    }
}

/// No target occurs twice in the order.
pub open spec fn distinct_targets<M>(order: Seq<(FocusTarget, Option<M>)>) -> bool {
    forall|i: int, j: int|
        0 <= i < order.len() && 0 <= j < order.len() && i != j ==> !same_target(
            #[trigger] order[i].0,
            #[trigger] order[j].0,
        )
}

/// The reconciliation that a move from `previous` to `next` calls for.
pub open spec fn spec_reconcile(previous: Option<FocusTarget>, next: Option<FocusTarget>) -> Reconciliation {
    match next {
        Some(FocusTarget::TextInput(id)) => Reconciliation::FocusTextInput(id),
        _ => match previous {
            Some(FocusTarget::TextInput(_)) => Reconciliation::ClearTextInputFocus,
            _ => Reconciliation::Keep,
        },
    }
}

fn targets_match(a: &FocusTarget, b: &FocusTarget) -> (r: bool)
    ensures
        r == same_target(*a, *b),
{
    match (a, b) {
        (FocusTarget::Control(x), FocusTarget::Control(y)) => *x == *y,
        (FocusTarget::TextInput(x), FocusTarget::TextInput(y)) => *x == *y,
        _ => false,
    }
}

/// The position of the effective current target (see [`resolve`]).
fn resolved_position<M>(order: &FocusOrder<M>, current: Option<&FocusTarget>) -> (r: Option<usize>)
    ensures
        match resolve_index(order@, option_spec(current)) {
            Some(i) => 0 <= i < order@.len() && r is Some && r.unwrap() == i,
            None => r is None,
        },
{
    match current {
        None => None,
        Some(t) => {
            let mut i: usize = 0;
            while i < order.len()
                invariant
                    i <= order@.len(),
                    option_spec(current) == Some(*t),
                    forall|j: int| 0 <= j < i ==> !same_target(#[trigger] order@[j].0, *t),
                decreases order@.len() - i,
            {
                if targets_match(&order[i].0, t) {
                    proof {
                        assert(first_position(order@, *t, i as int));
                        let c = choose|c: int| first_position(order@, *t, c);
                        if c < i {
                            assert(!same_target(order@[c].0, *t));
                        }
                        if i < c {
                            assert(!same_target(order@[i as int].0, *t));
                        }
                    }
                    return Some(i);
                }
                i = i + 1;
            }
            proof {
                if exists|c: int| first_position(order@, *t, c) {
                    let c = choose|c: int| first_position(order@, *t, c);
                    assert(!same_target(order@[c].0, *t));
                }
            }
            if order.len() > 0 {
                Some(0)
            } else {
                None
            }
        },
    }
}

/// The effective current target from a possibly stale `current`: none while
/// focus was never engaged, the first target when `current` is gone from the
/// order, else `current`'s own entry.
pub fn resolve<'a, M>(order: &'a FocusOrder<M>, current: Option<&FocusTarget>) -> (r: Option<&'a FocusTarget>)
    ensures
        match resolve_index(order@, option_spec(current)) {
            Some(i) => r is Some && *r.unwrap() == order@[i].0,
            None => r is None,
        },
{
    match resolved_position(order, current) {
        Some(i) => Some(&order[i].0),
        None => None,
    }
}

/// Moves the effective current target one step in `direction`, wrapping
/// around at either end; from no focus, `Next` lands on the first target
/// and `Previous` on the last.
pub fn advance<'a, M>(order: &'a FocusOrder<M>, current: Option<&FocusTarget>, direction: Direction) -> (r: Option<&'a FocusTarget>)
    ensures
        match advance_index(order@, option_spec(current), direction) {
            Some(i) => r is Some && *r.unwrap() == order@[i].0,
            None => r is None,
        },
{
    if order.len() == 0 {
        return None;
    }
    let n = order.len();
    let next_index: usize = match (resolved_position(order, current), direction) {
        (None, Direction::Next) => 0,
        (None, Direction::Previous) => n - 1,
        (Some(i), Direction::Next) => {
            if i + 1 == n {
                0
            } else {
                i + 1
            }
        },
        (Some(i), Direction::Previous) => {
            if i == 0 {
                n - 1
            } else {
                i - 1
            }
        },
    };
    proof {
        if let Some(i) = resolve_index(order@, option_spec(current)) {
            lemma_wrap_steps(i, n as int);
        }
    }
    Some(&order[next_index].0)
}

/// One step forward or back, wrapping around `n` positions.
proof fn lemma_wrap_steps(i: int, n: int)
    requires
        0 <= i < n,
    ensures
        (i + 1) % n == if i + 1 == n { 0 } else { i + 1 },
        (i + n - 1) % n == if i == 0 { n - 1 } else { i - 1 },
{
    if i + 1 == n {
        vstd::arithmetic::div_mod::lemma_mod_self_0(n);
    } else {
        vstd::arithmetic::div_mod::lemma_small_mod((i + 1) as nat, n as nat);
    }
    if i == 0 {
        vstd::arithmetic::div_mod::lemma_small_mod((n - 1) as nat, n as nat);
    } else {
        vstd::arithmetic::div_mod::lemma_mod_add_multiples_vanish(i - 1, n);
        vstd::arithmetic::div_mod::lemma_small_mod((i - 1) as nat, n as nat);
    }
}

/// The spec value of an optional reference.
pub open spec fn option_spec(current: Option<&FocusTarget>) -> Option<FocusTarget> {
    match current {
        Some(t) => Some(*t),
        None => None,
    }
}

/// The message that activating the effective current target dispatches;
/// none when focus was never engaged, for an empty order, and for a target
/// with nothing to activate.
pub fn activation_message<M: Clone>(order: &FocusOrder<M>, current: Option<&FocusTarget>) -> (r: Option<M>)
    ensures
        match resolve_index(order@, option_spec(current)) {
            Some(i) => match order@[i].1 {
                Some(m) => r is Some && cloned(m, r.unwrap()),
                None => r is None,
            },
            None => r is None,
        },
{
    match resolved_position(order, current) {
        Some(i) => match &order[i].1 {
            Some(m) => {
                let c = m.clone();
                assert(cloned(*m, c));
                Some(c)
            },
            None => None,
        },
        None => None,
    }
}

/// Whether the effective current target is a text input, which then takes
/// Enter, Space and `/` for itself.
pub fn is_text_input_focused<M>(order: &FocusOrder<M>, current: Option<&FocusTarget>) -> (r: bool)
    ensures
        r == match resolve_index(order@, option_spec(current)) {
            Some(i) => order@[i].0 is TextInput,
            None => false,
        },
{
    match resolved_position(order, current) {
        Some(i) => match &order[i].0 {
            FocusTarget::TextInput(_) => true,
            FocusTarget::Control(_) => false,
        },
        None => false,
    }
}

/// What a move of the focus from `previous` to `next` asks of the text-input
/// focus: focus the new text input, clear the focus of the old one, or
/// nothing.
pub fn reconcile(previous: Option<&FocusTarget>, next: Option<&FocusTarget>) -> (r: Reconciliation)
    ensures
        r == spec_reconcile(option_spec(previous), option_spec(next)),
{
    match next {
        Some(FocusTarget::TextInput(id)) => Reconciliation::FocusTextInput(id.clone()),
        _ => match previous {
            Some(FocusTarget::TextInput(_)) => Reconciliation::ClearTextInputFocus,
            _ => Reconciliation::Keep,
        },
    }
}

/// The focus key of a tier's section header.
pub open spec fn spec_focus_key(tier: DashboardTier) -> Seq<char> {
    match tier {
        DashboardTier::NeedsHelp => "dashboard.section.NeedsHelp"@,
        DashboardTier::InProgress => "dashboard.section.InProgress"@,
        DashboardTier::AllSet => "dashboard.section.AllSet"@,
    }
}

/// The focus key of a tier's section header: `dashboard.section.` and the
/// tier's name.
pub fn focus_key(tier: DashboardTier) -> (r: String)
    ensures
        r@ == spec_focus_key(tier),
{
    match tier {
        DashboardTier::NeedsHelp => String::from_str("dashboard.section.NeedsHelp"),
        DashboardTier::InProgress => String::from_str("dashboard.section.InProgress"),
        DashboardTier::AllSet => String::from_str("dashboard.section.AllSet"),
    }
}

// ---------------------------------------------------------------------------
// The dashboard's focus orders
// ---------------------------------------------------------------------------

/// What activating a dashboard target asks the application to do.
#[derive(Debug, Clone, Copy, PartialEq, Eq, Structural)]
pub enum DashboardCommand {
    /// Collapse or expand a tier section.
    TierToggled(DashboardTier),
    /// Check or uncheck a project.
    SelectionToggled(u128),
    /// Open a project's detail panel.
    DetailPanelOpened(u128),
    /// Open the conflict panel of a project.
    ConflictOpened(u128),
}

/// A focus target by its values: whether it is a text input, and its key.
pub open spec fn target_view(t: FocusTarget) -> (bool, Seq<char>) {
    match t {
        FocusTarget::Control(k) => (false, k@),
        FocusTarget::TextInput(k) => (true, k@),
    }
}

/// A focus order by its values.
pub open spec fn order_view<M>(o: Seq<(FocusTarget, Option<M>)>) -> Seq<((bool, Seq<char>), Option<M>)> {
    o.map_values(|e: (FocusTarget, Option<M>)| (target_view(e.0), e.1))
}

/// The key of a control of a project's row: `dashboard.row.`, the id, and the
/// control's suffix.
pub open spec fn row_key(id: u128, suffix: Seq<char>) -> Seq<char> {
    "dashboard.row."@ + id_text(id) + suffix
}

/// One control as a focus target by its values.
pub open spec fn control_target(key: Seq<char>, m: Option<DashboardCommand>) -> ((bool, Seq<char>), Option<DashboardCommand>) {
    ((false, key), m)
}

/// The targets of one row: its checkbox in selection mode; its name, which
/// opens the detail panel; and for a row that needs help its action, which
/// opens the conflict panel for a conflict (nothing while busy) and the
/// detail panel otherwise.
pub open spec fn row_targets(e: DashboardEntry, selection_mode: bool, busy: bool) -> Seq<
    ((bool, Seq<char>), Option<DashboardCommand>),
> {
    let id = e.project_id;
    (if selection_mode {
        seq![control_target(row_key(id, ".checkbox"@), Some(DashboardCommand::SelectionToggled(id)))]
    } else {
        seq![]
    }) + seq![control_target(row_key(id, ".name"@), Some(DashboardCommand::DetailPanelOpened(id)))] + (
    if e.tier == DashboardTier::NeedsHelp {
        seq![
            control_target(
                row_key(id, ".action"@),
                if e.cause == Some(DashboardCause::Conflict) {
                    if busy {
                        None
                    } else {
                        Some(DashboardCommand::ConflictOpened(id))
                    }
                } else {
                    Some(DashboardCommand::DetailPanelOpened(id))
                },
            ),
        ]
    } else {
        seq![]
    })
}

/// The targets of the first `n` rows.
pub open spec fn rows_targets(es: Seq<DashboardEntry>, selection_mode: bool, busy: bool, n: nat) -> Seq<
    ((bool, Seq<char>), Option<DashboardCommand>),
>
    decreases n,
{
    if n == 0 || n > es.len() {
        seq![]
    } else {
        rows_targets(es, selection_mode, busy, (n - 1) as nat) + row_targets(es[n - 1], selection_mode, busy)
    }
}

/// The header target of a section: a tier section other than needs-help
/// can be collapsed.
pub open spec fn header_targets(key: SectionKeyView) -> Seq<((bool, Seq<char>), Option<DashboardCommand>)> {
    match key {
        SectionKeyView::Tier(t) => if t != DashboardTier::NeedsHelp {
            seq![control_target(spec_focus_key(t), Some(DashboardCommand::TierToggled(t)))]
        } else {
            seq![]
        },
        _ => seq![],
    }
}

/// The targets of the first `n` sections: each header, then the rows of the
/// expanded sections.
pub open spec fn sections_targets(secs: Seq<SectionView>, selection_mode: bool, busy: bool, n: nat) -> Seq<
    ((bool, Seq<char>), Option<DashboardCommand>),
>
    decreases n,
{
    if n == 0 || n > secs.len() {
        seq![]
    } else {
        let sec = secs[n - 1];
        sections_targets(secs, selection_mode, busy, (n - 1) as nat) + header_targets(sec.key) + if sec.collapsed {
            Seq::empty()
        } else {
            rows_targets(sec.entries, selection_mode, busy, sec.entries.len())
        }
    }
}

/// The name targets of the first `n` rows.
pub open spec fn name_targets(es: Seq<DashboardEntry>, n: nat) -> Seq<((bool, Seq<char>), Option<DashboardCommand>)>
    decreases n,
{
    if n == 0 || n > es.len() {
        seq![]
    } else {
        name_targets(es, (n - 1) as nat).push(
            control_target(
                row_key(es[n - 1].project_id, ".name"@),
                Some(DashboardCommand::DetailPanelOpened(es[n - 1].project_id)),
            ),
        )
    }
}

/// The name targets of the rows of the first `n` sections, skipping the
/// collapsed ones.
pub open spec fn card_targets(secs: Seq<SectionView>, n: nat) -> Seq<((bool, Seq<char>), Option<DashboardCommand>)>
    decreases n,
{
    if n == 0 || n > secs.len() {
        seq![]
    } else {
        let sec = secs[n - 1];
        card_targets(secs, (n - 1) as nat) + if sec.collapsed {
            Seq::empty()
        } else {
            name_targets(sec.entries, sec.entries.len())
        }
    }
}

fn push_control(out: &mut FocusOrder<DashboardCommand>, key: String, m: Option<DashboardCommand>)
    ensures
        order_view(final(out)@) == order_view(old(out)@).push(control_target(key@, m)),
{
    out.push((FocusTarget::Control(key), m));
    assert(order_view(out@) =~= order_view(old(out)@).push(control_target(key@, m)));
}

fn row_control_key(id: u128, suffix: &str) -> (r: String)
    ensures
        r@ == row_key(id, suffix@),
{
    let mut k = String::from_str("dashboard.row.");
    let ids = id_string(id);
    k.append(ids.as_str());
    k.append(suffix);
    k
}

fn push_row(out: &mut FocusOrder<DashboardCommand>, e: &DashboardEntry, selection_mode: bool, busy: bool)
    ensures
        order_view(final(out)@) == order_view(old(out)@) + row_targets(*e, selection_mode, busy),
{
    let id = e.project_id;
    let ghost start = order_view(out@);
    if selection_mode {
        push_control(out, row_control_key(id, ".checkbox"), Some(DashboardCommand::SelectionToggled(id)));
    }
    push_control(out, row_control_key(id, ".name"), Some(DashboardCommand::DetailPanelOpened(id)));
    if e.tier == DashboardTier::NeedsHelp {
        let m = if e.cause == Some(DashboardCause::Conflict) {
            if busy {
                None
            } else {
                Some(DashboardCommand::ConflictOpened(id))
            }
        } else {
            Some(DashboardCommand::DetailPanelOpened(id))
        };
        push_control(out, row_control_key(id, ".action"), m);
    }
    assert(order_view(out@) =~= start + row_targets(*e, selection_mode, busy));
}

/// The dashboard's Tab order below the toolbar: section by section, the
/// header of each collapsible tier section, then, for an expanded section,
/// each row's checkbox (in selection mode), name and action.
pub fn dashboard_focus_order(display: &DashboardDisplay, selection_mode: bool, busy: bool) -> (r: FocusOrder<DashboardCommand>)
    ensures
        order_view(r@) == sections_targets(
            sections_view(display.sections@),
            selection_mode,
            busy,
            display.sections@.len() as nat,
        ),
{
    let ghost secs = sections_view(display.sections@);
    let mut out: FocusOrder<DashboardCommand> = Vec::new();
    let mut i: usize = 0;
    while i < display.sections.len()
        invariant
            i <= display.sections@.len(),
            secs == sections_view(display.sections@),
            order_view(out@) == sections_targets(secs, selection_mode, busy, i as nat),
        decreases display.sections@.len() - i,
    {
        let sec = &display.sections[i];
        assert(secs[i as int] == sec@);
        let ghost before = order_view(out@);
        match sec.key {
            DashboardSectionKey::Tier(t) => {
                if t != DashboardTier::NeedsHelp {
                    push_control(&mut out, focus_key(t), Some(DashboardCommand::TierToggled(t)));
                }
            },
            _ => {},
        }
        assert(order_view(out@) == before + header_targets(sec@.key));
        if !sec.collapsed {
            let ghost mid = order_view(out@);
            let mut j: usize = 0;
            while j < sec.entries.len()
                invariant
                    j <= sec.entries@.len(),
                    order_view(out@) == mid + rows_targets(sec.entries@, selection_mode, busy, j as nat),
                decreases sec.entries@.len() - j,
            {
                let ghost b2 = order_view(out@);
                push_row(&mut out, &sec.entries[j], selection_mode, busy);
                assert(mid + rows_targets(sec.entries@, selection_mode, busy, (j + 1) as nat) =~= b2
                    + row_targets(sec.entries@[j as int], selection_mode, busy));
                j = j + 1;
            }
            assert(order_view(out@) =~= before + header_targets(sec@.key) + rows_targets(
                sec@.entries,
                selection_mode,
                busy,
                sec@.entries.len(),
            ));
        } else {
            assert(order_view(out@) =~= before + header_targets(sec@.key) + Seq::empty());
        }
        i = i + 1;
    }
    out
}

/// The arrow-key order between cards: each visible row's name, section by
/// section, skipping collapsed sections.
pub fn card_focus_order(display: &DashboardDisplay) -> (r: FocusOrder<DashboardCommand>)
    ensures
        order_view(r@) == card_targets(sections_view(display.sections@), display.sections@.len() as nat),
{
    let ghost secs = sections_view(display.sections@);
    let mut out: FocusOrder<DashboardCommand> = Vec::new();
    let mut i: usize = 0;
    while i < display.sections.len()
        invariant
            i <= display.sections@.len(),
            secs == sections_view(display.sections@),
            order_view(out@) == card_targets(secs, i as nat),
        decreases display.sections@.len() - i,
    {
        let sec = &display.sections[i];
        assert(secs[i as int] == sec@);
        let ghost before = order_view(out@);
        if !sec.collapsed {
            let mut j: usize = 0;
            while j < sec.entries.len()
                invariant
                    j <= sec.entries@.len(),
                    order_view(out@) == before + name_targets(sec.entries@, j as nat),
                decreases sec.entries@.len() - j,
            {
                let id = sec.entries[j].project_id;
                push_control(&mut out, row_control_key(id, ".name"), Some(DashboardCommand::DetailPanelOpened(id)));
                assert(before + name_targets(sec.entries@, (j + 1) as nat) =~= (before + name_targets(
                    sec.entries@,
                    j as nat,
                )).push(control_target(row_key(id, ".name"@), Some(DashboardCommand::DetailPanelOpened(id)))));
                j = j + 1;
            }
        } else {
            assert(order_view(out@) =~= before + Seq::empty());
        }
        i = i + 1;
    }
    out
}

/// The name target of a row.
pub open spec fn name_target(id: u128) -> ((bool, Seq<char>), Option<DashboardCommand>) {
    control_target(row_key(id, ".name"@), Some(DashboardCommand::DetailPanelOpened(id)))
}

proof fn lemma_name_targets_ids(es: Seq<DashboardEntry>, n: nat)
    requires
        n <= es.len(),
    ensures
        name_targets(es, n) == es.take(n as int).map_values(|e: DashboardEntry| e.project_id).map_values(
            |id: u128| name_target(id),
        ),
    decreases n,
{
    if n > 0 {
        lemma_name_targets_ids(es, (n - 1) as nat);
        assert(es.take(n as int).map_values(|e: DashboardEntry| e.project_id).map_values(|id: u128| name_target(id))
            =~= es.take(n - 1).map_values(|e: DashboardEntry| e.project_id).map_values(|id: u128| name_target(id)).push(
            name_target(es[n - 1].project_id),
        ));
    } else {
        assert(es.take(0).map_values(|e: DashboardEntry| e.project_id).map_values(|id: u128| name_target(id))
            =~= Seq::empty());
    }
}

/// Arrow-key movement between cards visits exactly the selectable rows, in
/// their order: the card order is the name target of each selectable id.
pub proof fn lemma_card_order_follows_selectable_ids(secs: Seq<SectionView>)
    ensures
        card_targets(secs, secs.len()) == selectable_ids(secs).map_values(|id: u128| name_target(id)),
    decreases secs.len(),
{
    if secs.len() > 0 {
        let init = secs.drop_last();
        lemma_card_order_follows_selectable_ids(init);
        lemma_card_targets_prefix(secs, (secs.len() - 1) as nat);
        let last = secs.last();
        lemma_name_targets_ids(last.entries, last.entries.len());
        assert(last.entries.take(last.entries.len() as int) =~= last.entries);
        let rest: Seq<u128> = if last.collapsed {
            Seq::<u128>::empty()
        } else {
            last.entries.map_values(|e: DashboardEntry| e.project_id)
        };
        assert(selectable_ids(secs) == selectable_ids(init) + rest);
        assert((selectable_ids(init) + rest).map_values(|id: u128| name_target(id)) =~= selectable_ids(init).map_values(
            |id: u128| name_target(id),
        ) + rest.map_values(|id: u128| name_target(id)));
    } else {
        assert(selectable_ids(secs).map_values(|id: u128| name_target(id)) =~= Seq::empty());
    }
}

proof fn lemma_card_targets_prefix(secs: Seq<SectionView>, n: nat)
    requires
        n <= secs.len(),
    ensures
        card_targets(secs, n) == card_targets(secs.take(n as int), n),
    decreases n,
{
    if n > 0 {
        lemma_card_targets_prefix(secs, (n - 1) as nat);
        lemma_card_targets_prefix(secs.take(n as int), (n - 1) as nat);
        assert(secs.take(n as int).take(n - 1) =~= secs.take(n - 1));
    }
}

// ---------------------------------------------------------------------------
// The selection bar
// ---------------------------------------------------------------------------

/// What activating a selection-bar control asks the application to do.
#[derive(Debug, Clone, Copy, PartialEq, Eq, Structural)]
pub enum SelectionBarCommand {
    BulkFetch,
    BulkPull,
    FreezerOpen,
    ContextOpen,
    ModeExited,
}

/// The selection bar's controls in Tab order (fetch, pull, tag, switch,
/// exit), each with what it does now, or nothing outside selection mode. An
/// action needs a selection and nothing busy; fetch also a fetchable
/// project, pull a project with an upstream, switch exactly one project.
/// Exit always works.
pub open spec fn spec_selection_bar(
    selection_mode: bool,
    selected_count: nat,
    has_fetchable: bool,
    has_upstream: bool,
    busy: bool,
) -> Seq<Option<SelectionBarCommand>> {
    let can_act = selected_count > 0 && !busy;
    if !selection_mode {
        seq![]
    } else {
        seq![
            if can_act && has_fetchable { Some(SelectionBarCommand::BulkFetch) } else { None },
            if can_act && has_upstream { Some(SelectionBarCommand::BulkPull) } else { None },
            if can_act { Some(SelectionBarCommand::FreezerOpen) } else { None },
            if selected_count == 1 && !busy { Some(SelectionBarCommand::ContextOpen) } else { None },
            Some(SelectionBarCommand::ModeExited),
        ]
    }
}

pub fn selection_bar_commands(
    selection_mode: bool,
    selected_count: usize,
    has_fetchable: bool,
    has_upstream: bool,
    busy: bool,
) -> (r: Vec<Option<SelectionBarCommand>>)
    ensures
        r@ == spec_selection_bar(selection_mode, selected_count as nat, has_fetchable, has_upstream, busy),
{
    if !selection_mode {
        return Vec::new();
    }
    let can_act = selected_count > 0 && !busy;
    let fetch = if can_act && has_fetchable { Some(SelectionBarCommand::BulkFetch) } else { None };
    let pull = if can_act && has_upstream { Some(SelectionBarCommand::BulkPull) } else { None };
    let tag = if can_act { Some(SelectionBarCommand::FreezerOpen) } else { None };
    let switch = if selected_count == 1 && !busy { Some(SelectionBarCommand::ContextOpen) } else { None };
    let r = vec![fetch, pull, tag, switch, Some(SelectionBarCommand::ModeExited)];
    assert(r@ =~= spec_selection_bar(selection_mode, selected_count as nat, has_fetchable, has_upstream, busy));
    r
}

// ---------------------------------------------------------------------------
// The dashboard toolbar
// ---------------------------------------------------------------------------

/// What activating a toolbar control asks the application to do.
#[derive(Debug, Clone, Copy, PartialEq, Eq, Structural)]
pub enum ToolbarCommand {
    FilterToggled(StatusFilter),
    OverflowToggled,
    SelectorsToggled,
    FiltersCleared,
    SelectModeEntered,
}

/// The focus key of a status filter chip.
pub open spec fn spec_filter_focus_key(f: StatusFilter) -> &'static str {
    match f {
        StatusFilter::NeedsHelp => "dashboard.toolbar.filter.needs_help",
        StatusFilter::Dirty => "dashboard.toolbar.filter.dirty",
        StatusFilter::Behind => "dashboard.toolbar.filter.behind",
        StatusFilter::Ahead => "dashboard.toolbar.filter.ahead",
        StatusFilter::Conflict => "dashboard.toolbar.filter.conflict",
        StatusFilter::AllSet => "dashboard.toolbar.filter.all_set",
    }
}

pub fn filter_focus_key(f: StatusFilter) -> (r: &'static str)
    ensures
        r == spec_filter_focus_key(f),
{
    match f {
        StatusFilter::NeedsHelp => "dashboard.toolbar.filter.needs_help",
        StatusFilter::Dirty => "dashboard.toolbar.filter.dirty",
        StatusFilter::Behind => "dashboard.toolbar.filter.behind",
        StatusFilter::Ahead => "dashboard.toolbar.filter.ahead",
        StatusFilter::Conflict => "dashboard.toolbar.filter.conflict",
        StatusFilter::AllSet => "dashboard.toolbar.filter.all_set",
    }
}

/// Why selection mode cannot be entered: nothing, while some project is
/// shown; else that no project is registered at all, or that none is shown.
pub open spec fn spec_select_mode_reason(any_visible: bool, projects_registered: bool) -> Option<&'static str> {
    if any_visible {
        None
    } else if !projects_registered {
        Some("plain.selection.no_projects_registered")
    } else {
        Some("plain.selection.no_visible_projects")
    }
}

/// Why selection mode cannot be entered, given whether any project is shown.
pub fn select_mode_reason(state: &AppState, any_visible: bool) -> (r: Option<&'static str>)
    ensures
        r == spec_select_mode_reason(
            any_visible,
            state.workspace matches Some(ws) && ws.projects@.len() > 0,
        ),
{
    let registered = match &state.workspace {
        Some(ws) => ws.projects.len() > 0,
        None => false,
    };
    if any_visible {
        None
    } else if !registered {
        Some("plain.selection.no_projects_registered")
    } else {
        Some("plain.selection.no_visible_projects")
    }
}

pub open spec fn chip_target(f: StatusFilter) -> ((bool, Seq<char>), Option<ToolbarCommand>) {
    ((false, spec_filter_focus_key(f)@), Some(ToolbarCommand::FilterToggled(f)))
}

pub open spec fn toolbar_control(key: Seq<char>, m: Option<ToolbarCommand>) -> ((bool, Seq<char>), Option<ToolbarCommand>) {
    ((false, key), m)
}

/// The toolbar's Tab order. Standard: the six chips (needs help, dirty,
/// behind, ahead, conflict, all set), the grouping and sorting selects,
/// search, Clear filters while a filter is active, then Select. Compact:
/// the first three chips, the overflow control, the other three chips while
/// the overflow is open, search, the selectors disclosure, the two selects
/// while it is open, then Clear filters and Select as in standard. Select
/// does something only while some project is shown; the selects and search
/// activate nothing.
pub open spec fn spec_toolbar_order(
    compact: bool,
    overflow_open: bool,
    selectors_open: bool,
    filter_active: bool,
    any_visible: bool,
    search_input: Seq<char>,
) -> Seq<((bool, Seq<char>), Option<ToolbarCommand>)> {
    let first = seq![
        chip_target(StatusFilter::NeedsHelp),
        chip_target(StatusFilter::Dirty),
        chip_target(StatusFilter::Behind),
    ];
    let rest = seq![
        chip_target(StatusFilter::Ahead),
        chip_target(StatusFilter::Conflict),
        chip_target(StatusFilter::AllSet),
    ];
    let selects = seq![
        toolbar_control("dashboard.toolbar.group"@, None),
        toolbar_control("dashboard.toolbar.sort"@, None),
    ];
    let search: Seq<((bool, Seq<char>), Option<ToolbarCommand>)> = seq![((true, search_input), None)];
    let clear = if filter_active {
        seq![toolbar_control("dashboard.toolbar.clear_filters"@, Some(ToolbarCommand::FiltersCleared))]
    } else {
        seq![]
    };
    let select = seq![
        toolbar_control(
            "dashboard.toolbar.select_mode"@,
            if any_visible { Some(ToolbarCommand::SelectModeEntered) } else { None },
        ),
    ];
    if !compact {
        first + rest + selects + search + clear + select
    } else {
        first + seq![toolbar_control("dashboard.toolbar.overflow"@, Some(ToolbarCommand::OverflowToggled))] + (
        if overflow_open { rest } else { seq![] }) + search + seq![
            toolbar_control(
                "dashboard.toolbar.selectors_disclosure"@,
                Some(ToolbarCommand::SelectorsToggled),
            ),
        ] + (if selectors_open { selects } else { seq![] }) + clear + select
    }
}

fn push_target<M>(out: &mut FocusOrder<M>, t: FocusTarget, m: Option<M>)
    ensures
        order_view(final(out)@) == order_view(old(out)@).push((target_view(t), m)),
{
    let ghost tv = target_view(t);
    out.push((t, m));
    assert(order_view(out@) =~= order_view(old(out)@).push((tv, m)));
}

fn push_chip(out: &mut FocusOrder<ToolbarCommand>, f: StatusFilter)
    ensures
        order_view(final(out)@) == order_view(old(out)@).push(chip_target(f)),
{
    push_target(out, FocusTarget::control(filter_focus_key(f)), Some(ToolbarCommand::FilterToggled(f)));
}

fn push_toolbar_control(out: &mut FocusOrder<ToolbarCommand>, key: &str, m: Option<ToolbarCommand>)
    ensures
        order_view(final(out)@) == order_view(old(out)@).push(toolbar_control(key@, m)),
{
    push_target(out, FocusTarget::control(key), m);
}

/// The toolbar's Tab order (see [`spec_toolbar_order`]); `search_input` is
/// the id of the search field.
pub fn toolbar_focus_order(
    compact: bool,
    overflow_open: bool,
    selectors_open: bool,
    filter_active: bool,
    any_visible: bool,
    search_input: &str,
) -> (r: FocusOrder<ToolbarCommand>)
    ensures
        order_view(r@) == spec_toolbar_order(compact, overflow_open, selectors_open, filter_active, any_visible, search_input@),
{
    let mut out: FocusOrder<ToolbarCommand> = Vec::new();
    assert(order_view(out@) =~= Seq::<((bool, Seq<char>), Option<ToolbarCommand>)>::empty());
    push_chip(&mut out, StatusFilter::NeedsHelp);
    push_chip(&mut out, StatusFilter::Dirty);
    push_chip(&mut out, StatusFilter::Behind);
    if compact {
        push_toolbar_control(&mut out, "dashboard.toolbar.overflow", Some(ToolbarCommand::OverflowToggled));
        if overflow_open {
            push_chip(&mut out, StatusFilter::Ahead);
            push_chip(&mut out, StatusFilter::Conflict);
            push_chip(&mut out, StatusFilter::AllSet);
        }
        push_target(&mut out, FocusTarget::text_input(String::from_str(search_input)), None);
        push_toolbar_control(&mut out, "dashboard.toolbar.selectors_disclosure", Some(ToolbarCommand::SelectorsToggled));
        if selectors_open {
            push_toolbar_control(&mut out, "dashboard.toolbar.group", None);
            push_toolbar_control(&mut out, "dashboard.toolbar.sort", None);
        }
    } else {
        push_chip(&mut out, StatusFilter::Ahead);
        push_chip(&mut out, StatusFilter::Conflict);
        push_chip(&mut out, StatusFilter::AllSet);
        push_toolbar_control(&mut out, "dashboard.toolbar.group", None);
        push_toolbar_control(&mut out, "dashboard.toolbar.sort", None);
        push_target(&mut out, FocusTarget::text_input(String::from_str(search_input)), None);
    }
    if filter_active {
        push_toolbar_control(&mut out, "dashboard.toolbar.clear_filters", Some(ToolbarCommand::FiltersCleared));
    }
    let select_message = if any_visible {
        Some(ToolbarCommand::SelectModeEntered)
    } else {
        None
    };
    push_toolbar_control(&mut out, "dashboard.toolbar.select_mode", select_message);
    assert(order_view(out@) =~= spec_toolbar_order(
        compact,
        overflow_open,
        selectors_open,
        filter_active,
        any_visible,
        search_input@,
    ));
    out
}

/// In an order where no target occurs twice, a target in the order resolves
/// to its own position.
pub proof fn lemma_resolve_own_position<M>(order: Seq<(FocusTarget, Option<M>)>, i: int)
    requires
        distinct_targets(order),
        0 <= i < order.len(),
    ensures
        resolve_index(order, Some(order[i].0)) == Some(i),
{
    let t = order[i].0;
    assert forall|j: int| 0 <= j < i implies !same_target(#[trigger] order[j].0, t) by {
        assert(!same_target(order[j].0, order[i].0));
    }
    assert(first_position(order, t, i));
    let c = choose|c: int| first_position(order, t, c);
    if c < i {
        assert(!same_target(order[c].0, t));
    }
    if i < c {
        assert(!same_target(order[i].0, t)) by {
            assert(forall|j: int| 0 <= j < c ==> !same_target(#[trigger] order[j].0, t));
        }
    }
}

/// In an order where no target occurs twice, Shift-Tab undoes Tab and Tab
/// undoes Shift-Tab, once focus is engaged.
pub proof fn lemma_advance_round_trip<M>(order: Seq<(FocusTarget, Option<M>)>, current: FocusTarget, direction: Direction)
    requires
        distinct_targets(order),
        order.len() > 0,
    ensures
        ({
            let back = match direction {
                Direction::Next => Direction::Previous,
                Direction::Previous => Direction::Next,
            };
            advance_index(order, target_at(order, advance_index(order, Some(current), direction)), back)
                == resolve_index(order, Some(current))
        }),
{
    let n = order.len() as int;
    let i = resolve_index(order, Some(current)).unwrap();
    if exists|c: int| first_position(order, current, c) {
        let c = choose|c: int| first_position(order, current, c);
        assert(0 <= c < n);
    }
    assert(0 <= i < n);
    lemma_wrap_steps(i, n);
    let j = advance_index(order, Some(current), direction).unwrap();
    assert(0 <= j < n);
    lemma_resolve_own_position(order, j);
    lemma_wrap_steps(j, n);
}

} // verus!
