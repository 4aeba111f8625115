use knotra_app::model::{ContextCandidate, ContextList, ContextTarget, VcsKind};
use knotra_app::state::context::{ContextOpsState, ContextPhase};

fn make_list(candidates: Vec<(&str, &str, bool)>) -> ContextList {
    ContextList {
        project_id: 42,
        vcs_kind: VcsKind::Git,
        candidates: candidates
            .into_iter()
            .map(|(label, target, is_current)| ContextCandidate {
                label: label.to_owned(),
                target: ContextTarget::GitLocalBranch {
                    name: target.to_owned(),
                },
                is_current,
            })
            .collect(),
        warning: None,
    }
}

fn browsing(list: ContextList, search: &str) -> ContextOpsState {
    let id = list.project_id;
    ContextOpsState {
        phase: ContextPhase::BrowsingList {
            project_id: id,
            list,
            search: search.to_owned(),
        },
        ..Default::default()
    }
}

#[test]
fn filter_candidates_empty_search_returns_all() {
    let list = make_list(vec![
        ("main", "main", true),
        ("feature", "feature", false),
        ("hotfix", "hotfix", false),
    ]);
    let state = browsing(list, "");
    assert_eq!(state.filtered_candidates().len(), 3);
}

#[test]
fn filter_candidates_by_search_text() {
    let list = make_list(vec![
        ("main", "main", true),
        ("feature/x", "feature/x", false),
        ("feature/y", "feature/y", false),
    ]);
    let state = browsing(list, "feature");
    assert_eq!(state.filtered_candidates().len(), 2);
}

#[test]
fn filter_candidates_case_insensitive() {
    let list = make_list(vec![("Main", "Main", true), ("Feature", "Feature", false)]);
    let state = browsing(list, "main");
    assert_eq!(state.filtered_candidates().len(), 1);
}

#[test]
fn idle_phase_returns_no_candidates() {
    let state = ContextOpsState::default();
    assert!(state.filtered_candidates().is_empty());
}

#[test]
fn filtered_candidates_keep_list_order_and_match_inside_labels() {
    let list = make_list(vec![
        ("release/2.0", "release/2.0", false),
        ("main", "main", true),
        ("PRE-RELEASE", "pre", false),
    ]);
    let state = browsing(list, "Release");
    let found: Vec<&str> = state
        .filtered_candidates()
        .iter()
        .map(|c| c.label.as_str())
        .collect();
    assert_eq!(found, vec!["release/2.0", "PRE-RELEASE"]);
}

use knotra_app::state::context::ContextCommand;

#[test]
fn current_candidate_cannot_be_chosen_and_others_switch() {
    let list = make_list(vec![
        ("main", "main", true),
        ("feature", "feature", false),
        ("hotfix", "hotfix", false),
    ]);
    let state = browsing(list, "a");
    let actions = state.switch_candidate_actions();
    assert_eq!(actions.len(), 2);
    assert!(actions[0].is_none());
    match &actions[1] {
        Some(ContextCommand::SwitchTargetChosen(id, ContextTarget::GitLocalBranch { name }, label)) => {
            assert_eq!(*id, 42);
            assert_eq!(name, "feature");
            assert_eq!(label, "feature");
        }
        other => panic!("unexpected {other:?}"),
    }
    assert!(state.switch_closable());
    assert!(ContextOpsState::default().switch_candidate_actions().is_empty());
}

#[test]
fn confirming_a_switch_reports_busy_then_the_targets_reason() {
    let mut state = ContextOpsState::default();
    assert_eq!(state.confirm_switch_keys(false), None);
    state.phase = ContextPhase::ConfirmSwitch {
        project_id: 1,
        project_name: "svc".to_owned(),
        target: ContextTarget::GitLocalBranch { name: "x".to_owned() },
        target_label: "x".to_owned(),
        is_dirty: true,
        disabled_reason_key: None,
    };
    assert_eq!(state.confirm_switch_keys(false), Some((None, "plain.switch.dirty_hint")));
    assert_eq!(
        state.confirm_switch_keys(true),
        Some((Some("plain.activity.busy"), "plain.switch.dirty_hint"))
    );
    state.phase = ContextPhase::Switching { target_label: "x".to_owned() };
    assert!(!state.switch_closable());
}

#[test]
fn search_matches_anywhere_in_the_label_but_not_past_its_end() {
    let list = make_list(vec![("ab", "ab", false), ("abc", "abc", false), ("xabcx", "x", false)]);
    let state = browsing(list, "abc");
    let found: Vec<&str> = state.filtered_candidates().iter().map(|c| c.label.as_str()).collect();
    assert_eq!(found, vec!["abc", "xabcx"]);
}

#[test]
fn only_the_current_candidate_has_a_reason() {
    let list = make_list(vec![("main", "main", true), ("dev", "dev", false)]);
    assert_eq!(
        knotra_app::state::context::candidate_reason(&list.candidates[0]),
        Some("plain.switch.reason_current")
    );
    assert_eq!(knotra_app::state::context::candidate_reason(&list.candidates[1]), None);
}
