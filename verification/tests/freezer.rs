use knotra_app::state::freezer::FreezerState;

fn make_ids(n: usize) -> Vec<u128> {
    (0..n).map(|i| 100 + i as u128).collect()
}

#[test]
fn all_selected_by_default() {
    let ids = make_ids(3);
    let mut state = FreezerState::default();
    state.init_selection(&ids);
    assert_eq!(state.selected_ids().len(), 3);
}

#[test]
fn deselect_one() {
    let ids = make_ids(3);
    let mut state = FreezerState::default();
    state.init_selection(&ids);
    state.project_selection.insert(ids[1], false);
    assert_eq!(state.selected_ids().len(), 2);
    assert_eq!(state.project_selection.get(&ids[1]), Some(&false));
}

#[test]
fn valid_freeze_name_accepted() {
    let state = FreezerState {
        freeze_name: "v1.2.3".to_owned(),
        ..Default::default()
    };
    assert!(state.freeze_name_is_valid());
}

#[test]
fn empty_freeze_name_rejected() {
    let state = FreezerState::default();
    assert!(!state.freeze_name_is_valid());
}

#[test]
fn freeze_name_with_space_rejected() {
    let state = FreezerState {
        freeze_name: "v1 2 3".to_owned(),
        ..Default::default()
    };
    assert!(!state.freeze_name_is_valid());
}

#[test]
fn stale_selection_entries_pruned_on_init() {
    let ids = make_ids(3);
    let mut state = FreezerState::default();
    state.init_selection(&ids);

    state.init_selection(&ids[..2]);
    assert_eq!(state.project_selection.len(), 2);
    assert!(!state.project_selection.contains_key(&ids[2]));
}

#[test]
fn freeze_name_rules_trim_and_reject_tabs_controls_and_non_ascii() {
    let name = |n: &str| FreezerState {
        freeze_name: n.to_owned(),
        ..Default::default()
    };
    assert!(name("  release-7  ").freeze_name_is_valid());
    assert!(!name("   ").freeze_name_is_valid());
    assert!(!name("v1\t2").freeze_name_is_valid());
    assert!(!name("v1\u{7f}").freeze_name_is_valid());
    assert!(!name("v1\u{1}").freeze_name_is_valid());
    assert!(!name("verät").freeze_name_is_valid());
    assert!(name("v~1^2").freeze_name_is_valid());
}

#[test]
fn reinitialising_keeps_an_earlier_choice_for_a_project_still_present() {
    let ids = make_ids(2);
    let mut state = FreezerState::default();
    state.init_selection(&ids);
    state.project_selection.insert(ids[0], false);
    state.init_selection(&ids);
    assert_eq!(state.project_selection.get(&ids[0]), Some(&false));
    assert_eq!(state.selected_ids().len(), 1);
    assert!(state.selected_ids().contains(&ids[1]));
}

use knotra_app::model::{FreezeValidation, FreezeValidationEntry};
use knotra_app::state::freezer::{
    blocker_key, row_message_key, save_release_control, FreezerPhase, SaveReleaseControl,
    ValidateControl,
};

fn entry(id: u128, included: bool, blockers: &[&str]) -> FreezeValidationEntry {
    FreezeValidationEntry {
        project_id: id,
        project_name: format!("p{id}"),
        included,
        is_clean: blockers.is_empty(),
        tag_exists: false,
        notes: Vec::new(),
        blockers: blockers.iter().map(|b| b.to_string()).collect(),
    }
}

fn validation_of(entries: Vec<FreezeValidationEntry>) -> FreezeValidation {
    FreezeValidation {
        freeze_name: "v1".to_owned(),
        entries,
    }
}

#[test]
fn save_is_enabled_only_for_an_all_ready_validation_with_a_ready_project() {
    let ready = validation_of(vec![entry(1, true, &[]), entry(2, false, &["dirty"])]);
    assert_eq!(ready.ready_count(), 1);
    assert_eq!(ready.blocked_count(), 0);
    assert!(ready.all_ready());
    assert_eq!(save_release_control(&ready, false), SaveReleaseControl::Enabled);
    assert_eq!(
        save_release_control(&ready, true),
        SaveReleaseControl::Disabled("plain.activity.busy")
    );

    let none_chosen = validation_of(vec![entry(1, false, &[])]);
    assert_eq!(
        save_release_control(&none_chosen, false),
        SaveReleaseControl::Disabled("plain.disabled.choose_one")
    );

    let one_blocked = validation_of(vec![entry(1, true, &[]), entry(2, true, &["tag exists"])]);
    assert!(!one_blocked.all_ready());
    assert_eq!(
        save_release_control(&one_blocked, false),
        SaveReleaseControl::Disabled("plain.release.fix_one")
    );

    let two_blocked = validation_of(vec![
        entry(1, true, &["merge conflict"]),
        entry(2, true, &["uncommitted changes"]),
    ]);
    assert_eq!(two_blocked.blocked_count(), 2);
    assert_eq!(
        save_release_control(&two_blocked, false),
        SaveReleaseControl::Disabled("plain.release.fix_some")
    );
}

#[test]
fn blockers_map_to_plain_messages() {
    assert_eq!(blocker_key("Tag already EXISTS"), "plain.release.blocker_name_used");
    assert_eq!(blocker_key("Merge in progress"), "plain.release.blocker_needs_choice");
    assert_eq!(blocker_key("working tree DIRTY"), "plain.release.blocker_unsaved");
    assert_eq!(blocker_key("disk on fire"), "plain.needs_help");
    assert_eq!(
        row_message_key(&entry(1, true, &["uncommitted changes", "tag exists"])),
        "plain.release.blocker_unsaved"
    );
    assert_eq!(row_message_key(&entry(1, false, &["dirty"])), "plain.release.row_excluded");
    assert_eq!(row_message_key(&entry(1, true, &[])), "plain.release.row_ready");
}

#[test]
fn validation_step_and_name_error_follow_the_name() {
    let mut state = FreezerState::default();
    assert_eq!(state.name_error_key(), None);
    assert_eq!(state.validate_control(false), ValidateControl::Hidden);
    state.freeze_name = "v 1".to_owned();
    assert_eq!(state.name_error_key(), Some("plain.release.name_invalid"));
    state.freeze_name = "v1".to_owned();
    assert_eq!(state.name_error_key(), None);
    assert_eq!(state.validate_control(false), ValidateControl::Enabled);
    assert_eq!(
        state.validate_control(true),
        ValidateControl::Disabled("plain.activity.busy")
    );
    state.phase = FreezerPhase::Validating { lease_id: 3 };
    assert_eq!(state.validate_control(false), ValidateControl::Checking);
}
