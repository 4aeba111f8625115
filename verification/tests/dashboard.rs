use std::collections::HashSet;

use knotra_app::config::{DashboardGrouping, DashboardSort};
use knotra_app::message::StatusFilter;
use knotra_app::model::{
    ConflictStatus, Project, ProjectStatus, RemoteStatus, RepositoryIdentity, VcsContext, VcsKind,
    WorkingTreeStatus, WorkspaceStatus,
};
use knotra_app::state::dashboard::{
    build_dashboard_display, classify, matches_status_filter, DashboardCause,
    DashboardDisplayOptions, DashboardEntry, DashboardSectionKey, DashboardTier, ProgressKind,
    RelevantCount,
};
use knotra_app::state::FilterState;

fn project(number: u128, name: &str, group: Option<&str>) -> Project {
    Project {
        id: number,
        name: name.to_owned(),
        path: format!("/project/{number}"),
        group: group.map(str::to_owned),
    }
}

fn status(project: &Project) -> ProjectStatus {
    ProjectStatus {
        project_id: project.id,
        identity: RepositoryIdentity {
            path: project.path.clone(),
            vcs_kind: VcsKind::Git,
        },
        context: Some(VcsContext {
            label: "feature/work".to_owned(),
            branch: Some("feature/work".to_owned()),
            jj_change_id: None,
            jj_bookmark: None,
            is_detached: false,
        }),
        remote: RemoteStatus::default(),
        working_tree: WorkingTreeStatus::default(),
        conflict: ConflictStatus::default(),
        read_error: None,
    }
}

fn entry_for(project: &Project, status: Option<&ProjectStatus>, missing: bool) -> DashboardEntry {
    let (tier, cause, relevant_count) = classify(status, missing);
    DashboardEntry {
        project_index: 0,
        status_index: status.map(|_| 0),
        project_id: project.id,
        tier,
        cause,
        relevant_count,
    }
}

fn options(
    grouping: DashboardGrouping,
    sort: DashboardSort,
    in_progress_collapsed: bool,
    all_set_collapsed: bool,
) -> DashboardDisplayOptions {
    DashboardDisplayOptions {
        grouping,
        sort,
        in_progress_collapsed,
        all_set_collapsed,
    }
}

#[test]
fn classification_uses_the_specified_priority_and_typed_detached_fact() {
    let project = project(1, "api", None);
    let mut status = status(&project);
    status.conflict.has_conflict = true;
    status.conflict.detection_unavailable = true;
    status.read_error = Some("read failed".to_owned());
    status.context.as_mut().expect("context").is_detached = true;
    status.working_tree.uncommitted_count = 2;
    status.remote.ahead = 3;
    status.remote.behind = 4;

    assert_eq!(
        entry_for(&project, Some(&status), true).cause,
        Some(DashboardCause::MissingPath)
    );
    assert_eq!(
        entry_for(&project, Some(&status), false).cause,
        Some(DashboardCause::Conflict)
    );
    status.conflict.has_conflict = false;
    assert_eq!(
        entry_for(&project, Some(&status), false).cause,
        Some(DashboardCause::ConflictDetectionUnavailable)
    );
    status.conflict.detection_unavailable = false;
    assert_eq!(
        entry_for(&project, Some(&status), false).cause,
        Some(DashboardCause::ReadUnavailable)
    );
    status.read_error = None;
    assert_eq!(
        entry_for(&project, Some(&status), false).cause,
        Some(DashboardCause::DetachedContext)
    );

    status.identity.vcs_kind = VcsKind::Jujutsu;
    status.context.as_mut().expect("context").branch = None;
    status.context.as_mut().expect("context").jj_change_id = Some("abc123".to_owned());
    assert_eq!(
        entry_for(&project, Some(&status), false).cause,
        Some(DashboardCause::DetachedContext)
    );
}

#[test]
fn display_labels_do_not_create_in_progress_or_help_tiers() {
    let project = project(1, "api", None);
    for label in ["main", "master", "trunk", "feature/work", "bookmark"] {
        let mut status = status(&project);
        status.context.as_mut().expect("context").label = label.to_owned();
        status.context.as_mut().expect("context").branch = Some(label.to_owned());
        assert_eq!(
            entry_for(&project, Some(&status), false).tier,
            DashboardTier::AllSet
        );
    }
    assert_eq!(
        entry_for(&project, None, false).cause,
        Some(DashboardCause::StatusUnknown)
    );
}

#[test]
fn fact_filters_follow_the_complete_typed_truth_table() {
    let project = project(1, "api", None);
    let mut observed = status(&project);
    observed.remote.behind = 1;
    observed.remote.ahead = 1;
    observed.working_tree.uncommitted_count = 1;

    let mut cases: Vec<(DashboardEntry, Option<ProjectStatus>, [bool; 6])> = Vec::new();
    cases.push((
        entry_for(&project, Some(&observed), true),
        Some(observed.clone()),
        [false, false, false, false, false, true],
    ));

    let mut missing_with_stale_conflict = observed.clone();
    missing_with_stale_conflict.conflict.has_conflict = true;
    let missing_conflict_entry = entry_for(&project, Some(&missing_with_stale_conflict), true);
    assert_eq!(missing_conflict_entry.tier, DashboardTier::NeedsHelp);
    assert_eq!(
        missing_conflict_entry.cause,
        Some(DashboardCause::MissingPath)
    );
    cases.push((
        missing_conflict_entry,
        Some(missing_with_stale_conflict.clone()),
        [false, false, false, false, false, true],
    ));

    let mut conflict = observed.clone();
    conflict.conflict.has_conflict = true;
    cases.push((
        entry_for(&project, Some(&conflict), false),
        Some(conflict.clone()),
        [false, true, true, true, true, true],
    ));

    let mut detection = observed.clone();
    detection.conflict.detection_unavailable = true;
    cases.push((
        entry_for(&project, Some(&detection), false),
        Some(detection.clone()),
        [false, true, true, true, false, true],
    ));

    let mut read = observed.clone();
    read.read_error = Some("failed".to_owned());
    cases.push((
        entry_for(&project, Some(&read), false),
        Some(read.clone()),
        [false, false, false, false, false, true],
    ));

    let mut detached = observed.clone();
    detached.context.as_mut().expect("context").is_detached = true;
    cases.push((
        entry_for(&project, Some(&detached), false),
        Some(detached.clone()),
        [false, true, true, true, false, true],
    ));
    cases.push((
        entry_for(&project, None, false),
        None,
        [false, false, false, false, false, true],
    ));
    cases.push((
        entry_for(&project, Some(&observed), false),
        Some(observed.clone()),
        [false, true, true, true, false, false],
    ));

    let clean = status(&project);
    cases.push((
        entry_for(&project, Some(&clean), false),
        Some(clean.clone()),
        [true, false, false, false, false, false],
    ));

    let filters = [
        StatusFilter::AllSet,
        StatusFilter::Behind,
        StatusFilter::Ahead,
        StatusFilter::Dirty,
        StatusFilter::Conflict,
        StatusFilter::NeedsHelp,
    ];
    for (entry, entry_status, expected) in cases {
        for (filter, expected) in filters.iter().zip(expected) {
            assert_eq!(
                matches_status_filter(&entry, entry_status.as_ref(), filter),
                expected,
                "{filter:?}"
            );
        }
    }
}

#[test]
fn relevant_count_and_recommended_order_use_kind_before_value() {
    let projects = vec![
        project(1, "one changed", None),
        project(2, "many behind", None),
        project(3, "five changed", None),
        project(4, "ahead", None),
    ];
    let mut statuses: Vec<_> = projects.iter().map(status).collect();
    statuses[0].working_tree.uncommitted_count = 1;
    statuses[0].remote.behind = 200;
    statuses[1].remote.behind = 100;
    statuses[2].working_tree.uncommitted_count = 5;
    statuses[3].remote.ahead = 2;
    let workspace_status = WorkspaceStatus { projects: statuses };
    let display = build_dashboard_display(
        &projects,
        Some(&workspace_status),
        &HashSet::new(),
        &FilterState::default(),
        options(DashboardGrouping::Flat, DashboardSort::Recommended, false, false),
    );
    assert_eq!(
        display.ordered_selectable_ids,
        vec![projects[2].id, projects[0].id, projects[3].id, projects[1].id]
    );
    assert_eq!(
        display.sections[0].entries[1].relevant_count,
        Some(RelevantCount {
            kind: ProgressKind::Uncommitted,
            value: 1,
        })
    );
}

#[test]
fn project_groups_are_case_stable_with_ungrouped_last() {
    let projects = vec![
        project(1, "z", None),
        project(2, "b", Some("alpha")),
        project(3, "a", Some("Alpha")),
        project(4, "c", Some("Beta")),
    ];
    let statuses = WorkspaceStatus {
        projects: projects.iter().map(status).collect(),
    };
    let display = build_dashboard_display(
        &projects,
        Some(&statuses),
        &HashSet::new(),
        &FilterState::default(),
        options(DashboardGrouping::ProjectGroup, DashboardSort::NameAscending, false, true),
    );
    let keys: Vec<_> = display
        .sections
        .iter()
        .map(|section| section.key.clone())
        .collect();
    assert_eq!(
        keys,
        vec![
            DashboardSectionKey::ProjectGroup(Some("Alpha".to_owned())),
            DashboardSectionKey::ProjectGroup(Some("alpha".to_owned())),
            DashboardSectionKey::ProjectGroup(Some("Beta".to_owned())),
            DashboardSectionKey::ProjectGroup(None),
        ]
    );
}

#[test]
fn selectable_ids_equal_rendered_rows_for_all_display_combinations() {
    let projects = vec![
        project(1, "help", Some("A")),
        project(2, "work", Some("A")),
        project(3, "set", None),
    ];
    let mut statuses: Vec<_> = projects.iter().map(status).collect();
    statuses[0].conflict.has_conflict = true;
    statuses[1].working_tree.untracked_count = 2;
    let workspace_status = WorkspaceStatus { projects: statuses };

    for grouping in [
        DashboardGrouping::Attention,
        DashboardGrouping::ProjectGroup,
        DashboardGrouping::Flat,
    ] {
        for sort in [DashboardSort::Recommended, DashboardSort::NameAscending] {
            for in_progress_collapsed in [false, true] {
                for all_set_collapsed in [false, true] {
                    let display = build_dashboard_display(
                        &projects,
                        Some(&workspace_status),
                        &HashSet::new(),
                        &FilterState::default(),
                        options(grouping, sort, in_progress_collapsed, all_set_collapsed),
                    );
                    let rendered: Vec<_> = display
                        .sections
                        .iter()
                        .filter(|section| !section.collapsed)
                        .flat_map(|section| section.entries.iter())
                        .map(|entry| entry.project_id)
                        .collect();
                    assert_eq!(display.ordered_selectable_ids, rendered);
                    let unique: HashSet<_> = display
                        .sections
                        .iter()
                        .flat_map(|section| section.entries.iter())
                        .map(|entry| entry.project_id)
                        .collect();
                    assert_eq!(unique.len(), projects.len());
                    assert_eq!(
                        display
                            .sections
                            .iter()
                            .map(|section| section.entries.len())
                            .sum::<usize>(),
                        projects.len()
                    );
                    if grouping != DashboardGrouping::Attention {
                        assert_eq!(display.ordered_selectable_ids.len(), projects.len());
                    }
                }
            }
        }
    }
}

#[test]
fn attention_layout_collapses_in_progress_and_all_set_but_not_needs_help() {
    let projects = vec![
        project(1, "help", None),
        project(2, "work", None),
        project(3, "set", None),
    ];
    let mut statuses: Vec<_> = projects.iter().map(status).collect();
    statuses[0].conflict.has_conflict = true;
    statuses[1].remote.behind = 3;
    let workspace_status = WorkspaceStatus { projects: statuses };
    let display = build_dashboard_display(
        &projects,
        Some(&workspace_status),
        &HashSet::new(),
        &FilterState::default(),
        options(DashboardGrouping::Attention, DashboardSort::Recommended, true, true),
    );
    let keys: Vec<_> = display.sections.iter().map(|s| (s.key.clone(), s.collapsed)).collect();
    assert_eq!(
        keys,
        vec![
            (DashboardSectionKey::Tier(DashboardTier::NeedsHelp), false),
            (DashboardSectionKey::Tier(DashboardTier::InProgress), true),
            (DashboardSectionKey::Tier(DashboardTier::AllSet), true),
        ]
    );
    assert_eq!(display.ordered_selectable_ids, vec![1]);
}

#[test]
fn missing_projects_and_filters_shape_the_display() {
    let projects = vec![
        project(1, "Api", Some("core")),
        project(2, "web", Some("front")),
        project(3, "cli", None),
    ];
    let mut statuses: Vec<_> = projects.iter().map(status).collect();
    statuses[1].remote.behind = 2;
    let workspace_status = WorkspaceStatus { projects: statuses };
    let mut missing = HashSet::new();
    missing.insert(3u128);

    let mut filter = FilterState::default();
    filter.status_filters.push(StatusFilter::NeedsHelp);
    let display = build_dashboard_display(
        &projects,
        Some(&workspace_status),
        &missing,
        &filter,
        options(DashboardGrouping::Flat, DashboardSort::NameAscending, false, false),
    );
    assert_eq!(display.ordered_selectable_ids, vec![3]);
    assert_eq!(display.sections[0].entries[0].cause, Some(DashboardCause::MissingPath));

    let mut by_group = FilterState::default();
    by_group.active_group = Some("front".to_owned());
    let display = build_dashboard_display(
        &projects,
        Some(&workspace_status),
        &missing,
        &by_group,
        options(DashboardGrouping::Flat, DashboardSort::NameAscending, false, false),
    );
    assert_eq!(display.ordered_selectable_ids, vec![2]);

    let mut by_search = FilterState::default();
    by_search.search_text = "aP".to_owned();
    let display = build_dashboard_display(
        &projects,
        Some(&workspace_status),
        &missing,
        &by_search,
        options(DashboardGrouping::Flat, DashboardSort::NameAscending, false, false),
    );
    assert_eq!(display.ordered_selectable_ids, vec![1]);
}
