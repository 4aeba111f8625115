use knotra_app::model::{DependencyEdge, DependencyGraph, FreezeValidation, FreezeValidationEntry};
use knotra_app::state::topology::{TopologyPhase, TopologyState};

fn edge(from: &str, to: &str) -> DependencyEdge {
    DependencyEdge {
        from_project_id: 1,
        from_project_name: from.to_owned(),
        to_project_name: to.to_owned(),
        version_req: "^1.0".to_owned(),
        is_path_dep: true,
    }
}

fn validation_entry(name: &str, included: bool) -> FreezeValidationEntry {
    FreezeValidationEntry {
        project_id: 1,
        project_name: name.to_owned(),
        included,
        is_clean: true,
        tag_exists: false,
        notes: Vec::new(),
        blockers: Vec::new(),
    }
}

fn validation(entries: Vec<FreezeValidationEntry>) -> FreezeValidation {
    FreezeValidation {
        freeze_name: "v1.0.0".to_owned(),
        entries,
    }
}

#[test]
fn warnings_generated_for_dependents() {
    let graph = DependencyGraph {
        edges: vec![edge("api", "shared-lib"), edge("worker", "shared-lib")],
    };
    let state = TopologyState::default();
    let warnings = state.compute_warnings(&graph, &["shared-lib".to_owned()]);
    assert_eq!(warnings.len(), 1);
    assert_eq!(warnings[0].dependent_projects.len(), 2);
}

#[test]
fn no_warnings_when_no_dependents() {
    let graph = DependencyGraph {
        edges: vec![edge("api", "external-crate")],
    };
    let state = TopologyState::default();
    let warnings = state.compute_warnings(&graph, &["api".to_owned()]);
    assert!(warnings.is_empty());
}

#[test]
fn warnings_for_reports_not_checked_when_topology_idle() {
    let state = TopologyState::default();
    let v = validation(vec![validation_entry("shared-lib", true)]);
    let (warnings, checked) = state.warnings_for(&v);
    assert!(!checked);
    assert!(warnings.is_empty());
}

#[test]
fn warnings_for_reports_checked_with_no_dependents() {
    let graph = DependencyGraph {
        edges: vec![edge("api", "external-crate")],
    };
    let state = TopologyState {
        phase: TopologyPhase::Ready(graph),
    };
    let v = validation(vec![validation_entry("api", true)]);
    let (warnings, checked) = state.warnings_for(&v);
    assert!(checked);
    assert!(warnings.is_empty());
}

#[test]
fn warnings_for_finds_dependents_of_included_projects() {
    let graph = DependencyGraph {
        edges: vec![edge("api", "shared-lib"), edge("worker", "shared-lib")],
    };
    let state = TopologyState {
        phase: TopologyPhase::Ready(graph),
    };
    let v = validation(vec![validation_entry("shared-lib", true)]);
    let (warnings, checked) = state.warnings_for(&v);
    assert!(checked);
    assert_eq!(warnings.len(), 1);
    assert_eq!(warnings[0].dependent_projects.len(), 2);
}

#[test]
fn warnings_for_ignores_excluded_projects() {
    let graph = DependencyGraph {
        edges: vec![edge("api", "shared-lib")],
    };
    let state = TopologyState {
        phase: TopologyPhase::Ready(graph),
    };
    let v = validation(vec![
        validation_entry("shared-lib", false),
        validation_entry("api", true),
    ]);
    let (warnings, checked) = state.warnings_for(&v);
    assert!(checked);
    assert!(warnings.is_empty());
}

#[test]
fn warnings_list_dependents_in_edge_order_and_are_direct() {
    let graph = DependencyGraph {
        edges: vec![
            edge("worker", "core"),
            edge("api", "util"),
            edge("api", "core"),
        ],
    };
    let state = TopologyState::default();
    let warnings = state.compute_warnings(&graph, &["util".to_owned(), "core".to_owned()]);
    assert_eq!(warnings.len(), 2);
    assert_eq!(warnings[0].frozen_project_name, "util");
    assert_eq!(warnings[0].dependent_projects, vec!["api".to_owned()]);
    assert_eq!(warnings[1].frozen_project_name, "core");
    assert_eq!(
        warnings[1].dependent_projects,
        vec!["worker".to_owned(), "api".to_owned()]
    );
    assert!(!warnings[1].is_transitive);
    assert_eq!(
        graph.direct_dependent_names(&"core".to_owned()),
        vec!["worker".to_owned(), "api".to_owned()]
    );
}
