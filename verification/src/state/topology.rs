//! Dependency topology: impact warnings for a freeze.

use vstd::prelude::*;

use crate::model::{spec_direct_dependents, DependencyGraph, FreezeValidation, ImpactWarning};

verus! {

/// Whether dependency data is available.
#[derive(Debug, Clone)]
pub enum TopologyPhase {
    Idle,
    Scanning,
    Ready(DependencyGraph),
}

/// The topology screen.
#[derive(Debug)]
pub struct TopologyState {
    pub phase: TopologyPhase,
}

impl Default for TopologyState {
    fn default() -> (s: Self)
        ensures
            s.phase is Idle,
    {
        TopologyState { phase: TopologyPhase::Idle }
    }
}

/// A warning by its values: frozen name, dependent names, transitive flag.
pub open spec fn warning_values(w: ImpactWarning) -> (Seq<char>, Seq<Seq<char>>, bool) {
    (w.frozen_project_name@, w.dependent_projects@.map_values(|s: String| s@), w.is_transitive)
}

pub open spec fn warnings_values(v: Seq<ImpactWarning>) -> Seq<(Seq<char>, Seq<Seq<char>>, bool)> {
    v.map_values(|w: ImpactWarning| warning_values(w))
}

/// Warnings for the first `n` names being frozen: one direct (not transitive)
/// warning per name that has dependents, listing them.
pub open spec fn spec_warnings(graph: DependencyGraph, freezing: Seq<Seq<char>>, n: nat) -> Seq<
    (Seq<char>, Seq<Seq<char>>, bool),
>
    decreases n,
{
    if n == 0 || n > freezing.len() {
        seq![]
    } else {
        let prev = spec_warnings(graph, freezing, (n - 1) as nat);
        let deps = spec_direct_dependents(graph.edges@, freezing[n - 1]);
        if deps.len() == 0 {
            prev
        } else {
            prev.push((freezing[n - 1], deps, false))
        }
    }
}

/// The names of the included entries of a validation, in order.
pub open spec fn included_names(v: FreezeValidation, n: nat) -> Seq<Seq<char>>
    decreases n,
{
    if n == 0 || n > v.entries@.len() {
        seq![]
    } else {
        let prev = included_names(v, (n - 1) as nat);
        if v.entries@[n - 1].included {
            prev.push(v.entries@[n - 1].project_name@)
        } else {
            prev
        }
    }
}

impl TopologyState {
    /// Impact warnings for the projects about to be frozen.
    pub fn compute_warnings(&self, graph: &DependencyGraph, freezing: &[String]) -> (r: Vec<ImpactWarning>)
        ensures
            warnings_values(r@) == spec_warnings(
                *graph,
                freezing@.map_values(|s: String| s@),
                freezing@.len() as nat,
            ),
    {
        let ghost names = freezing@.map_values(|s: String| s@);
        let mut out: Vec<ImpactWarning> = Vec::new();
        let mut i: usize = 0;
        while i < freezing.len()
            invariant
                i <= freezing@.len(),
                names == freezing@.map_values(|s: String| s@),
                warnings_values(out@) == spec_warnings(*graph, names, i as nat),
            decreases freezing@.len() - i,
        {
            let deps = graph.direct_dependent_names(&freezing[i]);
            let ghost before = out@;
            assert(names[i as int] == freezing@[i as int]@);
            if deps.len() > 0 {
                out.push(
                    ImpactWarning {
                        frozen_project_name: freezing[i].clone(),
                        dependent_projects: deps,
                        is_transitive: false,
                    },
                );
                assert(warnings_values(out@) =~= warnings_values(before).push(
                    (names[i as int], spec_direct_dependents(graph.edges@, names[i as int]), false),
                ));
            } else {
                assert(spec_direct_dependents(graph.edges@, names[i as int]).len() == 0);
            }
            i = i + 1;
        }
        out
    }

    /// Impact warnings for the projects a validation includes, and whether
    /// dependency data existed to check them against: `false` means not
    /// checked, unlike `true` with no warnings, which means nothing found.
    pub fn warnings_for(&self, validation: &FreezeValidation) -> (r: (Vec<ImpactWarning>, bool))
        ensures
            r.1 == (self.phase is Ready),
            match self.phase {
                TopologyPhase::Ready(graph) => warnings_values(r.0@) == spec_warnings(
                    graph,
                    included_names(*validation, validation.entries@.len() as nat),
                    included_names(*validation, validation.entries@.len() as nat).len(),
                ),
                _ => r.0@.len() == 0,
            },
    {
        match &self.phase {
            TopologyPhase::Ready(graph) => {
                let mut freezing: Vec<String> = Vec::new();
                let mut i: usize = 0;
                while i < validation.entries.len()
                    invariant
                        i <= validation.entries@.len(),
                        freezing@.map_values(|s: String| s@) == included_names(*validation, i as nat),
                    decreases validation.entries@.len() - i,
                {
                    let ghost before = freezing@;
                    if validation.entries[i].included {
                        freezing.push(validation.entries[i].project_name.clone());
                        assert(freezing@.map_values(|s: String| s@) =~= before.map_values(|s: String| s@).push(
                            validation.entries@[i as int].project_name@,
                        ));
                    }
                    i = i + 1;
                }
                (self.compute_warnings(graph, freezing.as_slice()), true)
            },
            _ => (Vec::new(), false),
        }
    }
}

} // verus!
