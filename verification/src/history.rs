//! Operation history: per-project outcomes of a finished operation, the
//! overall status shown for it, and its plain-text export.

use vstd::prelude::*;

use crate::text::{
    folded, has_substring, id_string, id_text, lines_of, str_contains, text_lines, to_lowercase, views_of,
};

verus! {

/// What happened to one project in an operation.
#[derive(Debug, Clone, Copy, PartialEq, Eq, Structural)]
pub enum ProjectOperationOutcome {
    Succeeded,
    Failed,
    Skipped,
}

/// One project's part of an operation.
#[derive(Debug, Clone)]
pub struct ProjectOperationResult {
    pub project_id: u128,
    /// How the project came out; the history's counts and status go by it.
    pub outcome: ProjectOperationOutcome,
    /// Whether the project's commands succeeded, as the detail panel's mark
    /// shows it. A skipped project counts as succeeded here while its
    /// outcome is `Skipped`; the two are recorded separately and nothing
    /// derives one from the other.
    pub success: bool,
    /// Why the project was left out, as a stable code or a message.
    pub skip_reason: Option<String>,
    pub commands_executed: Vec<String>,
    pub stdout: String,
    pub stderr: String,
    pub exit_code: Option<i32>,
    pub error_message: Option<String>,
}

/// A finished operation: its per-project results and whether a rollback was
/// attempted, and with what success.
#[derive(Debug, Clone)]
pub struct OperationResult {
    pub per_project: Vec<ProjectOperationResult>,
    pub rollback_attempted: bool,
    pub rollback_succeeded: Option<bool>,
}

/// An operation's overall status: a glyph, the catalog key of its label, and
/// the fixed English label used in exports; all three come from one rule.
#[derive(Debug, Clone, Copy, PartialEq, Eq)]
pub struct StatusSummary {
    pub glyph: &'static str,
    pub label_key: &'static str,
    pub label_en: &'static str,
}

/// How many results of `s` have outcome `o`.
pub open spec fn count_outcome(s: Seq<ProjectOperationResult>, o: ProjectOperationOutcome) -> nat
    decreases s.len(),
{
    if s.len() == 0 {
        0
    } else {
        count_outcome(s.drop_last(), o) + if s.last().outcome == o {
            1nat
        } else {
            0nat
        }
    }
}

/// The status by the first rule that applies: a rollback that succeeded;
/// a rollback otherwise; all projects succeeded (at least one); failures
/// mixed with successes or skips; only skips; otherwise failed.
pub open spec fn spec_summarise(r: OperationResult) -> StatusSummary {
    let succeeded = count_outcome(r.per_project@, ProjectOperationOutcome::Succeeded);
    let failed = count_outcome(r.per_project@, ProjectOperationOutcome::Failed);
    let skipped = count_outcome(r.per_project@, ProjectOperationOutcome::Skipped);
    if r.rollback_attempted {
        if r.rollback_succeeded == Some(true) {
            StatusSummary { glyph: "↩", label_key: "history.rollback_note", label_en: "Rolled back" }
        } else {
            StatusSummary { glyph: "✗", label_key: "history.status_rollback_failed", label_en: "Rollback failed" }
        }
    } else if succeeded > 0 && failed == 0 && skipped == 0 {
        StatusSummary { glyph: "✓", label_key: "history.status_success", label_en: "Success" }
    } else if failed > 0 && (succeeded > 0 || skipped > 0) {
        StatusSummary { glyph: "⚠", label_key: "history.status_partial", label_en: "Partial" }
    } else if skipped > 0 && failed == 0 {
        StatusSummary { glyph: "-", label_key: "history.status_skipped", label_en: "Skipped" }
    } else {
        StatusSummary { glyph: "✗", label_key: "history.status_failed", label_en: "Failed" }
    }
}

fn count_with_outcome(v: &Vec<ProjectOperationResult>, o: ProjectOperationOutcome) -> (r: usize)
    ensures
        r == count_outcome(v@, o),
{
    let mut n: usize = 0;
    let mut i: usize = 0;
    while i < v.len()
        invariant
            i <= v@.len(),
            n == count_outcome(v@.take(i as int), o),
            n <= i,
        decreases v@.len() - i,
    {
        assert(v@.take(i + 1).drop_last() =~= v@.take(i as int));
        if v[i].outcome == o {
            n = n + 1;
        }
        i = i + 1;
    }
    assert(v@.take(v@.len() as int) =~= v@);
    n
}

impl OperationResult {
    /// How many projects succeeded.
    pub fn succeeded_count(&self) -> (r: usize)
        ensures
            r == count_outcome(self.per_project@, ProjectOperationOutcome::Succeeded),
    {
        count_with_outcome(&self.per_project, ProjectOperationOutcome::Succeeded)
    }

    /// How many projects failed.
    pub fn failed_count(&self) -> (r: usize)
        ensures
            r == count_outcome(self.per_project@, ProjectOperationOutcome::Failed),
    {
        count_with_outcome(&self.per_project, ProjectOperationOutcome::Failed)
    }

    /// How many projects were skipped.
    pub fn skipped_count(&self) -> (r: usize)
        ensures
            r == count_outcome(self.per_project@, ProjectOperationOutcome::Skipped),
    {
        count_with_outcome(&self.per_project, ProjectOperationOutcome::Skipped)
    }
}

/// The overall status of a finished operation.
pub fn summarise_status(result: &OperationResult) -> (r: StatusSummary)
    ensures
        r == spec_summarise(*result),
{
    let succeeded = result.succeeded_count();
    let failed = result.failed_count();
    let skipped = result.skipped_count();
    if result.rollback_attempted {
        if result.rollback_succeeded == Some(true) {
            StatusSummary { glyph: "↩", label_key: "history.rollback_note", label_en: "Rolled back" }
        } else {
            StatusSummary { glyph: "✗", label_key: "history.status_rollback_failed", label_en: "Rollback failed" }
        }
    } else if succeeded > 0 && failed == 0 && skipped == 0 {
        StatusSummary { glyph: "✓", label_key: "history.status_success", label_en: "Success" }
    } else if failed > 0 && (succeeded > 0 || skipped > 0) {
        StatusSummary { glyph: "⚠", label_key: "history.status_partial", label_en: "Partial" }
    } else if skipped > 0 && failed == 0 {
        StatusSummary { glyph: "-", label_key: "history.status_skipped", label_en: "Skipped" }
    } else {
        StatusSummary { glyph: "✗", label_key: "history.status_failed", label_en: "Failed" }
    }
}

/// Every project is counted under exactly one outcome.
pub proof fn lemma_outcomes_partition(s: Seq<ProjectOperationResult>)
    ensures
        count_outcome(s, ProjectOperationOutcome::Succeeded) + count_outcome(s, ProjectOperationOutcome::Failed)
            + count_outcome(s, ProjectOperationOutcome::Skipped) == s.len(),
    decreases s.len(),
{
    if s.len() > 0 {
        lemma_outcomes_partition(s.drop_last());
    }
}

/// Some project has outcome `o` exactly when the count of `o` is not zero.
proof fn lemma_count_outcome_positive(s: Seq<ProjectOperationResult>, o: ProjectOperationOutcome)
    ensures
        (count_outcome(s, o) > 0) == exists|i: int| 0 <= i < s.len() && (#[trigger] s[i]).outcome == o,
    decreases s.len(),
{
    if s.len() > 0 {
        lemma_count_outcome_positive(s.drop_last(), o);
        let t = s.drop_last();
        if exists|i: int| 0 <= i < t.len() && (#[trigger] t[i]).outcome == o {
            let i = choose|i: int| 0 <= i < t.len() && (#[trigger] t[i]).outcome == o;
            assert(s[i] == t[i]);
        }
        if exists|i: int| 0 <= i < s.len() && (#[trigger] s[i]).outcome == o {
            let i = choose|i: int| 0 <= i < s.len() && (#[trigger] s[i]).outcome == o;
            if i < t.len() {
                assert(t[i] == s[i]);
            }
        }
    }
}

/// The overall status follows the projects' outcomes. A rollback decides it
/// when one was attempted. Otherwise: every project succeeded, and there was
/// one, is a success; a failure beside a project that did not fail is
/// partial; only skipped projects is skipped; only failures, or no project
/// at all, is a failure.
pub proof fn lemma_status_follows_outcomes(r: OperationResult)
    ensures
        r.rollback_attempted ==> spec_summarise(r).label_key == if r.rollback_succeeded == Some(true) {
            "history.rollback_note"
        } else {
            "history.status_rollback_failed"
        },
        (!r.rollback_attempted && r.per_project@.len() > 0 && forall|i: int|
            0 <= i < r.per_project@.len() ==> (#[trigger] r.per_project@[i]).outcome
                == ProjectOperationOutcome::Succeeded) ==> spec_summarise(r).label_key == "history.status_success",
        (!r.rollback_attempted && (exists|i: int|
            0 <= i < r.per_project@.len() && (#[trigger] r.per_project@[i]).outcome
                == ProjectOperationOutcome::Failed) && (exists|j: int|
            0 <= j < r.per_project@.len() && (#[trigger] r.per_project@[j]).outcome
                != ProjectOperationOutcome::Failed)) ==> spec_summarise(r).label_key == "history.status_partial",
        (!r.rollback_attempted && r.per_project@.len() > 0 && forall|i: int|
            0 <= i < r.per_project@.len() ==> (#[trigger] r.per_project@[i]).outcome
                == ProjectOperationOutcome::Skipped) ==> spec_summarise(r).label_key == "history.status_skipped",
        (!r.rollback_attempted && forall|i: int|
            0 <= i < r.per_project@.len() ==> (#[trigger] r.per_project@[i]).outcome
                == ProjectOperationOutcome::Failed) ==> spec_summarise(r).label_key == "history.status_failed",
{
    let s = r.per_project@;
    lemma_count_outcome_positive(s, ProjectOperationOutcome::Succeeded);
    lemma_count_outcome_positive(s, ProjectOperationOutcome::Failed);
    lemma_count_outcome_positive(s, ProjectOperationOutcome::Skipped);
    if s.len() > 0 {
        assert(s[0] == s[0]);
    }
}

// ---------------------------------------------------------------------------
// Export
// ---------------------------------------------------------------------------

/// The outcome tag of a project line in an export.
pub open spec fn outcome_tag(o: ProjectOperationOutcome) -> Seq<char> {
    match o {
        ProjectOperationOutcome::Succeeded => "ok"@,
        ProjectOperationOutcome::Failed => "FAILED"@,
        ProjectOperationOutcome::Skipped => "SKIPPED"@,
    }
}

/// At most the first five lines.
pub open spec fn first_five(ls: Seq<Seq<char>>) -> Seq<Seq<char>> {
    ls.take(if ls.len() < 5 { ls.len() as int } else { 5 })
}

/// The export lines of one project: its id and outcome tag, its skip
/// reason verbatim, each command executed, and the first five lines of its
/// error output, each indented.
pub open spec fn project_export_lines(p: ProjectOperationResult) -> Seq<Seq<char>> {
    seq!["  "@ + id_text(p.project_id) + " ["@ + outcome_tag(p.outcome) + "]"@] + (match p.skip_reason {
        Some(r) => seq!["    "@ + r@],
        None => seq![],
    }) + p.commands_executed@.map_values(|c: String| "    $ "@ + c@) + first_five(text_lines(p.stderr@)).map_values(
        |l: Seq<char>| "    "@ + l,
    )
}

/// The export lines of the first `n` projects.
pub open spec fn projects_export_lines(ps: Seq<ProjectOperationResult>, n: nat) -> Seq<Seq<char>>
    decreases n,
{
    if n == 0 || n > ps.len() {
        seq![]
    } else {
        projects_export_lines(ps, (n - 1) as nat) + project_export_lines(ps[n - 1])
    }
}

/// The first `n` lines joined by line feeds.
pub open spec fn join_lines(ls: Seq<Seq<char>>, n: nat) -> Seq<char>
    decreases n,
{
    if n == 0 || n > ls.len() {
        seq![]
    } else if n == 1 {
        ls[0]
    } else {
        join_lines(ls, (n - 1) as nat) + "\n"@ + ls[n - 1]
    }
}

/// The plain-text export of an operation, in fixed English: a heading with
/// the operation's kind, when it started and its status, then each
/// project's lines; `kind` and `started_at` come already rendered.
pub open spec fn spec_export_text(r: OperationResult, kind: Seq<char>, started_at: Seq<char>) -> Seq<char> {
    let st = spec_summarise(r);
    let lines = seq!["# "@ + kind + " — "@ + started_at + " — "@ + st.glyph@ + " "@ + st.label_en@]
        + projects_export_lines(r.per_project@, r.per_project@.len());
    join_lines(lines, lines.len())
}

fn push_piece(parts: &mut Vec<String>, line: String)
    ensures
        views_of(final(parts)@) == views_of(old(parts)@).push(line@),
{
    parts.push(line);
    assert(views_of(parts@) =~= views_of(old(parts)@).push(line@));
}

fn indented(prefix: &str, text: &str) -> (r: String)
    ensures
        r@ == prefix@ + text@,
{
    let mut s = String::from_str(prefix);
    s.append(text);
    s
}

fn push_project_lines(parts: &mut Vec<String>, p: &ProjectOperationResult)
    ensures
        views_of(final(parts)@) == views_of(old(parts)@) + project_export_lines(*p),
{
    let ghost start = views_of(parts@);
    let tag = match p.outcome {
        ProjectOperationOutcome::Succeeded => "ok",
        ProjectOperationOutcome::Failed => "FAILED",
        ProjectOperationOutcome::Skipped => "SKIPPED",
    };
    let mut head = String::from_str("  ");
    let id = id_string(p.project_id);
    head.append(id.as_str());
    head.append(" [");
    head.append(tag);
    head.append("]");
    push_piece(parts, head);
    let ghost after_head = views_of(parts@);
    if let Some(reason) = &p.skip_reason {
        push_piece(parts, indented("    ", reason.as_str()));
    }
    let ghost after_reason = views_of(parts@);
    assert(after_reason =~= start + seq!["  "@ + id_text(p.project_id) + " ["@ + outcome_tag(p.outcome) + "]"@] + (
    match p.skip_reason {
        Some(r) => seq!["    "@ + r@],
        None => seq![],
    }));
    let mut i: usize = 0;
    while i < p.commands_executed.len()
        invariant
            i <= p.commands_executed@.len(),
            views_of(parts@) == after_reason + p.commands_executed@.take(i as int).map_values(
                |c: String| "    $ "@ + c@,
            ),
        decreases p.commands_executed@.len() - i,
    {
        push_piece(parts, indented("    $ ", p.commands_executed[i].as_str()));
        assert(p.commands_executed@.take(i + 1).map_values(|c: String| "    $ "@ + c@) =~= p.commands_executed@.take(
            i as int,
        ).map_values(|c: String| "    $ "@ + c@).push("    $ "@ + p.commands_executed@[i as int]@));
        i = i + 1;
    }
    assert(p.commands_executed@.take(p.commands_executed@.len() as int) =~= p.commands_executed@);
    let ghost after_cmds = views_of(parts@);
    let lines = lines_of(p.stderr.as_str());
    let limit: usize = if lines.len() < 5 {
        lines.len()
    } else {
        5
    };
    let ghost ls = text_lines(p.stderr@);
    let mut j: usize = 0;
    while j < limit
        invariant
            j <= limit,
            limit <= lines@.len(),
            views_of(lines@) == ls,
            limit == (if ls.len() < 5 { ls.len() } else { 5 }),
            views_of(parts@) == after_cmds + ls.take(j as int).map_values(|l: Seq<char>| "    "@ + l),
        decreases limit - j,
    {
        assert(lines@[j as int]@ == ls[j as int]);
        push_piece(parts, indented("    ", lines[j].as_str()));
        assert(ls.take(j + 1).map_values(|l: Seq<char>| "    "@ + l) =~= ls.take(j as int).map_values(
            |l: Seq<char>| "    "@ + l,
        ).push("    "@ + ls[j as int]));
        j = j + 1;
    }
    assert(views_of(parts@) =~= start + project_export_lines(*p));
}

/// The plain-text export of an operation for pasting into a report, in
/// fixed English whatever the interface language; `kind` and `started_at`
/// are the operation's kind and start time, already rendered.
pub fn export_text(result: &OperationResult, kind: &str, started_at: &str) -> (r: String)
    ensures
        r@ == spec_export_text(*result, kind@, started_at@),
{
    let st = summarise_status(result);
    let mut head = String::from_str("# ");
    head.append(kind);
    head.append(" — ");
    head.append(started_at);
    head.append(" — ");
    head.append(st.glyph);
    head.append(" ");
    head.append(st.label_en);
    let mut parts: Vec<String> = Vec::new();
    push_piece(&mut parts, head);
    let ghost first = views_of(parts@);
    let mut i: usize = 0;
    while i < result.per_project.len()
        invariant
            i <= result.per_project@.len(),
            views_of(parts@) == first + projects_export_lines(result.per_project@, i as nat),
        decreases result.per_project@.len() - i,
    {
        let ghost b = views_of(parts@);
        push_project_lines(&mut parts, &result.per_project[i]);
        assert(first + projects_export_lines(result.per_project@, (i + 1) as nat) =~= b + project_export_lines(
            result.per_project@[i as int],
        ));
        i = i + 1;
    }
    let ghost lines = views_of(parts@);
    assert(views_of(Seq::<String>::empty()) =~= Seq::<Seq<char>>::empty());
    assert(first =~= seq!["# "@ + kind@ + " — "@ + started_at@ + " — "@ + st.glyph@ + " "@ + st.label_en@]);
    assert(lines == seq!["# "@ + kind@ + " — "@ + started_at@ + " — "@ + st.glyph@ + " "@ + st.label_en@]
        + projects_export_lines(result.per_project@, result.per_project@.len()));
    let mut out = String::new();
    let mut k: usize = 0;
    while k < parts.len()
        invariant
            k <= parts@.len(),
            views_of(parts@) == lines,
            out@ == join_lines(lines, k as nat),
        decreases parts@.len() - k,
    {
        if k > 0 {
            out.append("\n");
        }
        out.append(parts[k].as_str());
        assert(lines[k as int] == parts@[k as int]@);
        proof {
            if k == 0 {
                assert(out@ =~= lines[0]);
            } else {
                assert(out@ =~= join_lines(lines, k as nat) + "\n"@ + lines[k as int]);
            }
        }
        k = k + 1;
    }
    assert(lines.len() == parts@.len());
    out
}

// ---------------------------------------------------------------------------
// Search
// ---------------------------------------------------------------------------

/// One project's part matches a lower-cased query: in its id's text, or in
/// its lower-cased output or error output.
pub open spec fn project_matches(p: ProjectOperationResult, q: Seq<char>) -> bool {
    has_substring(id_text(p.project_id), q) || has_substring(folded(p.stdout@), q) || has_substring(
        folded(p.stderr@),
        q,
    )
}

/// A log entry is listed for a search: the search is empty, or its
/// lower-cased text occurs in the lower-cased label of the operation's kind
/// as shown, or in some project's part.
pub open spec fn spec_log_matches_search(
    query: Seq<char>,
    kind_label: Seq<char>,
    per_project: Seq<ProjectOperationResult>,
) -> bool {
    let q = folded(query);
    q.len() == 0 || has_substring(folded(kind_label), q) || exists|i: int|
        0 <= i < per_project.len() && project_matches(#[trigger] per_project[i], q)
}

/// Whether a log entry is listed for the history search.
pub fn log_matches_search(query: &str, kind_label: &str, per_project: &[ProjectOperationResult]) -> (r: bool)
    ensures
        r == spec_log_matches_search(query@, kind_label@, per_project@),
{
    let q = to_lowercase(query);
    let qs = q.as_str();
    if qs.is_empty() {
        return true;
    }
    if str_contains(to_lowercase(kind_label).as_str(), qs) {
        return true;
    }
    let mut i: usize = 0;
    while i < per_project.len()
        invariant
            i <= per_project@.len(),
            qs@ == folded(query@),
            forall|j: int| 0 <= j < i ==> !project_matches(#[trigger] per_project@[j], qs@),
        decreases per_project@.len() - i,
    {
        let p = &per_project[i];
        let id = id_string(p.project_id);
        if str_contains(id.as_str(), qs) || str_contains(to_lowercase(p.stdout.as_str()).as_str(), qs)
            || str_contains(to_lowercase(p.stderr.as_str()).as_str(), qs) {
            assert(project_matches(per_project@[i as int], qs@));
            return true;
        }
        i = i + 1;
    }
    false
}

/// Any one project's part whose id text, lower-cased output or lower-cased
/// error output holds the lower-cased query lists the whole log entry,
/// wherever that part stands among the others.
pub proof fn lemma_any_matching_part_lists_the_log(
    query: Seq<char>,
    kind_label: Seq<char>,
    per_project: Seq<ProjectOperationResult>,
    i: int,
)
    requires
        0 <= i < per_project.len(),
        has_substring(id_text(per_project[i].project_id), folded(query)) || has_substring(
            folded(per_project[i].stdout@),
            folded(query),
        ) || has_substring(folded(per_project[i].stderr@), folded(query)),
    ensures
        spec_log_matches_search(query, kind_label, per_project),
{
    assert(project_matches(per_project[i], folded(query)));
}

/// An empty search, or one found in the operation's kind label, lists every
/// log entry of that kind, whatever its parts hold.
pub proof fn lemma_label_match_lists_the_log(
    query: Seq<char>,
    kind_label: Seq<char>,
    per_project: Seq<ProjectOperationResult>,
)
    requires
        folded(query).len() == 0 || has_substring(folded(kind_label), folded(query)),
    ensures
        spec_log_matches_search(query, kind_label, per_project),
{
}

/// A listed entry for a non-empty search holds the query in its kind label
/// or in some project's id text, output or error output.
pub proof fn lemma_listed_log_holds_the_query(
    query: Seq<char>,
    kind_label: Seq<char>,
    per_project: Seq<ProjectOperationResult>,
)
    requires
        folded(query).len() > 0,
        spec_log_matches_search(query, kind_label, per_project),
    ensures
        has_substring(folded(kind_label), folded(query)) || exists|i: int|
            0 <= i < per_project.len() && (has_substring(
                id_text((#[trigger] per_project[i]).project_id),
                folded(query),
            ) || has_substring(folded(per_project[i].stdout@), folded(query)) || has_substring(
                folded(per_project[i].stderr@),
                folded(query),
            )),
{
}

/// The search does not depend on the order of the project parts.
pub proof fn lemma_search_ignores_part_order(
    query: Seq<char>,
    kind_label: Seq<char>,
    a: Seq<ProjectOperationResult>,
    b: Seq<ProjectOperationResult>,
)
    requires
        a.to_multiset() == b.to_multiset(),
    ensures
        spec_log_matches_search(query, kind_label, a) == spec_log_matches_search(query, kind_label, b),
{
    a.to_multiset_ensures();
    b.to_multiset_ensures();
    let q = folded(query);
    if exists|i: int| 0 <= i < a.len() && project_matches(#[trigger] a[i], q) {
        let i = choose|i: int| 0 <= i < a.len() && project_matches(#[trigger] a[i], q);
        assert(a.contains(a[i]));
        assert(a.to_multiset().count(a[i]) > 0);
        assert(b.to_multiset().count(a[i]) > 0);
        let j = choose|j: int| 0 <= j < b.len() && b[j] == a[i];
        assert(project_matches(b[j], q));
    }
    if exists|j: int| 0 <= j < b.len() && project_matches(#[trigger] b[j], q) {
        let j = choose|j: int| 0 <= j < b.len() && project_matches(#[trigger] b[j], q);
        assert(b.contains(b[j]));
        assert(b.to_multiset().count(b[j]) > 0);
        assert(a.to_multiset().count(b[j]) > 0);
        let i = choose|i: int| 0 <= i < a.len() && a[i] == b[j];
        assert(project_matches(a[i], q));
    }
}

} // verus!
