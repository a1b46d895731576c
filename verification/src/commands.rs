//! The bulk-operation engine: totalling project sizes, applying the
//! exclusion list, ordering projects for display, and aggregating
//! per-project outcomes into a single result.

use vstd::multiset::Multiset;
use vstd::prelude::*;
use vstd::relations::sorted_by;

use crate::data::{spec_display, spec_to_size, Project, Size};
use crate::text::{
    join_comma, le_ignore_case, lemma_lex_le_ci_total, lemma_lex_le_ci_trans, lex_le_ci,
    spec_split, spec_trim, split_str, trim_spaces, u64_to_string,
};
use crate::utility::clamped;

pub mod clean;
pub mod executor;
pub mod stats;

verus! {

/// The sum of the projects' byte counts.
pub open spec fn spec_total_bytes(s: Seq<Project>) -> nat
    decreases s.len(),
{
    if s.len() == 0 {
        0
    } else {
        s.first().size.bytes as nat + spec_total_bytes(s.drop_first())
    }
}

/// Appending a project adds its bytes to the total.
proof fn lemma_total_push(s: Seq<Project>, x: Project)
    ensures
        spec_total_bytes(s.push(x)) == spec_total_bytes(s) + x.size.bytes,
    decreases s.len(),
{
    if s.len() == 0 {
        assert(s.push(x).drop_first() =~= s);
    } else {
        assert(s.push(x).drop_first() =~= s.drop_first().push(x));
        lemma_total_push(s.drop_first(), x);
    }
}

/// Removing a project subtracts its bytes from the total.
proof fn lemma_total_remove(s: Seq<Project>, i: int)
    requires
        0 <= i < s.len(),
    ensures
        spec_total_bytes(s) == spec_total_bytes(s.remove(i)) + s[i].size.bytes,
    decreases s.len(),
{
    if i == 0 {
        assert(s.remove(0) =~= s.drop_first());
    } else {
        assert(s.remove(i).drop_first() =~= s.drop_first().remove(i - 1));
        lemma_total_remove(s.drop_first(), i - 1);
    }
}

/// The total size of a list of projects does not depend on the order the
/// projects are processed in: any two arrangements of the same projects
/// have the same total.
pub proof fn lemma_total_bytes_permutation(a: Seq<Project>, b: Seq<Project>)
    requires
        a.to_multiset() == b.to_multiset(),
    ensures
        spec_total_bytes(a) == spec_total_bytes(b),
    decreases a.len(),
{
    if a.len() == 0 {
        vstd::seq_lib::to_multiset_len(a);
        vstd::seq_lib::to_multiset_len(b);
        assert(b.len() == 0);
    } else {
        let x = a.first();
        assert(a.contains(x));
        vstd::seq_lib::to_multiset_contains(a, x);
        vstd::seq_lib::to_multiset_contains(b, x);
        assert(b.contains(x));
        let j = choose|j: int| 0 <= j < b.len() && b[j] == x;
        assert(a.remove(0) =~= a.drop_first());
        vstd::seq_lib::to_multiset_remove(a, 0);
        vstd::seq_lib::to_multiset_remove(b, j);
        lemma_total_bytes_permutation(a.drop_first(), b.remove(j));
        lemma_total_remove(b, j);
    }
}

/// The total size of the projects' artifacts, saturating at `u64::MAX`.
pub fn total_size_of_projects(projects: &Vec<Project>) -> (r: u64)
    ensures
        r == clamped(spec_total_bytes(projects@)),
{
    let n = projects.len();
    let mut total: u64 = 0;
    let mut i: usize = 0;
    proof {
        assert(projects@.take(0) =~= Seq::<Project>::empty());
    }
    while i < n
        invariant
            i <= n,
            n == projects@.len(),
            total == clamped(spec_total_bytes(projects@.take(i as int))),
        decreases n - i,
    {
        proof {
            assert(projects@.take(i as int + 1) =~= projects@.take(i as int).push(
                projects@[i as int],
            ));
            lemma_total_push(projects@.take(i as int), projects@[i as int]);
        }
        total = total.saturating_add(projects[i].size.size_in_bytes());
        i = i + 1;
    }
    proof {
        assert(projects@.take(n as int) =~= projects@);
    }
    total
}

/// The names an exclusion string stands for: its comma-separated pieces,
/// each with surrounding spaces removed.
pub open spec fn spec_exclude_names(s: Seq<char>) -> Seq<Seq<char>> {
    spec_split(s, ',').map_values(|piece: Seq<char>| spec_trim(piece))
}

/// The exclusion names a caller-supplied option stands for: none at all
/// when no exclusion string was given.
pub open spec fn spec_excl_of(exclude: Option<&String>) -> Seq<Seq<char>> {
    match exclude {
        None => Seq::empty(),
        Some(e) => spec_exclude_names(e@),
    }
}

/// The exclusion names an owned option stands for.
pub open spec fn spec_excl_owned(exclude: Option<String>) -> Seq<Seq<char>> {
    match exclude {
        None => Seq::empty(),
        Some(e) => spec_exclude_names(e@),
    }
}

/// Whether a project survives the exclusion list: its exact name is not
/// among the excluded names.
pub open spec fn spec_keeps(p: Project, excl: Seq<Seq<char>>) -> bool {
    !excl.contains(p.name@)
}

/// The projects that survive the exclusion list, in their given order.
pub open spec fn spec_filter_excluded(s: Seq<Project>, excl: Seq<Seq<char>>) -> Seq<Project> {
    s.filter(|p: Project| spec_keeps(p, excl))
}

/// How the exclusion filter grows when one project is appended.
proof fn lemma_filter_excluded_push(s: Seq<Project>, excl: Seq<Seq<char>>, x: Project)
    ensures
        spec_filter_excluded(s.push(x), excl) == if spec_keeps(x, excl) {
            spec_filter_excluded(s, excl).push(x)
        } else {
            spec_filter_excluded(s, excl)
        },
{
    reveal_with_fuel(Seq::<_>::filter, 2);
    assert(s.push(x).drop_last() =~= s);
    assert(s.push(x).last() == x);
}

/// Parses a comma-separated exclusion string into trimmed names.
pub fn parse_exclude_list(s: &str) -> (r: Vec<String>)
    ensures
        r.deep_view() == spec_exclude_names(s@),
{
    let pieces = split_str(s, ',');
    let n = pieces.len();
    let mut out: Vec<String> = Vec::new();
    let mut i: usize = 0;
    while i < n
        invariant
            i <= n,
            n == pieces@.len(),
            out@.len() == i,
            forall|j: int| 0 <= j < i ==> out.deep_view()[j] == spec_trim(
                #[trigger] pieces.deep_view()[j],
            ),
        decreases n - i,
    {
        out.push(trim_spaces(pieces[i].as_str()));
        i = i + 1;
    }
    proof {
        assert(out.deep_view() =~~= spec_exclude_names(s@));
    }
    out
}

/// Keeps the projects whose exact name is not on the comma-separated,
/// trimmed exclusion list; with no list, keeps everything.
pub fn filter_excluded(projects: &Vec<Project>, exclude: Option<&String>) -> (r: Vec<Project>)
    ensures
        r@ == spec_filter_excluded(projects@, spec_excl_of(exclude)),
{
    let names: Vec<String> = match exclude {
        Some(e) => parse_exclude_list(e.as_str()),
        None => Vec::new(),
    };
    proof {
        assert(names.deep_view() =~~= spec_excl_of(exclude));
    }
    let ghost excl = spec_excl_of(exclude);
    let n = projects.len();
    let mut out: Vec<Project> = Vec::new();
    let mut i: usize = 0;
    proof {
        assert(projects@.take(0) =~= Seq::<Project>::empty());
        assert(spec_filter_excluded(projects@.take(0), excl) =~= Seq::<Project>::empty());
    }
    while i < n
        invariant
            i <= n,
            n == projects@.len(),
            names.deep_view() == excl,
            out@ == spec_filter_excluded(projects@.take(i as int), excl),
        decreases n - i,
    {
        proof {
            assert(projects@.take(i as int + 1) =~= projects@.take(i as int).push(
                projects@[i as int],
            ));
            lemma_filter_excluded_push(projects@.take(i as int), excl, projects@[i as int]);
        }
        if !crate::utility::contains_string(&names, &projects[i].name) {
            out.push(projects[i].clone());
        }
        i = i + 1;
    }
    proof {
        assert(projects@.take(n as int) =~= projects@);
    }
    out
}

/// The order projects are displayed in: case-insensitive (ASCII) order of
/// their names.
pub open spec fn project_le(a: Project, b: Project) -> bool {
    lex_le_ci(a.name@, b.name@)
}

/// Whether the projects already stand in display order.
pub open spec fn spec_sorted(s: Seq<Project>) -> bool {
    sorted_by(s, |a: Project, b: Project| project_le(a, b))
}

/// Sorts projects by name, case-insensitively: the result holds exactly
/// the given projects, in display order.
pub fn sort_projects(projects: Vec<Project>) -> (r: Vec<Project>)
    ensures
        r@.to_multiset() == projects@.to_multiset(),
        spec_sorted(r@),
{
    broadcast use vstd::seq_lib::group_to_multiset_ensures;

    let mut rest = projects;
    let mut out: Vec<Project> = Vec::new();
    proof {
        assert(out@.to_multiset() =~= Multiset::<Project>::empty());
        assert(out@.to_multiset().add(rest@.to_multiset()) =~= projects@.to_multiset());
    }
    while rest.len() > 0
        invariant
            out@.to_multiset().add(rest@.to_multiset()) == projects@.to_multiset(),
            spec_sorted(out@),
            forall|x: Project, y: Project|
                out@.contains(x) && rest@.contains(y) ==> #[trigger] project_le(x, y),
        decreases rest@.len(),
    {
        let ghost prev_out = out@;
        let ghost prev_rest = rest@;
        let m = min_index(&rest);
        let x = rest.remove(m);
        out.push(x);
        proof {
            broadcast use vstd::multiset::group_multiset_axioms;

            assert(prev_rest[m as int] == x);
            assert(prev_rest.contains(x));
            assert(rest@ == prev_rest.remove(m as int));
            vstd::seq_lib::to_multiset_remove(prev_rest, m as int);
            assert(out@ == prev_out.push(x));
            vstd::seq_lib::to_multiset_build(prev_out, x);
            vstd::seq_lib::to_multiset_contains(prev_rest, x);
            assert(prev_rest.to_multiset().count(x) > 0);
            assert(out@.to_multiset().add(rest@.to_multiset()) =~= prev_out.to_multiset().add(
                prev_rest.to_multiset(),
            ));
            assert forall|a: Project| prev_out.contains(a) implies #[trigger] project_le(a, x) by {
                assert(prev_rest.contains(x));
            }
            lemma_sorted_push(prev_out, x);
            assert forall|a: Project, y: Project|
                out@.contains(a) && rest@.contains(y) implies #[trigger] project_le(a, y) by {
                vstd::seq_lib::to_multiset_contains(rest@, y);
                vstd::seq_lib::to_multiset_contains(prev_rest, y);
                assert(rest@.to_multiset().count(y) > 0);
                assert(prev_rest.to_multiset().count(y) > 0);
                assert(prev_rest.contains(y));
                let k = choose|k: int| 0 <= k < prev_rest.len() && prev_rest[k] == y;
                assert(project_le(prev_rest[m as int], prev_rest[k]));
                let ai = choose|ai: int| 0 <= ai < out@.len() && out@[ai] == a;
                if ai < prev_out.len() {
                    assert(prev_out.contains(a));
                    assert(project_le(a, x));
                    assert(project_le(x, y));
                    lemma_lex_le_ci_trans(a.name@, x.name@, y.name@);
                } else {
                    assert(a == x);
                }
            }
        }
    }
    proof {
        broadcast use vstd::multiset::group_multiset_axioms;

        vstd::seq_lib::to_multiset_len(rest@);
        vstd::multiset::lemma_multiset_empty_len(rest@.to_multiset());
        assert(rest@.to_multiset() =~= Multiset::<Project>::empty());
        assert(out@.to_multiset() =~= projects@.to_multiset());
    }
    out
}

/// Pushing an element no earlier than everything present keeps the
/// sequence sorted.
proof fn lemma_sorted_push(s: Seq<Project>, x: Project)
    requires
        spec_sorted(s),
        forall|a: Project| s.contains(a) ==> #[trigger] project_le(a, x),
    ensures
        spec_sorted(s.push(x)),
{
    let leq = |a: Project, b: Project| project_le(a, b);
    assert forall|i: int, j: int| 0 <= i < j < s.push(x).len() implies leq(
        s.push(x)[i],
        s.push(x)[j],
    ) by {
        if j == s.len() {
            assert(s.contains(s[i]));
        }
    }
}

/// The index of a least project (by display order) in a non-empty vector.
fn min_index(projects: &Vec<Project>) -> (r: usize)
    requires
        projects@.len() > 0,
    ensures
        r < projects@.len(),
        forall|k: int|
            0 <= k < projects@.len() ==> #[trigger] project_le(projects@[r as int], projects@[k]),
{
    let n = projects.len();
    let mut m: usize = 0;
    let mut j: usize = 1;
    proof {
        lemma_lex_le_ci_total(projects@[0].name@, projects@[0].name@);
    }
    while j < n
        invariant
            m < j <= n,
            n == projects@.len(),
            forall|k: int| 0 <= k < j ==> #[trigger] project_le(projects@[m as int], projects@[k]),
        decreases n - j,
    {
        if !le_ignore_case(projects[m].name.as_str(), projects[j].name.as_str()) {
            proof {
                lemma_lex_le_ci_total(projects@[m as int].name@, projects@[j as int].name@);
                assert forall|k: int| 0 <= k < j + 1 implies #[trigger] project_le(
                    projects@[j as int],
                    projects@[k],
                ) by {
                    if k < j {
                        assert(project_le(projects@[m as int], projects@[k]));
                        lemma_lex_le_ci_trans(
                            projects@[j as int].name@,
                            projects@[m as int].name@,
                            projects@[k].name@,
                        );
                    } else {
                        lemma_lex_le_ci_total(projects@[j as int].name@, projects@[j as int].name@);
                    }
                }
            }
            m = j;
        }
        j = j + 1;
    }
    m
}

/// Which projects ended with the wanted outcome, in their given order.
pub open spec fn spec_with_outcome(s: Seq<Project>, outcomes: Seq<bool>, want: bool) -> Seq<
    Project,
>
    decreases s.len(),
{
    if s.len() == 0 || outcomes.len() < s.len() {
        Seq::empty()
    } else {
        let rest = spec_with_outcome(s.drop_last(), outcomes.drop_last(), want);
        if outcomes[s.len() - 1] == want {
            rest.push(s.last())
        } else {
            rest
        }
    }
}

/// Splits projects into those whose operation succeeded and those whose
/// failed, by the per-project outcomes, keeping the given order.
pub fn partition_outcomes(projects: &Vec<Project>, outcomes: &Vec<bool>) -> (r: (
    Vec<Project>,
    Vec<Project>,
))
    requires
        projects@.len() == outcomes@.len(),
    ensures
        r.0@ == spec_with_outcome(projects@, outcomes@, true),
        r.1@ == spec_with_outcome(projects@, outcomes@, false),
{
    let n = projects.len();
    let mut done: Vec<Project> = Vec::new();
    let mut failed: Vec<Project> = Vec::new();
    let mut i: usize = 0;
    proof {
        assert(projects@.take(0) =~= Seq::<Project>::empty());
        assert(outcomes@.take(0) =~= Seq::<bool>::empty());
    }
    while i < n
        invariant
            i <= n,
            n == projects@.len(),
            projects@.len() == outcomes@.len(),
            done@ == spec_with_outcome(projects@.take(i as int), outcomes@.take(i as int), true),
            failed@ == spec_with_outcome(projects@.take(i as int), outcomes@.take(i as int), false),
        decreases n - i,
    {
        proof {
            assert(projects@.take(i as int + 1).drop_last() =~= projects@.take(i as int));
            assert(outcomes@.take(i as int + 1).drop_last() =~= outcomes@.take(i as int));
        }
        if outcomes[i] {
            done.push(projects[i].clone());
        } else {
            failed.push(projects[i].clone());
        }
        i = i + 1;
    }
    proof {
        assert(projects@.take(n as int) =~= projects@);
        assert(outcomes@.take(n as int) =~= outcomes@);
    }
    (done, failed)
}

/// Every project ends in exactly one of the two groups, and no project
/// failed exactly when every outcome is a success.
pub proof fn lemma_partition_complete(s: Seq<Project>, outcomes: Seq<bool>)
    requires
        s.len() == outcomes.len(),
    ensures
        spec_with_outcome(s, outcomes, true).len() + spec_with_outcome(s, outcomes, false).len()
            == s.len(),
        spec_with_outcome(s, outcomes, false).len() == 0 <==> (forall|i: int|
            0 <= i < outcomes.len() ==> outcomes[i]),
    decreases s.len(),
{
    if s.len() > 0 {
        lemma_partition_complete(s.drop_last(), outcomes.drop_last());
        if spec_with_outcome(s, outcomes, false).len() == 0 {
            assert forall|i: int| 0 <= i < outcomes.len() implies outcomes[i] by {
                if i < outcomes.len() - 1 {
                    assert(outcomes.drop_last()[i] == outcomes[i]);
                }
            }
        }
        if forall|i: int| 0 <= i < outcomes.len() ==> outcomes[i] {
            assert(outcomes[s.len() - 1]);
            assert forall|i: int| 0 <= i < outcomes.drop_last().len() implies
                outcomes.drop_last()[i] by {
                assert(outcomes.drop_last()[i] == outcomes[i]);
            }
        }
    }
}

/// The status message a finished clean is reported with: what was (or, in
/// a dry run, would have been) removed, how many projects were discovered,
/// which projects it concerns, and which names were skipped. A dry run
/// reports over every discovered project; a real run over the cleaned
/// ones.
pub open spec fn spec_status_message(
    projects: Seq<Project>,
    cleaned: Seq<Project>,
    dry_run: bool,
    exclude: Option<Seq<char>>,
) -> Seq<char> {
    let title = if dry_run {
        "Would have cleaned "@
    } else {
        "Cleaned "@
    };
    let used = if dry_run {
        projects
    } else {
        cleaned
    };
    title + spec_display(spec_to_size(clamped(spec_total_bytes(used)))) + " ("@
        + crate::text::spec_dec(projects.len() as int) + " Projects)\nProjects: "@
        + crate::text::spec_join_comma(used.map_values(|p: Project| p.name@)) + match exclude {
        None => Seq::<char>::empty(),
        Some(e) => "\n(Skipped: "@ + e + ")"@,
    }
}

/// Builds the status message for a finished clean: how much was removed
/// across which projects, and what was skipped.
pub fn print_status(
    projects: &Vec<Project>,
    cleaned: &Vec<Project>,
    dry_run: bool,
    exclude: Option<&String>,
) -> (r: String)
    ensures
        r@ == spec_status_message(
            projects@,
            cleaned@,
            dry_run,
            match exclude {
                None => None,
                Some(e) => Some(e@),
            },
        ),
{
    let used: &Vec<Project> = if dry_run {
        projects
    } else {
        cleaned
    };
    let total = total_size_of_projects(used);
    let size = Size::to_size(total);
    let mut names: Vec<String> = Vec::new();
    let mut i: usize = 0;
    while i < used.len()
        invariant
            i <= used@.len(),
            names@.len() == i,
            forall|j: int| 0 <= j < i ==> names.deep_view()[j] == #[trigger] used@[j].name@,
        decreases used@.len() - i,
    {
        names.push(used[i].name.clone());
        i = i + 1;
    }
    proof {
        assert(names.deep_view() =~~= used@.map_values(|p: Project| p.name@));
    }
    let mut out = if dry_run {
        "Would have cleaned ".to_owned()
    } else {
        "Cleaned ".to_owned()
    };
    out.append(size.to_display_string().as_str());
    out.append(" (");
    out.append(u64_to_string(projects.len() as u64).as_str());
    out.append(" Projects)\nProjects: ");
    out.append(join_comma(&names).as_str());
    match exclude {
        None => {},
        Some(e) => {
            out.append("\n(Skipped: ");
            out.append(e.as_str());
            out.append(")");
        },
    }
    out
}

/// The aggregate-size line: the total size over every discovered project,
/// and how many there are.
pub open spec fn spec_total_message(projects: Seq<Project>) -> Seq<char> {
    "Total size: "@ + spec_display(spec_to_size(clamped(spec_total_bytes(projects)))) + " ("@
        + crate::text::spec_dec(projects.len() as int) + " Projects)"@
}

/// Builds the aggregate-size report line for the discovered projects.
pub fn total_size_message(projects: &Vec<Project>) -> (r: String)
    ensures
        r@ == spec_total_message(projects@),
{
    let total = total_size_of_projects(projects);
    let mut out = "Total size: ".to_owned();
    out.append(Size::to_size(total).to_display_string().as_str());
    out.append(" (");
    out.append(u64_to_string(projects.len() as u64).as_str());
    out.append(" Projects)");
    out
}

} // verus!
