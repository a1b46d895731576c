//! Building the statistics table: one row per project in display order,
//! and a totals row.

use vstd::prelude::*;

use crate::commands::{sort_projects, spec_sorted, spec_total_bytes, total_size_of_projects};
use crate::data::{spec_display, spec_to_size, Project, Size};
use crate::text::{spec_dec, u64_to_string};
use crate::utility::clamped;

verus! {

/// The table's header row.
pub open spec fn spec_stats_header() -> Seq<Seq<char>> {
    seq!["Project"@, "Size"@, "Path"@]
}

/// A project's table row: its name, its displayed size, its path.
pub open spec fn spec_stats_row(p: Project) -> Seq<Seq<char>> {
    seq![p.name@, spec_display(p.size), p.path@]
}

/// The closing row: the total size over all projects, and how many there
/// are.
pub open spec fn spec_total_row(projects: Seq<Project>) -> Seq<Seq<char>> {
    seq![
        "Total"@,
        spec_display(spec_to_size(clamped(spec_total_bytes(projects)))),
        spec_dec(projects.len() as int) + " projects"@,
    ]
}

/// Whether `ss` is the projects in display order and `rows` holds one
/// table row per project of `ss`, after the header.
pub open spec fn sorted_rows_match(
    ss: Seq<Project>,
    projects: Seq<Project>,
    rows: Seq<Seq<Seq<char>>>,
) -> bool {
    &&& ss.to_multiset() == projects.to_multiset()
    &&& spec_sorted(ss)
    &&& ss.len() == projects.len()
    &&& forall|i: int| 0 <= i < ss.len() ==> rows[i + 1] == spec_stats_row(ss[i])
}

/// What the statistics table holds: a header, one row per project in
/// display order, and the totals row.
pub open spec fn stats_rows_ok(rows: Seq<Seq<Seq<char>>>, projects: Seq<Project>) -> bool {
    &&& rows.len() == projects.len() + 2
    &&& rows.first() == spec_stats_header()
    &&& rows.last() == spec_total_row(projects)
    &&& exists|ss: Seq<Project>| sorted_rows_match(ss, projects, rows)
}

/// Builds the statistics table for the given projects: a header row, one
/// row per project sorted by name (case-insensitively), and a totals row.
pub fn show(projects: &Vec<Project>) -> (r: Vec<Vec<String>>)
    ensures
        stats_rows_ok(r.deep_view(), projects@),
{
    let mut rows: Vec<Vec<String>> = Vec::new();
    let mut header: Vec<String> = Vec::new();
    header.push("Project".to_owned());
    header.push("Size".to_owned());
    header.push("Path".to_owned());
    proof {
        assert(header.deep_view() =~~= spec_stats_header());
    }
    rows.push(header);
    let copy = projects.clone();
    proof {
        assert forall|k: int| 0 <= k < projects@.len() implies copy@[k] == projects@[k] by {
            assert(cloned::<Project>(projects@[k], copy@[k]));
        }
        assert(copy@ =~= projects@);
    }
    let sorted = sort_projects(copy);
    proof {
        vstd::seq_lib::to_multiset_len(sorted@);
        vstd::seq_lib::to_multiset_len(projects@);
        assert(sorted@.len() == projects@.len());
    }
    let n = sorted.len();
    let mut i: usize = 0;
    while i < n
        invariant
            i <= n,
            n == sorted@.len(),
            rows@.len() == i + 1,
            rows.deep_view()[0] == spec_stats_header(),
            forall|k: int| 0 <= k < i ==> rows.deep_view()[k + 1] == spec_stats_row(
                #[trigger] sorted@[k],
            ),
        decreases n - i,
    {
        let mut row: Vec<String> = Vec::new();
        row.push(sorted[i].name.clone());
        row.push(sorted[i].size.to_display_string());
        row.push(sorted[i].path.clone());
        proof {
            assert(row.deep_view() =~~= spec_stats_row(sorted@[i as int]));
        }
        rows.push(row);
        i = i + 1;
    }
    let total = total_size_of_projects(projects);
    let mut total_row: Vec<String> = Vec::new();
    total_row.push("Total".to_owned());
    total_row.push(Size::to_size(total).to_display_string());
    let mut count = u64_to_string(projects.len() as u64);
    count.append(" projects");
    total_row.push(count);
    proof {
        assert(total_row.deep_view() =~~= spec_total_row(projects@));
    }
    rows.push(total_row);
    proof {
        assert(rows.deep_view().first() == spec_stats_header());
        assert(rows.deep_view().last() =~~= spec_total_row(projects@));
        assert(sorted_rows_match(sorted@, projects@, rows.deep_view()));
    }
    rows
}

} // verus!
