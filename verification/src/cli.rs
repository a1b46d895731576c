//! The command surface: the options every command shares, the commands
//! themselves, and turning a command plus a scanned directory into a plan
//! of what to do.

use vstd::prelude::*;

use crate::commands::{
    filter_excluded, sort_projects, spec_excl_owned, spec_filter_excluded, spec_sorted,
};
use crate::commands::executor::{spec_split_args, split_args};
use crate::commands::stats::{show, stats_rows_ok};
use crate::data::{Language, Project, WashError};
use crate::extensions::spec_get_name;
use crate::utility::{get_project, project_matches, spec_project_visible, DirSnapshot};

verus! {

/// The options every command takes: where to scan, which project names to
/// leave alone, whether to run projects in parallel, and extra arguments
/// for the spawned command.
#[derive(Clone)]
pub struct Options {
    /// The directory the search for projects starts from.
    pub path: String,
    /// A comma-separated list of project names to exclude.
    pub exclude: Option<String>,
    /// Restricts discovery and operations to one ecosystem.
    pub language: Option<Language>,
    /// Whether destructive operations are only simulated.
    pub dry_run: bool,
    /// Whether to process projects in parallel.
    pub parallel: bool,
    /// Extra arguments handed to the spawned command.
    pub args: Vec<String>,
}

impl Default for Options {
    /// An empty path, no exclusions, no ecosystem filter, a real
    /// (non-dry) sequential run, no extra arguments.
    fn default() -> (r: Self)
        ensures
            r.path@ == Seq::<char>::empty(),
            r.exclude is None,
            r.language is None,
            !r.dry_run,
            !r.parallel,
            r.args@.len() == 0,
    {
        Options {
            path: String::new(),
            exclude: None,
            language: None,
            dry_run: false,
            parallel: false,
            args: Vec::new(),
        }
    }
}

/// The fields shared between option structs.
pub trait CommonOptions {
    /// The root path, at the specification level.
    spec fn spec_path(&self) -> Seq<char>;

    /// The exclusion string, at the specification level.
    spec fn spec_exclude(&self) -> Option<Seq<char>>;

    /// The root path the scan starts from.
    fn path(&self) -> (r: &String)
        ensures
            r@ == self.spec_path(),
    ;

    /// The exclusion string, if one was given.
    fn exclude(&self) -> (r: Option<&String>)
        ensures
            match r {
                Some(e) => self.spec_exclude() == Some(e@),
                None => self.spec_exclude() is None,
            },
    ;
}

impl CommonOptions for Options {
    open spec fn spec_path(&self) -> Seq<char> {
        self.path@
    }

    open spec fn spec_exclude(&self) -> Option<Seq<char>> {
        match self.exclude {
            None => None,
            Some(e) => Some(e@),
        }
    }

    fn path(&self) -> (r: &String) {
        &self.path
    }

    fn exclude(&self) -> (r: Option<&String>) {
        self.exclude.as_ref()
    }
}

/// Whether a scanned child directory is surfaced as a project.
pub open spec fn spec_child_kept(
    d: DirSnapshot,
    excl: Seq<Seq<char>>,
    language: Option<Language>,
    include_empty: bool,
) -> bool {
    spec_get_name(d.path@) is Some && spec_project_visible(d, excl, language, include_empty)
}

/// The child directories that are surfaced, in scan order.
pub open spec fn spec_kept_children(
    children: Seq<DirSnapshot>,
    excl: Seq<Seq<char>>,
    language: Option<Language>,
    include_empty: bool,
) -> Seq<DirSnapshot> {
    children.filter(|d: DirSnapshot| spec_child_kept(d, excl, language, include_empty))
}

/// How the kept children grow when one more child is scanned.
proof fn lemma_kept_children_push(
    s: Seq<DirSnapshot>,
    excl: Seq<Seq<char>>,
    language: Option<Language>,
    include_empty: bool,
    x: DirSnapshot,
)
    ensures
        spec_kept_children(s.push(x), excl, language, include_empty) == if spec_child_kept(
            x,
            excl,
            language,
            include_empty,
        ) {
            spec_kept_children(s, excl, language, include_empty).push(x)
        } else {
            spec_kept_children(s, excl, language, include_empty)
        },
{
    reveal_with_fuel(Seq::<_>::filter, 2);
    assert(s.push(x).drop_last() =~= s);
    assert(s.push(x).last() == x);
}

/// What a successful scan returns: the root's own project first when the
/// root itself is surfaced, then one project per kept child, in order,
/// each exactly as classification yields it.
pub open spec fn spec_scan_ok(
    ps: Seq<Project>,
    root: DirSnapshot,
    children: Seq<DirSnapshot>,
    excl: Seq<Seq<char>>,
    language: Option<Language>,
    include_empty: bool,
) -> bool {
    let kept = spec_kept_children(children, excl, language, include_empty);
    let root_in = spec_project_visible(root, excl, language, include_empty);
    let off: int = if root_in {
        1
    } else {
        0
    };
    &&& ps.len() == off + kept.len()
    &&& (root_in ==> project_matches(ps[0], root))
    &&& forall|i: int| 0 <= i < kept.len() ==> project_matches(ps[off + i], #[trigger] kept[i])
}

/// Scans a root directory for projects: classifies the root itself, then
/// each of its child directories. Fails when the root is not a directory,
/// or when the root's path has no final segment; a child that cannot be
/// classified is skipped.
pub fn scan_projects(
    root: &DirSnapshot,
    root_is_dir: bool,
    children: &Vec<DirSnapshot>,
    exclude: &Vec<String>,
    language: Option<Language>,
    include_empty: bool,
) -> (r: Result<Vec<Project>, WashError>)
    ensures
        ({
            let excl = exclude.deep_view();
            if !root_is_dir {
                r == Err::<Vec<Project>, WashError>(WashError::NotADirectory)
            } else if spec_get_name(root.path@) is None {
                r == Err::<Vec<Project>, WashError>(WashError::NameError)
            } else {
                r is Ok && spec_scan_ok(
                    r->Ok_0@,
                    *root,
                    children@,
                    excl,
                    language,
                    include_empty,
                )
            }
        }),
{
    let ghost excl = exclude.deep_view();
    if !root_is_dir {
        return Err(WashError::NotADirectory);
    }
    let mut out: Vec<Project> = Vec::new();
    match get_project(root, exclude, language, include_empty) {
        Err(e) => {
            return Err(e);
        },
        Ok(Some(p)) => {
            out.push(p);
        },
        Ok(None) => {},
    }
    let ghost off: int = out@.len() as int;
    let n = children.len();
    let mut i: usize = 0;
    proof {
        assert(children@.take(0) =~= Seq::<DirSnapshot>::empty());
        assert(spec_kept_children(children@.take(0), excl, language, include_empty) =~= Seq::<
            DirSnapshot,
        >::empty());
    }
    while i < n
        invariant
            i <= n,
            n == children@.len(),
            excl == exclude.deep_view(),
            off == if spec_project_visible(*root, excl, language, include_empty) {
                1int
            } else {
                0int
            },
            spec_get_name(root.path@) is Some,
            off == 1 ==> project_matches(out@[0], *root),
            out@.len() == off + spec_kept_children(
                children@.take(i as int),
                excl,
                language,
                include_empty,
            ).len(),
            forall|k: int|
                0 <= k < spec_kept_children(
                    children@.take(i as int),
                    excl,
                    language,
                    include_empty,
                ).len() ==> project_matches(
                    out@[off + k],
                    #[trigger] spec_kept_children(
                        children@.take(i as int),
                        excl,
                        language,
                        include_empty,
                    )[k],
                ),
        decreases n - i,
    {
        proof {
            assert(children@.take(i as int + 1) =~= children@.take(i as int).push(
                children@[i as int],
            ));
            lemma_kept_children_push(
                children@.take(i as int),
                excl,
                language,
                include_empty,
                children@[i as int],
            );
        }
        match get_project(&children[i], exclude, language, include_empty) {
            Ok(Some(p)) => {
                out.push(p);
            },
            Ok(None) => {},
            Err(_) => {},
        }
        i = i + 1;
    }
    proof {
        assert(children@.take(n as int) =~= children@);
    }
    Ok(out)
}

impl Options {
    /// Scans for projects with these options: the exclusion list is the
    /// comma-separated, trimmed names of `exclude`; the ecosystem filter
    /// is `language`; projects without built artifacts stay invisible.
    pub fn check_args(
        &self,
        root: &DirSnapshot,
        root_is_dir: bool,
        children: &Vec<DirSnapshot>,
    ) -> (r: Result<Vec<Project>, WashError>)
        ensures
            ({
                let excl = spec_excl_owned(self.exclude);
                if !root_is_dir {
                    r == Err::<Vec<Project>, WashError>(WashError::NotADirectory)
                } else if spec_get_name(root.path@) is None {
                    r == Err::<Vec<Project>, WashError>(WashError::NameError)
                } else {
                    r is Ok && spec_scan_ok(r->Ok_0@, *root, children@, excl, self.language, false)
                }
            }),
    {
        let names: Vec<String> = match self.exclude.as_ref() {
            Some(e) => {
                let v = crate::commands::parse_exclude_list(e.as_str());
                proof {
                    assert(v.deep_view() =~~= spec_excl_owned(self.exclude));
                }
                v
            },
            None => {
                let v: Vec<String> = Vec::new();
                proof {
                    assert(v.deep_view() =~~= spec_excl_owned(self.exclude));
                }
                v
            },
        };
        scan_projects(root, root_is_dir, children, &names, self.language, false)
    }
}

/// Excluding a project by exact name removes it from discovery: whatever
/// a successful scan returns, and whatever ecosystem filter was in force,
/// no returned project carries an excluded name.
pub proof fn lemma_excluded_project_invisible(
    ps: Seq<Project>,
    root: DirSnapshot,
    children: Seq<DirSnapshot>,
    excl: Seq<Seq<char>>,
    language: Option<Language>,
    include_empty: bool,
    name: Seq<char>,
)
    requires
        spec_scan_ok(ps, root, children, excl, language, include_empty),
        excl.contains(name),
    ensures
        forall|i: int| 0 <= i < ps.len() ==> (#[trigger] ps[i]).name@ != name,
{
    let kept = spec_kept_children(children, excl, language, include_empty);
    let root_in = spec_project_visible(root, excl, language, include_empty);
    let off: int = if root_in {
        1
    } else {
        0
    };
    broadcast use vstd::seq_lib::group_filter_ensures;

    assert forall|i: int| 0 <= i < ps.len() implies (#[trigger] ps[i]).name@ != name by {
        if root_in && i == 0 {
            assert(project_matches(ps[0], root));
        } else {
            assert(project_matches(ps[off + (i - off)], kept[i - off]));
            assert(spec_child_kept(kept[i - off], excl, language, include_empty));
        }
    }
}

/// What the caller is to do next for a command: print a report, clean the
/// listed projects, or run a subcommand over the listed projects.
pub enum RunPlan {
    /// Print this table.
    Report { rows: Vec<Vec<String>> },
    /// Print this line.
    Message { line: String },
    /// Run the build tool's clean on each of these projects; in a dry run
    /// only say so, without side effects.
    Clean { projects: Vec<Project>, dry_run: bool },
    /// Run this subcommand, with these extra arguments, on each of these
    /// projects, in this order.
    Execute { command: String, projects: Vec<Project>, args: Vec<String> },
}

/// The available commands.
pub enum Commands {
    /// Print statistics about all projects in the directory.
    Stats(Options),
    /// Calculate the total size of all artifact folders in the directory.
    Size(Options),
    /// Execute the build subcommand on all projects in the directory.
    Build(Options),
    /// Execute the check subcommand on all projects in the directory.
    Check(Options),
    /// Execute the doc subcommand on all projects in the directory.
    Doc(Options),
    /// Clean the artifact folders of all projects in the directory.
    Clean(Options),
    /// Execute the run subcommand on all projects in the directory.
    Run(Options),
    /// Execute the test subcommand on all projects in the directory.
    Test(Options),
    /// Execute the bench subcommand on all projects in the directory.
    Bench(Options),
    /// Execute the update subcommand on all projects in the directory.
    Update(Options),
}

impl Commands {
    /// The options the command carries.
    pub open spec fn spec_opts(&self) -> Options {
        match self {
            Commands::Stats(opts) => *opts,
            Commands::Size(opts) => *opts,
            Commands::Build(opts) => *opts,
            Commands::Check(opts) => *opts,
            Commands::Doc(opts) => *opts,
            Commands::Clean(opts) => *opts,
            Commands::Run(opts) => *opts,
            Commands::Test(opts) => *opts,
            Commands::Bench(opts) => *opts,
            Commands::Update(opts) => *opts,
        }
    }

    /// The options the command carries.
    pub fn opts(&self) -> (r: &Options)
        ensures
            *r == self.spec_opts(),
    {
        match self {
            Commands::Stats(opts) => opts,
            Commands::Size(opts) => opts,
            Commands::Build(opts) => opts,
            Commands::Check(opts) => opts,
            Commands::Doc(opts) => opts,
            Commands::Clean(opts) => opts,
            Commands::Run(opts) => opts,
            Commands::Test(opts) => opts,
            Commands::Bench(opts) => opts,
            Commands::Update(opts) => opts,
        }
    }

    /// The build tool subcommand the command forwards to; `none` for the
    /// commands that do not forward one.
    pub open spec fn spec_cargo_command(&self) -> Seq<char> {
        match self {
            Commands::Build(_) => "build"@,
            Commands::Check(_) => "check"@,
            Commands::Doc(_) => "doc"@,
            Commands::Run(_) => "run"@,
            Commands::Test(_) => "test"@,
            Commands::Bench(_) => "bench"@,
            Commands::Update(_) => "update"@,
            Commands::Stats(_) => "none"@,
            Commands::Size(_) => "none"@,
            Commands::Clean(_) => "none"@,
        }
    }

    /// The build tool subcommand the command forwards to.
    pub fn to_cargo_command(&self) -> (r: &'static str)
        ensures
            r@ == self.spec_cargo_command(),
    {
        match self {
            Commands::Build(_) => "build",
            Commands::Check(_) => "check",
            Commands::Doc(_) => "doc",
            Commands::Run(_) => "run",
            Commands::Test(_) => "test",
            Commands::Bench(_) => "bench",
            Commands::Update(_) => "update",
            Commands::Stats(_) => "none",
            Commands::Size(_) => "none",
            Commands::Clean(_) => "none",
        }
    }
}

/// What the plan a command yields must hold, given the scanned projects.
pub open spec fn spec_plan_ok(
    plan: RunPlan,
    cmd: Commands,
    ps: Seq<Project>,
    excl: Seq<Seq<char>>,
) -> bool {
    match cmd {
        Commands::Stats(_) => plan matches RunPlan::Report { rows } && stats_rows_ok(
            rows.deep_view(),
            ps,
        ),
        Commands::Size(_) => plan matches RunPlan::Message { line } && line@
            == crate::commands::spec_total_message(ps),
        Commands::Clean(opts) => plan matches RunPlan::Clean { projects, dry_run } && projects@
            == spec_filter_excluded(ps, excl) && dry_run == opts.dry_run,
        _ => plan matches RunPlan::Execute { command, projects, args } && {
            &&& command@ == cmd.spec_cargo_command()
            &&& projects@.to_multiset() == spec_filter_excluded(ps, excl).to_multiset()
            &&& spec_sorted(projects@)
            &&& args.deep_view() == spec_split_args(cmd.spec_opts().args.deep_view())
        },
    }
}

impl Commands {
    /// Decides what is to be done for this command against the scanned
    /// directory: the statistics table for `Stats`; the aggregate-size
    /// line for `Size`; for `Clean`, the non-excluded projects and
    /// whether this is a dry run; for every other command, the build tool
    /// subcommand to forward, the non-excluded projects in display order,
    /// and the extra arguments split into words.
    pub fn run(&self, root: &DirSnapshot, root_is_dir: bool, children: &Vec<DirSnapshot>) -> (r:
        Result<RunPlan, WashError>)
        ensures
            ({
                let excl = spec_excl_owned(self.spec_opts().exclude);
                if !root_is_dir {
                    r == Err::<RunPlan, WashError>(WashError::NotADirectory)
                } else if spec_get_name(root.path@) is None {
                    r == Err::<RunPlan, WashError>(WashError::NameError)
                } else {
                    r is Ok && exists|ps: Seq<Project>|
                        #[trigger] spec_scan_ok(
                            ps,
                            *root,
                            children@,
                            excl,
                            self.spec_opts().language,
                            false,
                        ) && spec_plan_ok(r->Ok_0, *self, ps, excl)
                }
            }),
    {
        let projects = match self.opts().check_args(root, root_is_dir, children) {
            Ok(projects) => projects,
            Err(e) => {
                return Err(e);
            },
        };
        let ghost ps = projects@;
        match self {
            Commands::Stats(_) => {
                let rows = show(&projects);
                Ok(RunPlan::Report { rows })
            },
            Commands::Size(_) => {
                let line = crate::commands::total_size_message(&projects);
                Ok(RunPlan::Message { line })
            },
            Commands::Clean(opts) => {
                let excl_ref = opts.exclude.as_ref();
                let kept = filter_excluded(&projects, excl_ref);
                proof {
                    assert(crate::commands::spec_excl_of(excl_ref) =~~= spec_excl_owned(
                        self.spec_opts().exclude,
                    ));
                }
                Ok(RunPlan::Clean { projects: kept, dry_run: opts.dry_run })
            },
            _ => {
                let opts = self.opts();
                let excl_ref = opts.exclude.as_ref();
                let kept = filter_excluded(&projects, excl_ref);
                proof {
                    assert(crate::commands::spec_excl_of(excl_ref) =~~= spec_excl_owned(
                        self.spec_opts().exclude,
                    ));
                }
                let sorted = sort_projects(kept);
                let args = split_args(&opts.args);
                let command = self.to_cargo_command().to_owned();
                Ok(RunPlan::Execute { command, projects: sorted, args })
            },
        }
    }
}

} // verus!
