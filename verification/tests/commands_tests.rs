//! Tests for the bulk-operation engine and the command surface.

use cargo_wash::cli::{Commands, Options, RunPlan};
use cargo_wash::commands::executor::{parallel_jobs, print_execution_time, run as executor_run, split_args};
use cargo_wash::commands::stats::show;
use cargo_wash::commands::{
    clean, filter_excluded, partition_outcomes, print_status, sort_projects,
    total_size_of_projects,
};
use cargo_wash::data::{Language, Project, WashError};
use cargo_wash::utility::{DirSnapshot, FolderTree};

fn project(name: &str, bytes: u64) -> Project {
    let mut path = String::from("/tmp/");
    path.push_str(name);
    Project::new(name, &path, bytes, Language::Rust)
}

fn empty_dir(path: &str) -> DirSnapshot {
    DirSnapshot {
        path: String::from(path),
        has_cargo_manifest: false,
        has_node_manifest: false,
        target: FolderTree::Missing,
        node_modules: FolderTree::Missing,
    }
}

fn rust_dir(path: &str, bytes: u64) -> DirSnapshot {
    DirSnapshot {
        path: String::from(path),
        has_cargo_manifest: true,
        has_node_manifest: false,
        target: FolderTree::Dir { entries: vec![FolderTree::File { len: bytes }] },
        node_modules: FolderTree::Missing,
    }
}

#[test]
fn test_total_size_of_projects() {
    let p1 = Project::new("foo", "/tmp/foo", 1024, Language::Rust);
    let p2 = Project::new("bar", "/tmp/bar", 2048, Language::Rust);
    let projects = vec![p1, p2];
    let total = total_size_of_projects(&projects);
    assert_eq!(total, 1024 + 2048);
}

#[test]
fn total_size_ignores_processing_order() {
    let one_order = vec![project("a", 10), project("b", 20), project("c", 30)];
    let other_order = vec![project("c", 30), project("a", 10), project("b", 20)];
    assert_eq!(total_size_of_projects(&one_order), 60);
    assert_eq!(
        total_size_of_projects(&one_order),
        total_size_of_projects(&other_order)
    );
}

#[test]
fn test_commands() {
    let opts2 = Options { path: String::from("/not_existing"), ..Default::default() };
    let missing_root = empty_dir("/not_existing");
    let no_children: Vec<DirSnapshot> = Vec::new();
    assert!(Commands::Stats(opts2.clone()).run(&missing_root, false, &no_children).is_err());
    assert!(Commands::Clean(opts2).run(&missing_root, false, &no_children).is_err());

    let opts3 = Options { path: String::from("."), ..Default::default() };
    let cwd_root = empty_dir("/home/user/work");
    let plan = Commands::Clean(opts3).run(&cwd_root, true, &no_children).unwrap();
    match plan {
        RunPlan::Clean { projects, dry_run } => {
            assert!(!dry_run);
            let outcomes: Vec<bool> = Vec::new();
            assert_eq!(clean::run(&projects, false, None, &outcomes).unwrap(), 0);
        }
        _ => panic!("clean produced the wrong kind of plan"),
    }
}

#[test]
fn test_run_clean_excluded() {
    let root = empty_dir("/repos");
    let children = vec![rust_dir("/repos/cargo-wash", 4096)];
    let opts = Options { path: String::from("."), ..Default::default() };
    let projects = opts.check_args(&root, true, &children).unwrap();
    assert_eq!(projects.len(), 1);

    let exclude = "cargo-wash, target".to_owned();
    let outcomes: Vec<bool> = Vec::new();
    let result = clean::run(&projects, false, Some(&exclude), &outcomes);
    assert!(result.is_ok(), "Test failed: {:?}", result);
    assert!(*result.as_ref().unwrap() == 0, "Tests failed: {:?}", result);
}

#[test]
fn one_failed_clean_fails_the_whole_operation() {
    let projects = vec![project("a", 1), project("b", 2), project("c", 3)];
    let outcomes = vec![true, false, true];

    let (cleaned, failed) = partition_outcomes(&projects, &outcomes);
    assert_eq!(cleaned.len(), 2);
    assert_eq!(failed.len(), 1);
    assert_eq!(failed[0].name, "b");

    let result = clean::run(&projects, false, None, &outcomes);
    assert_eq!(result.unwrap_err(), WashError::SomeFailed { failed: 1 });
}

#[test]
fn executor_reports_failure_count() {
    let projects = vec![project("a", 1), project("b", 2)];
    let opts = Options::default();
    let ok = executor_run(&projects, &opts, "build", &vec![true, true]);
    assert_eq!(ok.unwrap(), ());
    let bad = executor_run(&projects, &opts, "build", &vec![false, false]);
    assert_eq!(bad.unwrap_err(), WashError::SomeFailed { failed: 2 });
}

#[test]
fn filter_excluded_trims_names() {
    let projects = vec![project("foo", 1), project("bar", 2), project("baz", 3)];
    let exclude = " foo ,\tbar".to_owned();
    let kept = filter_excluded(&projects, Some(&exclude));
    assert_eq!(kept.len(), 1);
    assert_eq!(kept[0].name, "baz");

    let all = filter_excluded(&projects, None);
    assert_eq!(all.len(), 3);
}

#[test]
fn sorts_projects_case_insensitively() {
    let projects = vec![project("banana", 1), project("Apple", 2), project("cherry", 3)];
    let sorted = sort_projects(projects);
    assert_eq!(sorted[0].name, "Apple");
    assert_eq!(sorted[1].name, "banana");
    assert_eq!(sorted[2].name, "cherry");
}

#[test]
fn stats_table_has_header_rows_and_total() {
    let projects = vec![project("zeta", 2048), project("Alpha", 1024)];
    let rows = show(&projects);
    assert_eq!(rows.len(), 4);
    assert_eq!(rows[0], vec!["Project", "Size", "Path"]);
    assert_eq!(rows[1], vec!["Alpha", "1.00 KB", "/tmp/Alpha"]);
    assert_eq!(rows[2], vec!["zeta", "2.00 KB", "/tmp/zeta"]);
    assert_eq!(rows[3], vec!["Total", "3.00 KB", "2 projects"]);
}

#[test]
fn status_message_lists_cleaned_projects() {
    let projects = vec![project("foo", 1024), project("bar", 2048)];
    let cleaned = vec![project("foo", 1024)];
    let exclude = "bar".to_owned();
    let message = print_status(&projects, &cleaned, false, Some(&exclude));
    assert_eq!(
        message,
        "Cleaned 1.00 KB (2 Projects)\nProjects: foo\n(Skipped: bar)"
    );
    let message = print_status(&projects, &projects, false, None);
    assert_eq!(message, "Cleaned 3.00 KB (2 Projects)\nProjects: foo, bar");
    let message = print_status(&projects, &cleaned, true, None);
    assert_eq!(message, "Would have cleaned 3.00 KB (2 Projects)\nProjects: foo, bar");
}

#[test]
fn dry_run_clean_succeeds_without_attempting_anything() {
    let projects = vec![project("a", 1), project("b", 2)];
    let outcomes: Vec<bool> = Vec::new();
    assert_eq!(clean::run(&projects, true, None, &outcomes).unwrap(), 0);
}

#[test]
fn size_command_reports_the_aggregate() {
    let root = empty_dir("/repos");
    let children = vec![rust_dir("/repos/one", 1024), rust_dir("/repos/two", 2048)];
    let opts = Options { path: String::from("."), ..Default::default() };
    let plan = Commands::Size(opts).run(&root, true, &children).unwrap();
    match plan {
        RunPlan::Message { line } => {
            assert_eq!(line, "Total size: 3.00 KB (2 Projects)");
        }
        _ => panic!("size produced the wrong kind of plan"),
    }
}

#[test]
fn options_language_filter_restricts_discovery() {
    let root = empty_dir("/repos");
    let rust = rust_dir("/repos/crate", 64);
    let node = cargo_wash::utility::DirSnapshot {
        path: String::from("/repos/web"),
        has_cargo_manifest: false,
        has_node_manifest: true,
        target: FolderTree::Missing,
        node_modules: FolderTree::Dir { entries: vec![FolderTree::File { len: 640 }] },
    };
    let children = vec![rust, node];
    let opts = Options {
        path: String::from("."),
        language: Some(Language::NodeJS),
        ..Default::default()
    };
    let projects = opts.check_args(&root, true, &children).unwrap();
    assert_eq!(projects.len(), 1);
    assert_eq!(projects[0].name, "web");
    assert_eq!(projects[0].language, Language::NodeJS);
}

#[test]
fn execution_time_breaks_into_units() {
    assert_eq!(print_execution_time(42), "Total execution time: 42s");
    assert_eq!(print_execution_time(75), "Total execution time: 1m 15s");
    assert_eq!(print_execution_time(3661), "Total execution time: 1h 1m 1s");
}

#[test]
fn parallel_jobs_is_a_third_of_cores_at_least_two() {
    assert_eq!(parallel_jobs(1), 2);
    assert_eq!(parallel_jobs(2), 2);
    assert_eq!(parallel_jobs(6), 2);
    assert_eq!(parallel_jobs(9), 3);
    assert_eq!(parallel_jobs(12), 4);
}

#[test]
fn split_args_splits_each_argument_at_spaces() {
    let args = vec!["-j 4".to_owned(), "--verbose".to_owned()];
    assert_eq!(split_args(&args), vec!["-j", "4", "--verbose"]);
}

#[test]
fn to_cargo_command_names_the_subcommand() {
    let build = Commands::Build(Options::default());
    assert_eq!(build.to_cargo_command(), "build");
    let stats = Commands::Stats(Options::default());
    assert_eq!(stats.to_cargo_command(), "none");
    let clean_cmd = Commands::Clean(Options::default());
    assert_eq!(clean_cmd.to_cargo_command(), "none");
    assert_eq!(Commands::Update(Options::default()).to_cargo_command(), "update");
}

#[test]
fn run_plans_an_execute_command() {
    let root = empty_dir("/repos");
    let children = vec![rust_dir("/repos/zed", 10), rust_dir("/repos/abc", 20)];
    let opts = Options {
        path: String::from("."),
        args: vec!["--offline --quiet".to_owned()],
        ..Default::default()
    };
    let plan = Commands::Build(opts).run(&root, true, &children).unwrap();
    match plan {
        RunPlan::Execute { command, projects, args } => {
            assert_eq!(command, "build");
            assert_eq!(projects.len(), 2);
            assert_eq!(projects[0].name, "abc");
            assert_eq!(projects[1].name, "zed");
            assert_eq!(args, vec!["--offline", "--quiet"]);
        }
        _ => panic!("build produced the wrong kind of plan"),
    }
}
