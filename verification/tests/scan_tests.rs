//! Tests for folder sizing, classification, and scanning.

use cargo_wash::cli::scan_projects;
use cargo_wash::data::{Language, Size};
use cargo_wash::utility::{get_folder_size, get_project, DirSnapshot, FolderTree};

fn snapshot(path: &str, rust: bool, node: bool, target: FolderTree, modules: FolderTree) -> DirSnapshot {
    DirSnapshot {
        path: String::from(path),
        has_cargo_manifest: rust,
        has_node_manifest: node,
        target,
        node_modules: modules,
    }
}

#[test]
fn test_get_folder_size() {
    let src = FolderTree::Dir {
        entries: vec![FolderTree::File { len: 120 }, FolderTree::File { len: 30 }],
    };
    let size = get_folder_size(&src);
    assert!(size > 0);
    assert_eq!(size, 150);
}

#[test]
fn folder_size_of_missing_path_is_zero() {
    assert_eq!(get_folder_size(&FolderTree::Missing), 0);
}

#[test]
fn folder_size_sums_nested_directories() {
    let tree = FolderTree::Dir {
        entries: vec![
            FolderTree::File { len: 1024 },
            FolderTree::Dir { entries: vec![FolderTree::File { len: 2048 }] },
        ],
    };
    assert_eq!(get_folder_size(&tree), 3072);
}

#[test]
fn folder_size_saturates_instead_of_overflowing() {
    let tree = FolderTree::Dir {
        entries: vec![
            FolderTree::File { len: u64::MAX },
            FolderTree::File { len: 17 },
        ],
    };
    assert_eq!(get_folder_size(&tree), u64::MAX);
}

#[test]
fn test_check_project() {
    let snap = snapshot(
        "../cargo-wash",
        true,
        false,
        FolderTree::Dir { entries: vec![FolderTree::File { len: 4096 }] },
        FolderTree::Missing,
    );
    let res = get_project(&snap, &Vec::new(), None, false).unwrap().unwrap();
    assert!(res.size > Size::to_size(0));
    assert!(res.name == "cargo-wash");
    assert!(res.path == "../cargo-wash");
}

#[test]
fn classification_errors_on_unnamed_path() {
    let snap = snapshot("/", true, false, FolderTree::Missing, FolderTree::Missing);
    assert!(get_project(&snap, &Vec::new(), None, false).is_err());
}

#[test]
fn classification_skips_unknown_ecosystems() {
    let snap = snapshot(
        "/work/notes",
        false,
        false,
        FolderTree::Dir { entries: vec![FolderTree::File { len: 10 }] },
        FolderTree::Missing,
    );
    assert!(get_project(&snap, &Vec::new(), None, true).unwrap().is_none());
}

#[test]
fn classification_prefers_rust_and_measures_its_artifacts() {
    let snap = snapshot(
        "/work/both",
        true,
        true,
        FolderTree::Dir { entries: vec![FolderTree::File { len: 100 }] },
        FolderTree::Dir { entries: vec![FolderTree::File { len: 999 }] },
    );
    let p = get_project(&snap, &Vec::new(), None, false).unwrap().unwrap();
    assert_eq!(p.language, Language::Rust);
    assert_eq!(p.size.size_in_bytes(), 100);
}

#[test]
fn classification_respects_kind_filter() {
    let node = snapshot(
        "/work/web",
        false,
        true,
        FolderTree::Missing,
        FolderTree::Dir { entries: vec![FolderTree::File { len: 640 }] },
    );
    let p = get_project(&node, &Vec::new(), Some(Language::NodeJS), false).unwrap().unwrap();
    assert_eq!(p.language, Language::NodeJS);
    assert_eq!(p.size.size_in_bytes(), 640);
    assert!(get_project(&node, &Vec::new(), Some(Language::Rust), false).unwrap().is_none());
}

#[test]
fn zero_size_project_invisible_unless_asked_for() {
    let root = snapshot("/work", false, false, FolderTree::Missing, FolderTree::Missing);
    let child = snapshot(
        "/work/fresh",
        true,
        false,
        FolderTree::Dir { entries: vec![FolderTree::File { len: 0 }] },
        FolderTree::Missing,
    );
    let children = vec![child];

    let found = scan_projects(&root, true, &children, &Vec::new(), None, false).unwrap();
    assert!(found.is_empty());

    let found = scan_projects(&root, true, &children, &Vec::new(), None, true).unwrap();
    assert_eq!(found.len(), 1);
    assert_eq!(found[0].name, "fresh");
    assert_eq!(found[0].size.size_in_bytes(), 0);
}

#[test]
fn scan_rejects_non_directory_root() {
    let root = snapshot("/not_existing", false, false, FolderTree::Missing, FolderTree::Missing);
    let err = scan_projects(&root, false, &Vec::new(), &Vec::new(), None, false).unwrap_err();
    assert_eq!(err, cargo_wash::data::WashError::NotADirectory);
}

#[test]
fn excluded_name_never_discovered_despite_kind_filter() {
    let root = snapshot("/work", false, false, FolderTree::Missing, FolderTree::Missing);
    let wanted = snapshot(
        "/work/keeper",
        true,
        false,
        FolderTree::Dir { entries: vec![FolderTree::File { len: 7 }] },
        FolderTree::Missing,
    );
    let unwanted = snapshot(
        "/work/skipme",
        true,
        false,
        FolderTree::Dir { entries: vec![FolderTree::File { len: 9 }] },
        FolderTree::Missing,
    );
    let children = vec![wanted, unwanted];
    let exclude = vec![String::from("skipme")];

    let found =
        scan_projects(&root, true, &children, &exclude, Some(Language::Rust), false).unwrap();
    assert_eq!(found.len(), 1);
    assert_eq!(found[0].name, "keeper");
}

#[test]
fn scan_includes_the_root_itself() {
    let root = snapshot(
        "/work/toplevel",
        true,
        false,
        FolderTree::Dir { entries: vec![FolderTree::File { len: 11 }] },
        FolderTree::Missing,
    );
    let found = scan_projects(&root, true, &Vec::new(), &Vec::new(), None, false).unwrap();
    assert_eq!(found.len(), 1);
    assert_eq!(found[0].name, "toplevel");
}
