//! Filesystem-facing logic, computed over explicit values: folder sizes
//! over a directory-tree value, path sanitizing against a given working
//! directory, and project classification from a directory snapshot.

use vstd::prelude::*;

use crate::data::{spec_to_size, Language, Project, Size, WashError};
use crate::extensions::{spec_get_name, PathBufExt};
use crate::text::{path_segment_bounds, str_eq, suffix_after_last_slash, trim_trailing_slashes};

verus! {

/// What a path points at on disk, as far as sizing is concerned: nothing,
/// a file of a known length, or a directory of further entries.
pub enum FolderTree {
    Missing,
    File { len: u64 },
    Dir { entries: Vec<FolderTree> },
}

/// The total number of bytes held in files under this tree.
pub open spec fn size_of(t: FolderTree) -> nat
    decreases t,
{
    match t {
        FolderTree::Missing => 0,
        FolderTree::File { len } => len as nat,
        FolderTree::Dir { entries } => size_of_entries(entries@, 0),
    }
}

/// The bytes held in `s[from..]`.
pub open spec fn size_of_entries(s: Seq<FolderTree>, from: int) -> nat
    decreases s, s.len() - from,
{
    if from < 0 || from >= s.len() {
        0
    } else {
        size_of(s[from]) + size_of_entries(s, from + 1)
    }
}

/// A total capped at what a `u64` can hold.
pub open spec fn clamped(n: nat) -> u64 {
    if n > u64::MAX {
        u64::MAX
    } else {
        n as u64
    }
}

/// Recursively calculates the size of a folder: a missing path counts as
/// zero, never an error; files add their length; directories add the sizes
/// of their entries. A sum beyond `u64::MAX` saturates.
pub fn get_folder_size(dir: &FolderTree) -> (r: u64)
    ensures
        r == clamped(size_of(*dir)),
    decreases *dir,
{
    match dir {
        FolderTree::Missing => 0,
        FolderTree::File { len } => *len,
        FolderTree::Dir { entries } => {
            let mut total: u64 = 0;
            let n = entries.len();
            let mut i: usize = 0;
            while i < n
                invariant
                    i <= n,
                    n == entries@.len(),
                    dir is Dir && *entries == dir->Dir_entries,
                    size_of_entries(entries@, i as int) <= size_of_entries(entries@, 0),
                    total == clamped((size_of_entries(entries@, 0) - size_of_entries(
                        entries@,
                        i as int,
                    )) as nat),
                decreases n - i,
            {
                proof {
                    lemma_entries_prefix(entries@, i as int);
                    assert(decreases_to!(*dir => entries@[i as int]));
                }
                let part = get_folder_size(&entries[i]);
                total = total.saturating_add(part);
                i = i + 1;
            }
            total
        },
    }
}

/// The suffix sum shrinks by exactly the element passed.
proof fn lemma_entries_prefix(s: Seq<FolderTree>, i: int)
    requires
        0 <= i < s.len(),
    ensures
        size_of_entries(s, i) == size_of(s[i]) + size_of_entries(s, i + 1),
        size_of_entries(s, i) >= size_of_entries(s, i + 1),
{
}

/// The parent of a path: the path without its final segment, trailing
/// slashes ignored. A path reduced to slashes alone, or to nothing, has no
/// parent; a single relative segment has none either.
pub open spec fn spec_parent(path: Seq<char>) -> Option<Seq<char>> {
    let trimmed = trim_trailing_slashes(path);
    let name = suffix_after_last_slash(trimmed);
    if trimmed.len() == 0 {
        None
    } else {
        let body = trimmed.take(trimmed.len() - name.len());
        let parent = trim_trailing_slashes(body);
        if parent.len() == 0 {
            if body.len() > 0 {
                Some(seq!['/'])
            } else {
                None
            }
        } else {
            Some(parent)
        }
    }
}

/// The parent directory of a path, as `spec_parent` describes it.
pub fn parent_of(path: &str) -> (r: Option<String>)
    ensures
        match r {
            Some(p) => spec_parent(path@) == Some(p@),
            None => spec_parent(path@) is None,
        },
{
    let (end, start) = path_segment_bounds(path);
    if end == 0 {
        return None;
    }
    let body = path.substring_char(0, start);
    proof {
        assert(trim_trailing_slashes(path@).take(
            trim_trailing_slashes(path@).len() - suffix_after_last_slash(
                trim_trailing_slashes(path@),
            ).len(),
        ) =~= body@);
    }
    let (end2, _) = path_segment_bounds(body);
    if end2 == 0 {
        if start > 0 {
            proof {
                reveal_strlit("/");
                assert("/"@ =~= seq!['/']);
            }
            Some("/".to_owned())
        } else {
            None
        }
    } else {
        Some(body.substring_char(0, end2).to_owned())
    }
}

/// Resolves the user-supplied root path against the current working
/// directory: `.` and `/` mean the working directory itself, `..` its
/// parent, and anything else is taken as given.
pub fn sanitize_path_input(dir: &str, current_dir: &str) -> (r: Result<String, WashError>)
    ensures
        match r {
            Ok(p) => {
                if dir@ == seq!['/'] || dir@ == seq!['.'] {
                    p@ == current_dir@
                } else if dir@ == seq!['.', '.'] {
                    spec_parent(current_dir@) == Some(p@)
                } else {
                    p@ == dir@
                }
            },
            Err(e) => {
                &&& dir@ == seq!['.', '.']
                &&& spec_parent(current_dir@) is None
                &&& e == WashError::NoParentDirectory
            },
        },
{
    proof {
        reveal_strlit("/");
        reveal_strlit(".");
        reveal_strlit("..");
        assert("/"@ =~= seq!['/']);
        assert("."@ =~= seq!['.']);
        assert(".."@ =~= seq!['.', '.']);
    }
    if str_eq(dir, "/") || str_eq(dir, ".") {
        Ok(current_dir.to_owned())
    } else if str_eq(dir, "..") {
        match parent_of(current_dir) {
            Some(p) => Ok(p),
            None => Err(WashError::NoParentDirectory),
        }
    } else {
        Ok(dir.to_owned())
    }
}

/// What classification reads of a single directory: its path, whether each
/// ecosystem's marker file is present, and the contents of each
/// ecosystem's artifact subdirectory.
pub struct DirSnapshot {
    /// The directory's path.
    pub path: String,
    /// Whether the directory holds a `Cargo.toml`.
    pub has_cargo_manifest: bool,
    /// Whether the directory holds a `package.json`.
    pub has_node_manifest: bool,
    /// The directory's `target` subdirectory.
    pub target: FolderTree,
    /// The directory's `node_modules` subdirectory.
    pub node_modules: FolderTree,
}

/// The ecosystem a directory belongs to, by marker file, Rust first.
pub open spec fn spec_detect_language(d: DirSnapshot) -> Language {
    if d.has_cargo_manifest {
        Language::Rust
    } else if d.has_node_manifest {
        Language::NodeJS
    } else {
        Language::Other
    }
}

/// The measured size of the directory's artifact subdirectory for its
/// detected ecosystem.
pub open spec fn spec_artifact_bytes(d: DirSnapshot) -> u64 {
    match spec_detect_language(d) {
        Language::Rust => clamped(size_of(d.target)),
        Language::NodeJS => clamped(size_of(d.node_modules)),
        Language::Other => 0,
    }
}

/// Whether classification surfaces the directory as a project: its name is
/// not excluded, it passes the ecosystem filter, it belongs to a known
/// ecosystem, and it has built artifacts (unless empty projects are asked
/// for).
pub open spec fn spec_project_visible(
    d: DirSnapshot,
    exclude: Seq<Seq<char>>,
    language: Option<Language>,
    include_empty: bool,
) -> bool
    recommends
        spec_get_name(d.path@) is Some,
{
    &&& !exclude.contains(spec_get_name(d.path@)->0)
    &&& (language is None || language == Some(spec_detect_language(d)))
    &&& spec_detect_language(d) != Language::Other
    &&& (include_empty || spec_artifact_bytes(d) > 0)
}

/// Whether a project record is exactly what classifying the directory
/// yields.
pub open spec fn project_matches(p: Project, d: DirSnapshot) -> bool {
    &&& Some(p.name@) == spec_get_name(d.path@)
    &&& p.path@ == d.path@
    &&& p.size == spec_to_size(spec_artifact_bytes(d))
    &&& p.language == spec_detect_language(d)
}

/// Classifies one directory. Fails only when the path has no final segment
/// to name the project by. Returns `None` for a directory that is excluded
/// by name, filtered out, of no known ecosystem, or (unless
/// `include_empty`) without built artifacts; otherwise returns the project
/// with its measured artifact size.
///
/// Exclusion is by exact project name.
pub fn get_project(
    snapshot: &DirSnapshot,
    exclude: &Vec<String>,
    language: Option<Language>,
    include_empty: bool,
) -> (r: Result<Option<Project>, WashError>)
    ensures
        match r {
            Err(e) => spec_get_name(snapshot.path@) is None && e == WashError::NameError,
            Ok(o) => spec_get_name(snapshot.path@) is Some && match o {
                None => !spec_project_visible(
                    *snapshot,
                    exclude.deep_view(),
                    language,
                    include_empty,
                ),
                Some(p) => spec_project_visible(
                    *snapshot,
                    exclude.deep_view(),
                    language,
                    include_empty,
                ) && project_matches(p, *snapshot),
            },
        },
{
    let name = match snapshot.path.get_name() {
        Ok(name) => name,
        Err(e) => {
            return Err(e);
        },
    };
    if contains_string(exclude, &name) {
        return Ok(None);
    }
    let detected = if snapshot.has_cargo_manifest {
        Language::Rust
    } else if snapshot.has_node_manifest {
        Language::NodeJS
    } else {
        Language::Other
    };
    match language {
        Some(wanted) => {
            if wanted != detected {
                return Ok(None);
            }
        },
        None => {},
    }
    if detected == Language::Other {
        return Ok(None);
    }
    let bytes = match detected {
        Language::Rust => get_folder_size(&snapshot.target),
        Language::NodeJS => get_folder_size(&snapshot.node_modules),
        Language::Other => 0,
    };
    if bytes == 0 && !include_empty {
        return Ok(None);
    }
    Ok(Some(Project::new(name.as_str(), snapshot.path.as_str(), bytes, detected)))
}

/// Whether the vector holds a string with exactly these characters.
pub fn contains_string(haystack: &Vec<String>, needle: &String) -> (r: bool)
    ensures
        r == haystack.deep_view().contains(needle@),
{
    let n = haystack.len();
    let mut i: usize = 0;
    while i < n
        invariant
            i <= n,
            n == haystack@.len(),
            forall|j: int| 0 <= j < i ==> haystack.deep_view()[j] != needle@,
        decreases n - i,
    {
        if haystack[i] == *needle {
            proof {
                assert(haystack.deep_view()[i as int] == needle@);
            }
            return true;
        }
        i = i + 1;
    }
    proof {
        assert(forall|j: int|
            0 <= j < haystack.deep_view().len() ==> haystack.deep_view()[j] != needle@);
    }
    false
}

} // verus!
