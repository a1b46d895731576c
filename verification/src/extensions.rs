//! Extension trait for path strings: deriving a file or directory name
//! from a path's final segment.

use vstd::prelude::*;

use crate::data::WashError;
use crate::text::{path_segment_bounds, str_eq, suffix_after_last_slash, trim_trailing_slashes};

verus! {

/// The name a path names: its final `/`-separated segment, with trailing
/// slashes ignored. A path with no segment left (empty, or only slashes),
/// or whose final segment is `.` or `..`, has no name.
pub open spec fn spec_get_name(path: Seq<char>) -> Option<Seq<char>> {
    let trimmed = trim_trailing_slashes(path);
    let name = suffix_after_last_slash(trimmed);
    if name.len() == 0 || name == seq!['.'] || name == seq!['.', '.'] {
        None
    } else {
        Some(name)
    }
}

/// Extension trait for path strings to add additional functionality.
pub trait PathBufExt: View<V = Seq<char>> {
    /// Get the name of the file or directory the path points at.
    fn get_name(&self) -> (r: Result<String, WashError>)
        ensures
            match r {
                Ok(name) => spec_get_name(self.view()) == Some(name@),
                Err(e) => spec_get_name(self.view()) is None && e == WashError::NameError,
            },
    ;
}

impl PathBufExt for String {
    fn get_name(&self) -> (r: Result<String, WashError>) {
        let (end, start) = path_segment_bounds(self.as_str());
        let name = self.as_str().substring_char(start, end);
        proof {
            reveal_strlit(".");
            reveal_strlit("..");
            assert("."@ =~= seq!['.']);
            assert(".."@ =~= seq!['.', '.']);
        }
        if name.is_empty() || str_eq(name, ".") || str_eq(name, "..") {
            Err(WashError::NameError)
        } else {
            Ok(name.to_owned())
        }
    }
}

} // verus!
