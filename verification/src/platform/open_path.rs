//! Showing an exported file in the system's file manager.
use vstd::prelude::*;

use crate::text::{path_parent, spec_path_parent};

verus! {

/// Why the export location could not be opened.
#[derive(Debug, Clone, PartialEq, Eq)]
pub enum OpenPathError {
    MissingParent,
    Unsupported,
    /// The file manager could not be run; the system's explanation.
    Io(String),
}

/// The user-facing explanation of an error.
pub open spec fn open_path_message(e: OpenPathError) -> Seq<char> {
    match e {
        OpenPathError::MissingParent => "export path has no containing directory"@,
        OpenPathError::Unsupported => "opening export location is unsupported on this platform"@,
        OpenPathError::Io(s) => "failed to open export location: "@ + s@,
    }
}

impl OpenPathError {
    /// The user-facing explanation.
    pub fn message(&self) -> (m: String)
        ensures
            m@ == open_path_message(*self),
    {
        match self {
            OpenPathError::MissingParent => "export path has no containing directory".to_owned(),
            OpenPathError::Unsupported => "opening export location is unsupported on this platform".to_owned(),
            OpenPathError::Io(s) => {
                let mut out: Vec<char> = Vec::new();
                crate::text::push_str(&mut out, "failed to open export location: ");
                crate::text::push_str(&mut out, s.as_str());
                proof {
                    reveal_strlit("failed to open export location: ");
                }
                crate::text::string_of(out.as_slice())
            },
        }
    }
}

/// How Windows Explorer is asked to show an exported file: first with the
/// file selected, then, if that fails, by opening its folder.
#[derive(Debug, Clone, PartialEq, Eq)]
pub struct ExplorerLaunch {
    /// The argument that opens the folder with the file selected.
    pub select_argument: String,
    /// The folder to open when selecting fails.
    pub folder: String,
}

/// Shows an exported file in the file manager: a path without a parent is
/// refused; where there is no Explorer to call (`explorer_available` is
/// false off Windows) the request is unsupported; otherwise the result is
/// what to hand Explorer, which the program then runs (its failure is the
/// `Io` error).
pub fn open_export_location(path: &str, explorer_available: bool) -> (r: Result<ExplorerLaunch, OpenPathError>)
    ensures
        spec_path_parent(path@) is None ==> r == Err::<ExplorerLaunch, OpenPathError>(OpenPathError::MissingParent),
        spec_path_parent(path@) is Some && !explorer_available ==> r == Err::<ExplorerLaunch, OpenPathError>(
            OpenPathError::Unsupported,
        ),
        spec_path_parent(path@) is Some && explorer_available ==> (r matches Ok(l) && l.select_argument@
            == "/select,"@ + path@ && Some(l.folder@) == spec_path_parent(path@)),
{
    match path_parent(path) {
        None => Err(OpenPathError::MissingParent),
        Some(folder) => {
            if !explorer_available {
                return Err(OpenPathError::Unsupported);
            }
            let mut out: Vec<char> = Vec::new();
            crate::text::push_str(&mut out, "/select,");
            crate::text::push_str(&mut out, path);
            Ok(ExplorerLaunch { select_argument: crate::text::string_of(out.as_slice()), folder })
        },
    }
}

} // verus!
