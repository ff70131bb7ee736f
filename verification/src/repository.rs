//! Names of repositories and folders of projects.

use vstd::prelude::*;
use crate::paths::{path_file_name, path_parent, file_name_of, parent_of};
use crate::text::string_of;

verus! {

/// The name given to a repository when neither the user nor its folder
/// names it.
pub open spec fn default_repository_name() -> Seq<char> {
    seq!['H', 'F', 'S', 'S', ' ', 'R', 'e', 'p', 'o', 's', 'i', 't', 'o', 'r', 'y']
}

/// The name a repository at `root_path` is stored under: the name given, or
/// else the last component of its path, or else `HFSS Repository`.
pub open spec fn repository_name_spec(root_path: Seq<char>, name: Option<Seq<char>>) -> Seq<char> {
    match name {
        Some(n) => n,
        None => match path_file_name(root_path) {
            Some(f) => f,
            None => default_repository_name(),
        },
    }
}

/// The name a repository at `root_path` is stored under.
pub fn repository_name(root_path: &str, name: Option<String>) -> (r: String)
    ensures
        r@ == repository_name_spec(
            root_path@,
            match name {
                Some(n) => Some(n@),
                None => None,
            },
        ),
{
    match name {
        Some(n) => n,
        None => match file_name_of(root_path) {
            Some(f) => f,
            None => {
                let v = vec![
                    'H',
                    'F',
                    'S',
                    'S',
                    ' ',
                    'R',
                    'e',
                    'p',
                    'o',
                    's',
                    'i',
                    't',
                    'o',
                    'r',
                    'y',
                ];
                assert(v@ =~= default_repository_name());
                string_of(&v)
            },
        },
    }
}

/// The folder that holds the project file at `aedt_path`, if the path has
/// one.
pub fn project_folder(aedt_path: &str) -> (r: Option<String>)
    ensures
        r matches Some(f) ==> path_parent(aedt_path@) == Some(f@),
        r is None ==> path_parent(aedt_path@) is None,
{
    parent_of(aedt_path)
}

} // verus!
