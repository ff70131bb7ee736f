//! Which files and folders a repository scan takes, and what it records of
//! each `.aedt` project.

use vstd::prelude::*;
use crate::paths::{
    path_file_name, path_extension, path_file_stem, path_parent, path_join, file_name_of,
    extension_chars, file_stem_of, parent_of, join_paths, last_dot, extension_of_name,
};
use crate::text::{
    ascii_lowercase, has_suffix, chars_of, ends_with_ignore_ascii_case,
    lowercase_equals,
};
use crate::types::{ScanProgress, new_id};

verus! {

broadcast use vstd::string::group_string_axioms;

/// The suffix `.aedtresults` of a project's results folder.
pub open spec fn results_suffix() -> Seq<char> {
    seq!['.', 'a', 'e', 'd', 't', 'r', 'e', 's', 'u', 'l', 't', 's']
}

/// The extension `aedt` of a project file.
pub open spec fn aedt_extension() -> Seq<char> {
    seq!['a', 'e', 'd', 't']
}

/// A scan descends into (or keeps) the entry at `p` unless its name, in
/// ASCII lowercase, ends with `.aedtresults`.
pub open spec fn enters(p: Seq<char>) -> bool {
    match path_file_name(p) {
        Some(n) => !has_suffix(ascii_lowercase(n), results_suffix()),
        None => true,
    }
}

/// The entry at `p` is named like a project file: its extension is `aedt`
/// in any ASCII case.
pub open spec fn is_project_path(p: Seq<char>) -> bool {
    match path_extension(p) {
        Some(e) => ascii_lowercase(e) == aedt_extension(),
        None => false,
    }
}

/// The name a project gets: the file stem of its `.aedt` file, or `unknown`.
pub open spec fn project_name_of(p: Seq<char>) -> Seq<char> {
    match path_file_stem(p) {
        Some(s) => s,
        None => seq!['u', 'n', 'k', 'n', 'o', 'w', 'n'],
    }
}

/// The results folder of a project: `<stem>.aedtresults` beside its `.aedt`
/// file (in `.` when the file has no parent).
pub open spec fn results_dir_of(p: Seq<char>) -> Seq<char> {
    let parent = match path_parent(p) {
        Some(q) => q,
        None => seq!['.'],
    };
    path_join(parent, project_name_of(p) + results_suffix())
}

fn results_suffix_chars() -> (v: Vec<char>)
    ensures
        v@ == results_suffix(),
{
    let v = vec!['.', 'a', 'e', 'd', 't', 'r', 'e', 's', 'u', 'l', 't', 's'];
    assert(v@ =~= results_suffix());
    v
}

/// Whether a scan walks into (or keeps) the entry at `path`: everything but
/// folders and files whose name ends with `.aedtresults`, in any ASCII case.
pub fn should_enter_scan(path: &str) -> (r: bool)
    ensures
        r == enters(path@),
{
    match file_name_of(path) {
        Some(name) => {
            let v = chars_of(name.as_str());
            !ends_with_ignore_ascii_case(&v, &results_suffix_chars())
        },
        None => true,
    }
}

/// Whether the entry at `path` is named like a project file (extension
/// `aedt` in any ASCII case).
pub fn is_project_file(path: &str) -> (r: bool)
    ensures
        r == is_project_path(path@),
{
    match extension_chars(path) {
        Some(e) => {
            let lit = vec!['a', 'e', 'd', 't'];
            assert(lit@ =~= aedt_extension());
            lowercase_equals(&e, &lit)
        },
        None => false,
    }
}

/// Whether a scan records the walked entry at `path` as a project: a file
/// named like a project file.
pub fn is_scan_target(path: &str, is_file: bool) -> (r: bool)
    ensures
        r == (is_file && is_project_path(path@)),
{
    is_file && is_project_file(path)
}

/// Every entry named like a project file is one the scan keeps: the rule
/// that skips results folders never hides a project file.
pub proof fn lemma_project_files_are_entered(p: Seq<char>)
    ensures
        is_project_path(p) ==> enters(p),
{
    if is_project_path(p) {
        let n = path_file_name(p)->0;
        let d = last_dot(n);
        crate::paths::lemma_last_dot_bounds(n);
        let e = n.subrange(d + 1, n.len() as int);
        assert(extension_of_name(n) == Some(e));
        assert(ascii_lowercase(e).len() == e.len());
        assert(e.len() == 4);
        assert(ascii_lowercase(e)[3] == 't');
        assert(e[3] == n[n.len() - 1]);
        let low = ascii_lowercase(n);
        assert(low[low.len() - 1] == 't');
        if has_suffix(low, results_suffix()) {
            let sub = low.subrange(low.len() - 12, low.len() as int);
            assert(sub[11] == low[low.len() - 1]);
            assert(sub[11] == 's');
        }
    }
}

/// Where a project's results live and what the project is called.
#[derive(Clone, Debug)]
pub struct ProjectLayout {
    pub project_name: String,
    pub results_dir: String,
}

/// The name and results folder of the project whose `.aedt` file is at
/// `aedt_path`.
pub fn project_layout(aedt_path: &str) -> (l: ProjectLayout)
    ensures
        l.project_name@ == project_name_of(aedt_path@),
        l.results_dir@ == results_dir_of(aedt_path@),
{
    let name = match file_stem_of(aedt_path) {
        Some(s) => s,
        None => {
            let v = vec!['u', 'n', 'k', 'n', 'o', 'w', 'n'];
            assert(v@ =~= seq!['u', 'n', 'k', 'n', 'o', 'w', 'n']);
            crate::text::string_of(&v)
        },
    };
    let parent = match parent_of(aedt_path) {
        Some(q) => q,
        None => {
            let v = vec!['.'];
            assert(v@ =~= seq!['.']);
            crate::text::string_of(&v)
        },
    };
    let suffix = crate::text::string_of(&results_suffix_chars());
    let mut folder_name = name.clone();
    folder_name.append(suffix.as_str());
    let results_dir = join_paths(parent.as_str(), folder_name.as_str());
    ProjectLayout { project_name: name, results_dir }
}

/// The total size a project occupies: its `.aedt` file and its results.
pub fn project_total_size(aedt_size_bytes: i64, results_size_bytes: i64) -> (t: i64)
    requires
        i64::MIN <= aedt_size_bytes + results_size_bytes <= i64::MAX,
    ensures
        t == aedt_size_bytes + results_size_bytes,
{
    aedt_size_bytes + results_size_bytes
}

/// The report of a finished full scan of `repo_id` that found `total`
/// projects, under a fresh task identifier.
pub fn scan_progress(repo_id: &str, total: usize) -> (p: ScanProgress)
    ensures
        p.repo_id@ == repo_id@,
        p.scanned == total,
        p.total_hint == total,
        p.done,
        p.message@ == "full scan finished"@,
        crate::types::is_uuid_v4_text(p.task_id@),
{
    ScanProgress {
        task_id: new_id(),
        repo_id: repo_id.to_string(),
        scanned: total,
        total_hint: total,
        done: true,
        message: "full scan finished".to_string(),
    }
}

} // verus!
