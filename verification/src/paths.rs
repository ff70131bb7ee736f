//! File-system paths as text. Splitting a path into components is
//! `std::path`'s work and depends on the platform's separators, so the
//! results of `Path::file_name`, `Path::parent`, `Path::join`,
//! `Path::strip_prefix` and `Path::starts_with` are named below; what this
//! library decides from them (extensions, stems, which files a scan or a
//! backup takes) is stated exactly over those names.

use vstd::prelude::*;
use crate::text::{chars_of, string_of, string_of_range, same_chars};
use std::path::Path;

verus! {

/// The last component of path `p` when it is a normal name
/// (`Path::file_name`).
pub uninterp spec fn path_file_name(p: Seq<char>) -> Option<Seq<char>>;

/// The path `p` without its last component (`Path::parent`).
pub uninterp spec fn path_parent(p: Seq<char>) -> Option<Seq<char>>;

/// `child` appended to `base` (`Path::join`).
pub uninterp spec fn path_join(base: Seq<char>, child: Seq<char>) -> Seq<char>;

/// The rest of `p` after the leading components `base` (`Path::strip_prefix`).
pub uninterp spec fn path_strip_prefix(p: Seq<char>, base: Seq<char>) -> Option<Seq<char>>;

/// `p` begins with the components of `base` (`Path::starts_with`).
pub uninterp spec fn path_starts_with(p: Seq<char>, base: Seq<char>) -> bool;

/// `Path::file_name` of `p`, as text. The contract names the result; the
/// name of a path made from UTF-8 text is UTF-8, so the conversion loses
/// nothing.
#[verifier::external_body]
pub(crate) fn file_name_of(p: &str) -> (r: Option<String>)
    ensures
        r matches Some(n) ==> path_file_name(p@) == Some(n@),
        r is None ==> path_file_name(p@) is None,
{
    match Path::new(p).file_name() {
        Some(n) => Some(n.to_string_lossy().into_owned()),
        None => None,
    }
}

/// `Path::parent` of `p`, as text. The contract names the result.
#[verifier::external_body]
pub(crate) fn parent_of(p: &str) -> (r: Option<String>)
    ensures
        r matches Some(n) ==> path_parent(p@) == Some(n@),
        r is None ==> path_parent(p@) is None,
{
    match Path::new(p).parent() {
        Some(n) => Some(n.to_string_lossy().into_owned()),
        None => None,
    }
}

/// `Path::join` of `base` and `child`, as text. The contract names the
/// result.
#[verifier::external_body]
pub(crate) fn join_paths(base: &str, child: &str) -> (r: String)
    ensures
        r@ == path_join(base@, child@),
{
    Path::new(base).join(child).to_string_lossy().into_owned()
}

/// `Path::strip_prefix` of `p` by `base`, as text; `None` where `base` is
/// not a prefix of `p`. The contract names the result.
#[verifier::external_body]
pub(crate) fn strip_path_prefix(p: &str, base: &str) -> (r: Option<String>)
    ensures
        r matches Some(n) ==> path_strip_prefix(p@, base@) == Some(n@),
        r is None ==> path_strip_prefix(p@, base@) is None,
{
    match Path::new(p).strip_prefix(base) {
        Ok(rest) => Some(rest.to_string_lossy().into_owned()),
        Err(_) => None,
    }
}

/// `Path::starts_with` of `p` and `base`. The contract names the result.
#[verifier::external_body]
pub(crate) fn path_has_prefix(p: &str, base: &str) -> (r: bool)
    ensures
        r == path_starts_with(p@, base@),
{
    Path::new(p).starts_with(base)
}

// ---------------------------------------------------------------------------
// Extensions and stems (what `Path::extension` and `Path::file_stem` document)
// ---------------------------------------------------------------------------

/// The index of the last `.` in `name`, or -1 when there is none.
pub open spec fn last_dot(name: Seq<char>) -> int
    decreases name.len(),
{
    if name.len() == 0 {
        -1
    } else if name.last() == '.' {
        name.len() - 1
    } else {
        last_dot(name.drop_last())
    }
}

/// The name `..`.
pub open spec fn is_dot_dot(name: Seq<char>) -> bool {
    name == seq!['.', '.']
}

/// The extension of a file name: the part after the final `.`, unless there
/// is no `.`, or the only `.` begins the name (or the name is `..`).
pub open spec fn extension_of_name(name: Seq<char>) -> Option<Seq<char>> {
    if is_dot_dot(name) || last_dot(name) <= 0 {
        None
    } else {
        Some(name.subrange(last_dot(name) + 1, name.len() as int))
    }
}

/// The stem of a file name: the part before the final `.`, or the whole
/// name when `extension_of_name` finds no extension.
pub open spec fn stem_of_name(name: Seq<char>) -> Seq<char> {
    if is_dot_dot(name) || last_dot(name) <= 0 {
        name
    } else {
        name.subrange(0, last_dot(name))
    }
}

/// `Path::extension` of `p`.
pub open spec fn path_extension(p: Seq<char>) -> Option<Seq<char>> {
    match path_file_name(p) {
        Some(n) => extension_of_name(n),
        None => None,
    }
}

/// `Path::file_stem` of `p`.
pub open spec fn path_file_stem(p: Seq<char>) -> Option<Seq<char>> {
    match path_file_name(p) {
        Some(n) => Some(stem_of_name(n)),
        None => None,
    }
}

/// Where the last `.` of a name is, if any.
pub proof fn lemma_last_dot_bounds(name: Seq<char>)
    ensures
        -1 <= last_dot(name) < name.len(),
        last_dot(name) >= 0 ==> name[last_dot(name)] == '.',
        forall|i: int| last_dot(name) < i < name.len() ==> name[i] != '.',
    decreases name.len(),
{
    if name.len() > 0 && name.last() != '.' {
        lemma_last_dot_bounds(name.drop_last());
        assert forall|i: int| last_dot(name) < i < name.len() implies name[i] != '.' by {
            if i < name.len() - 1 {
                assert(name[i] == name.drop_last()[i]);
            }
        }
    }
}

/// The index of the last `.` in `name`, if there is one.
fn find_last_dot(name: &Vec<char>) -> (r: Option<usize>)
    ensures
        r matches Some(i) ==> i == last_dot(name@),
        r is None ==> last_dot(name@) == -1,
{
    let mut i: usize = name.len();
    proof {
        assert(name@.take(name.len() as int) =~= name@);
    }
    while i > 0
        invariant
            i <= name.len(),
            last_dot(name@) == last_dot(name@.take(i as int)),
        decreases i,
    {
        let ghost t = name@.take(i as int);
        assert(t.drop_last() =~= name@.take(i - 1));
        if name[i - 1] == '.' {
            return Some(i - 1);
        }
        i -= 1;
    }
    None
}

/// `name` is `..`.
fn dot_dot(name: &Vec<char>) -> (r: bool)
    ensures
        r == is_dot_dot(name@),
{
    same_chars(name, &vec!['.', '.'])
}

/// The extension of a file name (see `extension_of_name`).
pub fn name_extension(name: &Vec<char>) -> (r: Option<Vec<char>>)
    ensures
        r matches Some(e) ==> extension_of_name(name@) == Some(e@),
        r is None ==> extension_of_name(name@) is None,
{
    if dot_dot(name) {
        return None;
    }
    let found = find_last_dot(name);
    let d = match found {
        None => return None,
        Some(d) => d,
    };
    assert(d == last_dot(name@));
    if d == 0 {
        None
    } else {
        proof {
            lemma_last_dot_bounds(name@);
        }
        assert(d < name.len());
        let mut e: Vec<char> = Vec::new();
        let mut i: usize = d + 1;
        while i < name.len()
            invariant
                d + 1 <= i <= name.len(),
                e@ == name@.subrange(d + 1, i as int),
            decreases name.len() - i,
        {
            e.push(name[i]);
            i += 1;
            assert(e@ =~= name@.subrange(d + 1, i as int));
        }
        Some(e)
    }
}

/// The stem of a file name (see `stem_of_name`).
pub fn name_stem(name: &Vec<char>) -> (r: String)
    ensures
        r@ == stem_of_name(name@),
{
    if dot_dot(name) {
        return string_of(name);
    }
    match find_last_dot(name) {
        None => string_of(name),
        Some(d) => if d == 0 {
            string_of(name)
        } else {
            proof {
                lemma_last_dot_bounds(name@);
            }
            string_of_range(name, 0, d)
        },
    }
}

/// `Path::extension` of `p`, as characters.
pub fn extension_chars(p: &str) -> (r: Option<Vec<char>>)
    ensures
        r matches Some(e) ==> path_extension(p@) == Some(e@),
        r is None ==> path_extension(p@) is None,
{
    match file_name_of(p) {
        None => None,
        Some(n) => {
            let v = chars_of(n.as_str());
            name_extension(&v)
        },
    }
}

/// `Path::file_stem` of `p`.
pub fn file_stem_of(p: &str) -> (r: Option<String>)
    ensures
        r matches Some(s) ==> path_file_stem(p@) == Some(s@),
        r is None ==> path_file_stem(p@) is None,
{
    match file_name_of(p) {
        None => None,
        Some(n) => {
            let v = chars_of(n.as_str());
            Some(name_stem(&v))
        },
    }
}

} // verus!
