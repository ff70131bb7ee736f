//! Rules of the database layout that do not need the database itself.

use vstd::prelude::*;
use crate::text::{ascii_lowercase, chars_of, lower};

verus! {

/// `str::eq_ignore_ascii_case`: equal once both are in ASCII lowercase.
pub open spec fn same_ignoring_ascii_case(a: Seq<char>, b: Seq<char>) -> bool {
    ascii_lowercase(a) == ascii_lowercase(b)
}

/// `a` and `b` are equal but for ASCII case.
pub fn eq_ignore_ascii_case(a: &str, b: &str) -> (r: bool)
    ensures
        r == same_ignoring_ascii_case(a@, b@),
{
    let va = chars_of(a);
    let vb = chars_of(b);
    let ghost la = ascii_lowercase(va@);
    let ghost lb = ascii_lowercase(vb@);
    if va.len() != vb.len() {
        assert(la.len() != lb.len());
        return false;
    }
    let mut i: usize = 0;
    while i < va.len()
        invariant
            i <= va.len() == vb.len(),
            va@ == a@,
            vb@ == b@,
            la == ascii_lowercase(va@),
            lb == ascii_lowercase(vb@),
            forall|j: int| 0 <= j < i ==> la[j] == lb[j],
        decreases va.len() - i,
    {
        if lower(va[i]) != lower(vb[i]) {
            assert(la[i as int] == crate::text::lower_char(va@[i as int]));
            assert(lb[i as int] == crate::text::lower_char(vb@[i as int]));
            assert(la[i as int] != lb[i as int]);
            assert(la != lb);
            return false;
        }
        i += 1;
    }
    assert(la =~= lb);
    true
}

/// Some name among `existing` equals `column` but for ASCII case.
pub open spec fn column_present(existing: Seq<String>, column: Seq<char>) -> bool {
    exists|i: int| 0 <= i < existing.len() && same_ignoring_ascii_case(#[trigger] existing[i]@, column)
}

/// Adding a column makes it present, and keeps every present column
/// present: checking for a column again after adding it finds it, so no
/// second column is added.
pub proof fn lemma_added_column_present(existing: Seq<String>, added: String, column: Seq<char>)
    ensures
        column_present(existing.push(added), added@),
        column_present(existing, column) ==> column_present(existing.push(added), column),
{
    let all = existing.push(added);
    assert(same_ignoring_ascii_case(all[existing.len() as int]@, added@));
    if column_present(existing, column) {
        let i = choose|i: int| 0 <= i < existing.len() && same_ignoring_ascii_case(#[trigger] existing[i]@, column);
        assert(all[i] == existing[i]);
    }
}

/// A table whose columns are named `existing` already has `column`: some
/// name equals it but for ASCII case.
pub fn has_column(existing: &Vec<String>, column: &str) -> (r: bool)
    ensures
        r == column_present(existing@, column@),
{
    let mut i: usize = 0;
    while i < existing.len()
        invariant
            i <= existing.len(),
            forall|j: int| 0 <= j < i ==> !same_ignoring_ascii_case(#[trigger] existing@[j]@, column@),
        decreases existing.len() - i,
    {
        if eq_ignore_ascii_case(existing[i].as_str(), column) {
            return true;
        }
        i += 1;
    }
    false
}

} // verus!
