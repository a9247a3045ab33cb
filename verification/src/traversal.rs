//! Pre-resolution detection of directory-traversal patterns.
//!
//! A path is rejected before any filesystem access when it holds a literal
//! `..` component, or one of the URL-percent-encoded traversal markers,
//! matched without regard to ASCII case. Canonicalization would collapse
//! `..` anyway; the explicit pre-check gives a distinguishable error
//! category and defends against canonicalization quirks.

use vstd::prelude::*;

use crate::chars::ascii_case_eq;
use crate::chars::check_ascii_case_eq;
use crate::chars::check_path_separator;
use crate::chars::is_path_separator;
use crate::strutil::str_to_chars;

verus! {

/// A literal parent-directory component at index `i`: two dots delimited
/// by the string ends or by separators in either slash direction. Dots
/// embedded within a component are not flagged.
pub open spec fn parent_component_at(s: Seq<char>, i: int) -> bool {
    &&& 0 <= i
    &&& i + 2 <= s.len()
    &&& s[i] == '.'
    &&& s[i + 1] == '.'
    &&& (i == 0 || is_path_separator(s[i - 1]))
    &&& (i + 2 == s.len() || is_path_separator(s[i + 2]))
}

/// The string holds a literal `..` path component.
pub open spec fn has_parent_component(s: Seq<char>) -> bool {
    exists|i: int| parent_component_at(s, i)
}

/// The marker `p` occurs at index `i` of `s`, compared character by
/// character without regard to ASCII case.
pub open spec fn marker_at(s: Seq<char>, p: Seq<char>, i: int) -> bool {
    &&& 0 <= i
    &&& i + p.len() <= s.len()
    &&& forall|j: int| 0 <= j < p.len() ==> ascii_case_eq(s[i + j], p[j])
}

/// The marker `p` occurs somewhere in `s`, without regard to ASCII case.
pub open spec fn contains_marker_ci(s: Seq<char>, p: Seq<char>) -> bool {
    exists|i: int| marker_at(s, p, i)
}

/// URL-encoded `../`.
pub open spec fn marker_encoded_slash() -> Seq<char> {
    seq!['.', '.', '%', '2', 'f']
}

/// URL-encoded `..\`.
pub open spec fn marker_encoded_backslash() -> Seq<char> {
    seq!['.', '.', '%', '5', 'c']
}

/// URL-encoded `..`.
pub open spec fn marker_encoded_dots() -> Seq<char> {
    seq!['%', '2', 'e', '%', '2', 'e']
}

/// The pre-resolution rejection rule: a literal `..` component, or any of
/// the URL-percent-encoded traversal markers.
pub open spec fn is_traversal_pattern(s: Seq<char>) -> bool {
    ||| has_parent_component(s)
    ||| contains_marker_ci(s, marker_encoded_slash())
    ||| contains_marker_ci(s, marker_encoded_backslash())
    ||| contains_marker_ci(s, marker_encoded_dots())
}

fn marker_matches_at(v: &Vec<char>, p: &Vec<char>, i: usize) -> (r: bool)
    requires
        i + p@.len() <= v@.len(),
    ensures
        r == marker_at(v@, p@, i as int),
{
    let n = v.len();
    let m = p.len();
    let mut j: usize = 0;
    while j < m
        invariant
            n == v@.len(),
            m == p@.len(),
            i + m <= n,
            j <= m,
            forall|l: int| 0 <= l < j ==> ascii_case_eq(v@[i + l], p@[l]),
        decreases m - j,
    {
        if !check_ascii_case_eq(v[i + j], p[j]) {
            return false;
        }
        j = j + 1;
    }
    true
}

fn contains_marker(v: &Vec<char>, p: &Vec<char>) -> (r: bool)
    ensures
        r == contains_marker_ci(v@, p@),
{
    let n = v.len();
    let m = p.len();
    if m > n {
        return false;
    }
    let mut i: usize = 0;
    while i <= n - m
        invariant
            m <= n,
            n == v@.len(),
            m == p@.len(),
            i <= n - m + 1,
            forall|k: int| 0 <= k < i ==> !marker_at(v@, p@, k),
        decreases n - m - i + 1,
    {
        if marker_matches_at(v, p, i) {
            return true;
        }
        i = i + 1;
    }
    false
}

fn has_parent_component_exec(v: &Vec<char>) -> (r: bool)
    ensures
        r == has_parent_component(v@),
{
    let n = v.len();
    if n < 2 {
        return false;
    }
    let mut i: usize = 0;
    while i < n - 1
        invariant
            2 <= n,
            n == v@.len(),
            i <= n - 1,
            forall|k: int| 0 <= k < i ==> !parent_component_at(v@, k),
        decreases n - i,
    {
        let before_ok = if i == 0 {
            true
        } else {
            check_path_separator(v[i - 1])
        };
        let after_ok = if i + 2 == n {
            true
        } else {
            check_path_separator(v[i + 2])
        };
        if v[i] == '.' && v[i + 1] == '.' && before_ok && after_ok {
            proof {
                assert(parent_component_at(v@, i as int));
            }
            return true;
        }
        i = i + 1;
    }
    false
}

/// Whether a path string contains a directory-traversal pattern. This is
/// the quick pre-check that runs before any canonicalization.
pub fn contains_traversal_pattern(path: &str) -> (r: bool)
    ensures
        r == is_traversal_pattern(path@),
{
    let v = str_to_chars(path);
    if has_parent_component_exec(&v) {
        return true;
    }
    let slash: Vec<char> = vec!['.', '.', '%', '2', 'f'];
    let backslash: Vec<char> = vec!['.', '.', '%', '5', 'c'];
    let dots: Vec<char> = vec!['%', '2', 'e', '%', '2', 'e'];
    proof {
        assert(slash@ =~= marker_encoded_slash());
        assert(backslash@ =~= marker_encoded_backslash());
        assert(dots@ =~= marker_encoded_dots());
    }
    contains_marker(&v, &slash) || contains_marker(&v, &backslash) || contains_marker(&v, &dots)
}

} // verus!
