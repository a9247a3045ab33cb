//! Character classification for filename sanitization and path checks.

use vstd::prelude::*;

verus! {

/// Control characters: the C0 range and the C1 range, the set that
/// `char::is_control` documents.
pub open spec fn is_control_char(c: char) -> bool {
    (c as u32) < 0x20 || (0x7f <= (c as u32) && (c as u32) <= 0x9f)
}

/// Characters rejected in file names on at least one common platform,
/// plus every control character.
pub open spec fn is_invalid_filename_char(c: char) -> bool {
    c == '<' || c == '>' || c == ':' || c == '"' || c == '/' || c == '\\'
        || c == '|' || c == '?' || c == '*' || is_control_char(c)
}

/// The Unicode `White_Space` set, the set that `char::is_whitespace`
/// documents.
pub open spec fn is_space_char(c: char) -> bool {
    c == ' ' || c == '\t' || c == '\n' || (c as u32) == 0x0b || (c as u32) == 0x0c
        || c == '\r' || (c as u32) == 0x85 || (c as u32) == 0xa0 || (c as u32) == 0x1680
        || (0x2000 <= (c as u32) && (c as u32) <= 0x200a) || (c as u32) == 0x2028
        || (c as u32) == 0x2029 || (c as u32) == 0x202f || (c as u32) == 0x205f
        || (c as u32) == 0x3000
}

/// Path separators recognized by the traversal pre-check: both slash
/// directions, so that Windows-style input is caught as well.
pub open spec fn is_path_separator(c: char) -> bool {
    c == '/' || c == '\\'
}

/// ASCII-case-insensitive character equality: equal outright, or equal
/// up to the 0x20 distance between an ASCII upper-case letter and its
/// lower-case form.
pub open spec fn ascii_case_eq(a: char, b: char) -> bool {
    a == b
        || (0x41 <= (a as u32) && (a as u32) <= 0x5a && (a as u32) + 0x20 == (b as u32))
        || (0x41 <= (b as u32) && (b as u32) <= 0x5a && (b as u32) + 0x20 == (a as u32))
}

pub fn check_invalid_filename_char(c: char) -> (r: bool)
    ensures
        r == is_invalid_filename_char(c),
{
    let u = c as u32;
    c == '<' || c == '>' || c == ':' || c == '"' || c == '/' || c == '\\'
        || c == '|' || c == '?' || c == '*' || u < 0x20 || (0x7f <= u && u <= 0x9f)
}

pub fn check_space_char(c: char) -> (r: bool)
    ensures
        r == is_space_char(c),
{
    let u = c as u32;
    c == ' ' || c == '\t' || c == '\n' || u == 0x0b || u == 0x0c || c == '\r'
        || u == 0x85 || u == 0xa0 || u == 0x1680 || (0x2000 <= u && u <= 0x200a)
        || u == 0x2028 || u == 0x2029 || u == 0x202f || u == 0x205f || u == 0x3000
}

pub fn check_path_separator(c: char) -> (r: bool)
    ensures
        r == is_path_separator(c),
{
    c == '/' || c == '\\'
}

pub fn check_ascii_case_eq(a: char, b: char) -> (r: bool)
    ensures
        r == ascii_case_eq(a, b),
{
    let ua = a as u32;
    let ub = b as u32;
    a == b
        || (0x41 <= ua && ua <= 0x5a && ua + 0x20 == ub)
        || (0x41 <= ub && ub <= 0x5a && ub + 0x20 == ua)
}

} // verus!
