//! Data handed between the command layer and the core for directory
//! listings and document files, and the pure rules those commands apply.

use vstd::prelude::*;

use crate::strutil::str_copy;
use crate::strutil::str_to_chars;
use vstd::string::StrSliceExecFns;
use vstd::string::StringExecFns;

verus! {

/// One listed entry of a workspace directory.
#[derive(Debug)]
pub struct FileMetadata {
    pub name: String,
    pub path: String,
    pub size: u64,
    pub modified: String,
    pub is_directory: bool,
}

/// Persisted workspace configuration, consumed here only as plain strings.
#[derive(Debug)]
pub struct WorkspaceConfig {
    pub workspace_path: String,
    pub recent_files: Vec<String>,
    pub last_opened: Option<String>,
}

/// The name ends in `.md`.
pub open spec fn is_md_name(s: Seq<char>) -> bool {
    s.len() >= 3 && s[s.len() - 3] == '.' && s[s.len() - 2] == 'm' && s[s.len() - 1] == 'd'
}

/// The name starts with a dot: hidden on Unix-like systems.
pub open spec fn is_hidden_name(s: Seq<char>) -> bool {
    s.len() > 0 && s[0] == '.'
}

/// Whether the name marks a markdown document.
pub fn is_markdown_name(name: &str) -> (r: bool)
    ensures
        r == is_md_name(name@),
{
    let n = name.unicode_len();
    if n < 3 {
        return false;
    }
    name.get_char(n - 3) == '.' && name.get_char(n - 2) == 'm' && name.get_char(n - 1) == 'd'
}

/// Listing rule for the flat file listing: markdown files and directories.
pub fn should_list_entry(name: &str, is_directory: bool) -> (r: bool)
    ensures
        r == (is_md_name(name@) || is_directory),
{
    is_markdown_name(name) || is_directory
}

/// Listing rule for workspace contents: hidden entries are skipped, then
/// directories and markdown files are kept.
pub fn should_list_visible_entry(name: &str, is_directory: bool) -> (r: bool)
    ensures
        r == (!is_hidden_name(name@) && (is_directory || is_md_name(name@))),
{
    let n = name.unicode_len();
    let hidden = n > 0 && name.get_char(0) == '.';
    !hidden && (is_directory || is_markdown_name(name))
}

/// Strict lexicographic order by code point, the order `str` comparison
/// uses.
pub open spec fn lex_less_spec(a: Seq<char>, b: Seq<char>) -> bool
    decreases a.len(),
{
    if b.len() == 0 {
        false
    } else if a.len() == 0 {
        true
    } else if (a[0] as u32) < (b[0] as u32) {
        true
    } else if (a[0] as u32) > (b[0] as u32) {
        false
    } else {
        lex_less_spec(a.drop_first(), b.drop_first())
    }
}

/// Strict "listed before" order: directories come first, and within one
/// kind the names are ordered lexicographically.
pub open spec fn listing_before_spec(
    a_dir: bool,
    a_name: Seq<char>,
    b_dir: bool,
    b_name: Seq<char>,
) -> bool {
    (a_dir && !b_dir) || (a_dir == b_dir && lex_less_spec(a_name, b_name))
}

proof fn lemma_lex_step(x: Seq<char>, y: Seq<char>)
    requires
        x.len() > 0,
        y.len() > 0,
        x[0] == y[0],
    ensures
        lex_less_spec(x, y) == lex_less_spec(x.drop_first(), y.drop_first()),
{
}

fn lex_less(a: &str, b: &str) -> (r: bool)
    ensures
        r == lex_less_spec(a@, b@),
{
    let va = str_to_chars(a);
    let vb = str_to_chars(b);
    let na = va.len();
    let nb = vb.len();
    proof {
        assert(a@.skip(0) =~= a@);
        assert(b@.skip(0) =~= b@);
    }
    let mut i: usize = 0;
    while i < na && i < nb
        invariant
            na == a@.len(),
            nb == b@.len(),
            va@ == a@,
            vb@ == b@,
            i <= na,
            i <= nb,
            lex_less_spec(a@, b@) == lex_less_spec(a@.skip(i as int), b@.skip(i as int)),
        decreases na - i,
    {
        let ca = va[i] as u32;
        let cb = vb[i] as u32;
        proof {
            assert(a@.skip(i as int)[0] == a@[i as int]);
            assert(b@.skip(i as int)[0] == b@[i as int]);
        }
        if ca < cb {
            return true;
        }
        if ca > cb {
            return false;
        }
        proof {
            vstd::utf8::char_u32_cast(a@[i as int], ca);
            vstd::utf8::char_u32_cast(b@[i as int], cb);
            lemma_lex_step(a@.skip(i as int), b@.skip(i as int));
            assert(a@.skip(i as int).drop_first() =~= a@.skip(i as int + 1));
            assert(b@.skip(i as int).drop_first() =~= b@.skip(i as int + 1));
        }
        i = i + 1;
    }
    proof {
        assert(a@.skip(i as int).len() == na - i);
        assert(b@.skip(i as int).len() == nb - i);
    }
    i == na && i < nb
}

/// The order in which listings present entries: directories before files,
/// names in lexicographic order within each kind. This is the strict part
/// of the order; two entries of the same kind and name tie.
pub fn listing_before(a_dir: bool, a_name: &str, b_dir: bool, b_name: &str) -> (r: bool)
    ensures
        r == listing_before_spec(a_dir, a_name@, b_dir, b_name@),
{
    if a_dir && !b_dir {
        return true;
    }
    if a_dir != b_dir {
        return false;
    }
    lex_less(a_name, b_name)
}

/// The name with `.md` appended unless it already ends in it.
pub open spec fn ensure_md_spec(s: Seq<char>) -> Seq<char> {
    if is_md_name(s) {
        s
    } else {
        s + seq!['.', 'm', 'd']
    }
}

/// Appends the `.md` extension when the name does not already carry it.
pub fn ensure_md_extension(name: &str) -> (r: String)
    ensures
        r@ == ensure_md_spec(name@),
{
    if is_markdown_name(name) {
        str_copy(name)
    } else {
        proof {
            reveal_strlit(".md");
            assert(".md"@ =~= seq!['.', 'm', 'd']);
        }
        String::from_str(name).concat(".md")
    }
}

} // verus!
