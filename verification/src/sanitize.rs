//! Sanitization of untrusted filename fragments.
//!
//! Every platform-unsafe or control character becomes an underscore; the
//! ends are trimmed of whitespace and then of dots (so no hidden-file name
//! survives); an empty result is replaced by a fixed fallback; and the
//! length is capped at 200 characters, leaving headroom under common
//! 255-byte filesystem limits. The function never touches the filesystem
//! and never fails.

use vstd::prelude::*;

use crate::chars::check_invalid_filename_char;
use crate::chars::check_space_char;
use crate::chars::is_invalid_filename_char;
use crate::chars::is_space_char;
use crate::strutil::chars_to_string;
use crate::strutil::str_to_chars;
use crate::strutil::subvec;

verus! {

/// Every unsafe character replaced by an underscore.
pub open spec fn replace_invalid(s: Seq<char>) -> Seq<char> {
    s.map_values(
        |c: char|
            if is_invalid_filename_char(c) {
                '_'
            } else {
                c
            },
    )
}

/// `s` without its longest prefix of characters satisfying `p`.
pub open spec fn trim_front(s: Seq<char>, p: spec_fn(char) -> bool) -> Seq<char>
    decreases s.len(),
{
    if s.len() > 0 && p(s[0]) {
        trim_front(s.drop_first(), p)
    } else {
        s
    }
}

/// `s` without its longest suffix of characters satisfying `p`.
pub open spec fn trim_back(s: Seq<char>, p: spec_fn(char) -> bool) -> Seq<char>
    decreases s.len(),
{
    if s.len() > 0 && p(s.last()) {
        trim_back(s.drop_last(), p)
    } else {
        s
    }
}

pub open spec fn space_pred() -> spec_fn(char) -> bool {
    |c: char| is_space_char(c)
}

pub open spec fn dot_pred() -> spec_fn(char) -> bool {
    |c: char| c == '.'
}

/// Whitespace trimmed from both ends, then dots trimmed from both ends of
/// what remains.
pub open spec fn trimmed_name(s: Seq<char>) -> Seq<char> {
    trim_back(
        trim_front(trim_back(trim_front(s, space_pred()), space_pred()), dot_pred()),
        dot_pred(),
    )
}

/// The substitute used when nothing survives trimming.
pub open spec fn fallback_name() -> Seq<char> {
    seq!['u', 'n', 'n', 'a', 'm', 'e', 'd']
}

/// What `sanitize_filename` returns.
pub open spec fn sanitize_spec(s: Seq<char>) -> Seq<char> {
    let t = trimmed_name(replace_invalid(s));
    let named = if t.len() == 0 {
        fallback_name()
    } else {
        t
    };
    if named.len() > 200 {
        named.take(200)
    } else {
        named
    }
}

pub(crate) proof fn lemma_trim_front_subrange(s: Seq<char>, p: spec_fn(char) -> bool, lo: int)
    requires
        0 <= lo <= s.len(),
        forall|j: int| 0 <= j < lo ==> p(#[trigger] s[j]),
        lo < s.len() ==> !p(s[lo]),
    ensures
        trim_front(s, p) == s.subrange(lo, s.len() as int),
    decreases lo,
{
    if lo == 0 {
        assert(s.subrange(0, s.len() as int) =~= s);
    } else {
        assert(p(s[0]));
        let t = s.drop_first();
        assert forall|j: int| 0 <= j < lo - 1 implies p(#[trigger] t[j]) by {
            assert(t[j] == s[j + 1]);
        }
        assert(lo - 1 < t.len() ==> !p(t[lo - 1])) by {
            if lo - 1 < t.len() {
                assert(t[lo - 1] == s[lo]);
            }
        }
        lemma_trim_front_subrange(t, p, lo - 1);
        assert(t.subrange(lo - 1, t.len() as int) =~= s.subrange(lo, s.len() as int));
    }
}

pub(crate) proof fn lemma_trim_back_subrange(s: Seq<char>, p: spec_fn(char) -> bool, hi: int)
    requires
        0 <= hi <= s.len(),
        forall|j: int| hi <= j < s.len() ==> p(#[trigger] s[j]),
        hi > 0 ==> !p(s[hi - 1]),
    ensures
        trim_back(s, p) == s.subrange(0, hi),
    decreases s.len() - hi,
{
    if hi == s.len() {
        assert(s.subrange(0, hi) =~= s);
    } else {
        assert(p(s.last()));
        let t = s.drop_last();
        assert forall|j: int| hi <= j < t.len() implies p(#[trigger] t[j]) by {
            assert(t[j] == s[j]);
        }
        assert(hi > 0 ==> !p(t[hi - 1])) by {
            if hi > 0 {
                assert(t[hi - 1] == s[hi - 1]);
            }
        }
        lemma_trim_back_subrange(t, p, hi);
        assert(t.subrange(0, hi) =~= s.subrange(0, hi));
    }
}

spec fn pred_of(dots: bool) -> spec_fn(char) -> bool {
    if dots {
        dot_pred()
    } else {
        space_pred()
    }
}

fn check_trim_char(c: char, dots: bool) -> (r: bool)
    ensures
        r == pred_of(dots)(c),
{
    if dots {
        c == '.'
    } else {
        check_space_char(c)
    }
}

fn skip_front(w: &Vec<char>, dots: bool) -> (r: usize)
    ensures
        r <= w@.len(),
        forall|j: int| 0 <= j < r ==> pred_of(dots)(#[trigger] w@[j]),
        r < w@.len() ==> !pred_of(dots)(w@[r as int]),
{
    let n = w.len();
    let mut i: usize = 0;
    while i < n
        invariant
            n == w@.len(),
            i <= n,
            forall|j: int| 0 <= j < i ==> pred_of(dots)(#[trigger] w@[j]),
        decreases n - i,
    {
        if !check_trim_char(w[i], dots) {
            return i;
        }
        i = i + 1;
    }
    n
}

fn skip_back(w: &Vec<char>, lo: usize, dots: bool) -> (r: usize)
    requires
        lo <= w@.len(),
    ensures
        lo <= r <= w@.len(),
        forall|j: int| r <= j < w@.len() ==> pred_of(dots)(#[trigger] w@[j]),
        r > lo ==> !pred_of(dots)(w@[r - 1]),
{
    let mut i: usize = w.len();
    while i > lo
        invariant
            lo <= i <= w@.len(),
            forall|j: int| i <= j < w@.len() ==> pred_of(dots)(#[trigger] w@[j]),
        decreases i,
    {
        if !check_trim_char(w[i - 1], dots) {
            return i;
        }
        i = i - 1;
    }
    lo
}

/// Sanitizes a filename: replaces unsafe characters, trims the ends, never
/// returns an empty or oversized result, and never fails.
pub fn sanitize_filename(filename: &str) -> (r: String)
    ensures
        r@ == sanitize_spec(filename@),
        r@.len() > 0,
        r@.len() <= 200,
        forall|i: int| 0 <= i < r@.len() ==> !is_invalid_filename_char(#[trigger] r@[i]),
{
    let v = str_to_chars(filename);
    let n = v.len();
    let mut w: Vec<char> = Vec::new();
    let mut i: usize = 0;
    while i < n
        invariant
            n == v@.len(),
            i <= n,
            w@.len() == i,
            forall|j: int|
                0 <= j < i ==> #[trigger] w@[j] == (if is_invalid_filename_char(v@[j]) {
                    '_'
                } else {
                    v@[j]
                }),
        decreases n - i,
    {
        if check_invalid_filename_char(v[i]) {
            w.push('_');
        } else {
            w.push(v[i]);
        }
        i = i + 1;
    }
    proof {
        assert(w@ =~= replace_invalid(v@));
        assert forall|j: int| 0 <= j < w@.len() implies !is_invalid_filename_char(
            #[trigger] w@[j],
        ) by {
            assert(!is_invalid_filename_char('_'));
        }
    }
    let lo1 = skip_front(&w, false);
    let hi1 = skip_back(&w, lo1, false);
    let a = subvec(&w, lo1, hi1);
    proof {
        lemma_trim_front_subrange(w@, space_pred(), lo1 as int);
        let s1 = w@.subrange(lo1 as int, w@.len() as int);
        assert forall|j: int| hi1 - lo1 <= j < s1.len() implies space_pred()(#[trigger] s1[j]) by {
            assert(s1[j] == w@[lo1 + j]);
        }
        assert(hi1 - lo1 > 0 ==> !space_pred()(s1[hi1 - lo1 - 1])) by {
            if hi1 > lo1 {
                assert(s1[hi1 - lo1 - 1] == w@[hi1 - 1]);
            }
        }
        lemma_trim_back_subrange(s1, space_pred(), hi1 - lo1);
        assert(s1.subrange(0, hi1 - lo1) =~= w@.subrange(lo1 as int, hi1 as int));
        assert(trim_back(trim_front(w@, space_pred()), space_pred()) == a@);
    }
    let lo2 = skip_front(&a, true);
    let hi2 = skip_back(&a, lo2, true);
    let b = subvec(&a, lo2, hi2);
    proof {
        lemma_trim_front_subrange(a@, dot_pred(), lo2 as int);
        let s2 = a@.subrange(lo2 as int, a@.len() as int);
        assert forall|j: int| hi2 - lo2 <= j < s2.len() implies dot_pred()(#[trigger] s2[j]) by {
            assert(s2[j] == a@[lo2 + j]);
        }
        assert(hi2 - lo2 > 0 ==> !dot_pred()(s2[hi2 - lo2 - 1])) by {
            if hi2 > lo2 {
                assert(s2[hi2 - lo2 - 1] == a@[hi2 - 1]);
            }
        }
        lemma_trim_back_subrange(s2, dot_pred(), hi2 - lo2);
        assert(s2.subrange(0, hi2 - lo2) =~= a@.subrange(lo2 as int, hi2 as int));
        assert(trimmed_name(replace_invalid(v@)) == b@);
    }
    let empty = b.len() == 0;
    let ghost tname = b@;
    let named: Vec<char> = if empty {
        vec!['u', 'n', 'n', 'a', 'm', 'e', 'd']
    } else {
        b
    };
    proof {
        if empty {
            assert(named@ =~= fallback_name());
        }
        assert(named@ == (if tname.len() == 0 {
            fallback_name()
        } else {
            tname
        }));
    }
    let over = named.len() > 200;
    let ghost nm = named@;
    let out: Vec<char> = if over {
        subvec(&named, 0, 200)
    } else {
        named
    };
    proof {
        if over {
            assert(nm.take(200) =~= nm.subrange(0, 200));
        }
        assert(out@ == sanitize_spec(filename@));
        assert forall|k: int| 0 <= k < out@.len() implies !is_invalid_filename_char(
            #[trigger] out@[k],
        ) by {
            assert(out@[k] == nm[k]);
            if tname.len() == 0 {
                assert(nm == fallback_name());
                assert(!is_invalid_filename_char(fallback_name()[k]));
            } else {
                assert(nm[k] == a@[lo2 + k]);
                assert(a@[lo2 + k] == w@[lo1 + lo2 + k]);
            }
        }
    }
    chars_to_string(&out)
}

} // verus!
