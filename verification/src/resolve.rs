//! Pure path-string logic: splitting off the final component, joining a
//! parent with a component, the component-wise prefix test, and extension
//! extraction. Everything here works on plain strings; no filesystem
//! access happens in this module.

use vstd::prelude::*;

use crate::sanitize::lemma_trim_back_subrange;
use crate::sanitize::trim_back;
use crate::strutil::chars_to_string;
use crate::strutil::str_to_chars;
use crate::strutil::subvec;
use vstd::string::StrSliceExecFns;
use vstd::string::StringExecFns;

verus! {

pub open spec fn slash_pred() -> spec_fn(char) -> bool {
    |c: char| c == '/'
}

/// `s` without its trailing separators.
pub open spec fn strip_trailing_slashes(s: Seq<char>) -> Seq<char> {
    trim_back(s, slash_pred())
}

/// Splits `t` into everything up to and including the last separator, and
/// the final run of non-separator characters.
pub open spec fn split_off_name(t: Seq<char>) -> (Seq<char>, Seq<char>)
    decreases t.len(),
{
    if t.len() == 0 {
        (Seq::<char>::empty(), Seq::<char>::empty())
    } else if t.last() == '/' {
        (t, Seq::<char>::empty())
    } else {
        let pn = split_off_name(t.drop_last());
        (pn.0, pn.1.push(t.last()))
    }
}

/// The parent directory and final component of a path: the path is split
/// at its last separator once trailing separators are dropped. `None` when
/// nothing remains (the root, or an empty string), which has no parent.
pub open spec fn split_parent_spec(q: Seq<char>) -> Option<(Seq<char>, Seq<char>)> {
    let t = strip_trailing_slashes(q);
    if t.len() == 0 {
        None
    } else {
        let pn = split_off_name(t);
        let parent = if pn.0.len() == 0 {
            Seq::<char>::empty()
        } else if pn.0.len() == 1 {
            pn.0
        } else {
            pn.0.drop_last()
        };
        Some((parent, pn.1))
    }
}

/// `parent` joined with a final component: a separator is added unless the
/// parent is empty or already ends with one.
pub open spec fn join_path_spec(parent: Seq<char>, name: Seq<char>) -> Seq<char> {
    if parent.len() == 0 {
        name
    } else if parent.last() == '/' {
        parent + name
    } else {
        parent + seq!['/'] + name
    }
}

/// Component-wise prefix on canonical paths: the candidate equals the root,
/// or extends it at a separator boundary, so that `/workspace-evil` does
/// not count as inside `/workspace`.
pub open spec fn is_within_root(p: Seq<char>, root: Seq<char>) -> bool {
    ||| p == root
    ||| (p.len() > root.len() && p.take(root.len() as int) == root && ((root.len() > 0
        && root.last() == '/') || p[root.len() as int] == '/'))
}

/// The extension of a bare file name: the part after the last dot, unless
/// the only dot is the leading character or there is none at all.
pub open spec fn ext_of_name(name: Seq<char>) -> Option<Seq<char>>
    decreases name.len(),
{
    if name.len() <= 1 {
        None
    } else if name.last() == '.' {
        Some(Seq::<char>::empty())
    } else {
        match ext_of_name(name.drop_last()) {
            Some(e) => Some(e.push(name.last())),
            None => None,
        }
    }
}

/// The extension of a path's final component.
pub open spec fn extension_of(p: Seq<char>) -> Option<Seq<char>> {
    ext_of_name(split_off_name(p).1)
}

fn strip_end(v: &Vec<char>) -> (r: usize)
    ensures
        r <= v@.len(),
        forall|j: int| r <= j < v@.len() ==> v@[j] == '/',
        r > 0 ==> v@[r - 1] != '/',
{
    let mut i: usize = v.len();
    while i > 0
        invariant
            i <= v@.len(),
            forall|j: int| i <= j < v@.len() ==> v@[j] == '/',
        decreases i,
    {
        if v[i - 1] != '/' {
            return i;
        }
        i = i - 1;
    }
    0
}

fn last_slash_before(v: &Vec<char>, end: usize) -> (r: Option<usize>)
    requires
        end <= v@.len(),
    ensures
        match r {
            Some(i) => i < end && v@[i as int] == '/' && forall|j: int|
                i < j < end ==> v@[j] != '/',
            None => forall|j: int| 0 <= j < end ==> v@[j] != '/',
        },
{
    let mut i: usize = end;
    while i > 0
        invariant
            i <= end,
            end <= v@.len(),
            forall|j: int| i <= j < end ==> v@[j] != '/',
        decreases i,
    {
        if v[i - 1] == '/' {
            return Some(i - 1);
        }
        i = i - 1;
    }
    None
}

proof fn lemma_split_off_name_at(t: Seq<char>, i: int)
    requires
        0 <= i < t.len(),
        t[i] == '/',
        forall|j: int| i < j < t.len() ==> t[j] != '/',
    ensures
        split_off_name(t) == (t.take(i + 1), t.skip(i + 1)),
    decreases t.len(),
{
    if i == t.len() - 1 {
        assert(t.take(i + 1) =~= t);
        assert(t.skip(i + 1) =~= Seq::<char>::empty());
    } else {
        assert(t.last() != '/');
        let u = t.drop_last();
        assert forall|j: int| i < j < u.len() implies u[j] != '/' by {
            assert(u[j] == t[j]);
        }
        assert(u[i] == t[i]);
        lemma_split_off_name_at(u, i);
        assert(u.take(i + 1) =~= t.take(i + 1));
        assert(u.skip(i + 1).push(t.last()) =~= t.skip(i + 1));
    }
}

proof fn lemma_split_off_name_noslash(t: Seq<char>)
    requires
        t.len() > 0,
        forall|j: int| 0 <= j < t.len() ==> t[j] != '/',
    ensures
        split_off_name(t) == (Seq::<char>::empty(), t),
    decreases t.len(),
{
    assert(t.last() != '/');
    if t.len() == 1 {
        assert(t.drop_last() =~= Seq::<char>::empty());
        assert(split_off_name(Seq::<char>::empty()) == (
            Seq::<char>::empty(),
            Seq::<char>::empty(),
        ));
        assert(Seq::<char>::empty().push(t.last()) =~= t);
    } else {
        let u = t.drop_last();
        assert forall|j: int| 0 <= j < u.len() implies u[j] != '/' by {
            assert(u[j] == t[j]);
        }
        lemma_split_off_name_noslash(u);
        assert(u.push(t.last()) =~= t);
    }
}

/// Splits a path into its parent directory and final component, the form
/// used to resolve a path that does not exist yet.
pub fn split_parent(q: &str) -> (r: Option<(String, String)>)
    ensures
        r is Some <==> split_parent_spec(q@) is Some,
        r matches Some(pn) ==> split_parent_spec(q@) == Some((pn.0@, pn.1@)),
{
    let v = str_to_chars(q);
    let end = strip_end(&v);
    proof {
        lemma_trim_back_subrange(v@, slash_pred(), end as int);
    }
    if end == 0 {
        return None;
    }
    let ghost t = v@.subrange(0, end as int);
    match last_slash_before(&v, end) {
        None => {
            proof {
                assert forall|j: int| 0 <= j < t.len() implies t[j] != '/' by {
                    assert(t[j] == v@[j]);
                }
                lemma_split_off_name_noslash(t);
            }
            let name = subvec(&v, 0, end);
            Some((String::new(), chars_to_string(&name)))
        },
        Some(i) => {
            proof {
                assert(t[i as int] == v@[i as int]);
                assert forall|j: int| i < j < t.len() implies t[j] != '/' by {
                    assert(t[j] == v@[j]);
                }
                lemma_split_off_name_at(t, i as int);
                assert(t.take(i + 1) =~= v@.subrange(0, i + 1));
                assert(t.skip(i + 1) =~= v@.subrange(i + 1, end as int));
            }
            let name = subvec(&v, i + 1, end);
            if i == 0 {
                let parent = subvec(&v, 0, 1);
                proof {
                    assert(t.take(1) =~= v@.subrange(0, 1));
                }
                Some((chars_to_string(&parent), chars_to_string(&name)))
            } else {
                let parent = subvec(&v, 0, i);
                proof {
                    assert(t.take(i + 1).drop_last() =~= v@.subrange(0, i as int));
                }
                Some((chars_to_string(&parent), chars_to_string(&name)))
            }
        },
    }
}

/// Joins a resolved parent directory with the final component.
pub fn join_path(parent: &str, name: &str) -> (r: String)
    ensures
        r@ == join_path_spec(parent@, name@),
{
    let n = parent.unicode_len();
    if n == 0 {
        String::from_str(name)
    } else if parent.get_char(n - 1) == '/' {
        String::from_str(parent).concat(name)
    } else {
        proof {
            reveal_strlit("/");
            assert("/"@ =~= seq!['/']);
        }
        String::from_str(parent).concat("/").concat(name)
    }
}

/// The component-wise prefix test on canonical paths.
pub fn path_is_within_root(candidate: &str, root: &str) -> (r: bool)
    ensures
        r == is_within_root(candidate@, root@),
{
    let p = str_to_chars(candidate);
    let q = str_to_chars(root);
    let np = p.len();
    let nq = q.len();
    if np < nq {
        return false;
    }
    let mut i: usize = 0;
    while i < nq
        invariant
            np == candidate@.len(),
            nq == root@.len(),
            nq <= np,
            p@ == candidate@,
            q@ == root@,
            i <= nq,
            forall|j: int| 0 <= j < i ==> p@[j] == q@[j],
        decreases nq - i,
    {
        if p[i] != q[i] {
            proof {
                assert(candidate@[i as int] != root@[i as int]);
                if candidate@ == root@ {
                    assert(candidate@[i as int] == root@[i as int]);
                }
                if candidate@.take(nq as int) == root@ {
                    assert(candidate@.take(nq as int)[i as int] == root@[i as int]);
                }
            }
            return false;
        }
        i = i + 1;
    }
    if np == nq {
        proof {
            assert(candidate@ =~= root@);
        }
        return true;
    }
    proof {
        assert(candidate@.take(nq as int) =~= root@);
    }
    if nq > 0 && q[nq - 1] == '/' {
        true
    } else {
        p[nq] == '/'
    }
}

proof fn lemma_ext_of_name_at(name: Seq<char>, k: int)
    requires
        1 <= k < name.len(),
        name[k] == '.',
        forall|j: int| k < j < name.len() ==> name[j] != '.',
    ensures
        ext_of_name(name) == Some(name.skip(k + 1)),
    decreases name.len(),
{
    if k == name.len() - 1 {
        assert(name.skip(k + 1) =~= Seq::<char>::empty());
    } else {
        assert(name.last() != '.');
        let u = name.drop_last();
        assert(u[k] == name[k]);
        assert forall|j: int| k < j < u.len() implies u[j] != '.' by {
            assert(u[j] == name[j]);
        }
        lemma_ext_of_name_at(u, k);
        assert(u.skip(k + 1).push(name.last()) =~= name.skip(k + 1));
    }
}

proof fn lemma_ext_of_name_none(name: Seq<char>)
    requires
        forall|j: int| 1 <= j < name.len() ==> name[j] != '.',
    ensures
        ext_of_name(name) is None,
    decreases name.len(),
{
    if name.len() <= 1 {
    } else {
        assert(name.last() != '.');
        let u = name.drop_last();
        assert forall|j: int| 1 <= j < u.len() implies u[j] != '.' by {
            assert(u[j] == name[j]);
        }
        lemma_ext_of_name_none(u);
    }
}

/// The extension of the path's final component, if any.
pub fn extension_of_path(p: &str) -> (r: Option<String>)
    ensures
        r is Some <==> extension_of(p@) is Some,
        r matches Some(e) ==> extension_of(p@) == Some(e@),
{
    let v = str_to_chars(p);
    let n = v.len();
    let start: usize = match last_slash_before(&v, n) {
        Some(i) => {
            proof {
                lemma_split_off_name_at(v@, i as int);
                assert(v@.skip(i + 1) =~= v@.subrange(i + 1, n as int));
            }
            i + 1
        },
        None => {
            proof {
                if n > 0 {
                    lemma_split_off_name_noslash(v@);
                }
                assert(v@.subrange(0, n as int) =~= v@);
            }
            0
        },
    };
    let name = subvec(&v, start, n);
    proof {
        assert(split_off_name(v@).1 == name@);
    }
    let m = name.len();
    let mut i: usize = m;
    while i > 1
        invariant
            m == name@.len(),
            i <= m,
            split_off_name(p@).1 == name@,
            forall|j: int| i <= j < m ==> name@[j] != '.',
        decreases i,
    {
        if name[i - 1] == '.' {
            proof {
                lemma_ext_of_name_at(name@, i - 1);
            }
            let e = subvec(&name, i, m);
            proof {
                assert(name@.skip(i as int) =~= name@.subrange(i as int, m as int));
            }
            return Some(chars_to_string(&e));
        }
        i = i - 1;
    }
    proof {
        lemma_ext_of_name_none(name@);
    }
    None
}

} // verus!
