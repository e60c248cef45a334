//! Path manipulation over plain strings: file names, parents, joins,
//! relative-path keys, and the ancestor/descendant guard used before a
//! tree diff.

use vstd::prelude::*;

verus! {

/// The index of the last occurrence of `c` in `s`, or -1 when absent.
pub open spec fn last_index_of(s: Seq<char>, c: char) -> int
    decreases s.len(),
{
    if s.len() == 0 {
        -1
    } else if s[s.len() - 1] == c {
        s.len() - 1
    } else {
        last_index_of(s.drop_last(), c)
    }
}

pub proof fn lemma_last_index_of_found(s: Seq<char>, c: char, j: int)
    requires
        0 <= j < s.len(),
        s[j] == c,
        forall|k: int| j < k < s.len() ==> s[k] != c,
    ensures
        last_index_of(s, c) == j,
    decreases s.len(),
{
    if j == s.len() - 1 {
    } else {
        assert(s.drop_last()[j] == c);
        lemma_last_index_of_found(s.drop_last(), c, j);
    }
}

pub proof fn lemma_last_index_of_absent(s: Seq<char>, c: char)
    requires
        forall|k: int| 0 <= k < s.len() ==> s[k] != c,
    ensures
        last_index_of(s, c) == -1,
    decreases s.len(),
{
    if s.len() > 0 {
        lemma_last_index_of_absent(s.drop_last(), c);
    }
}

/// The index of the last occurrence of `c` in `s`, if any.
pub fn find_last_char(s: &str, c: char) -> (r: Option<usize>)
    ensures
        match r {
            Some(j) => j < s@.len() && last_index_of(s@, c) == j,
            None => last_index_of(s@, c) == -1,
        },
{
    let n = s.unicode_len();
    let mut i = n;
    while i > 0
        invariant
            i <= n,
            n == s@.len(),
            forall|k: int| i <= k < s@.len() ==> s@[k] != c,
        decreases i,
    {
        i = i - 1;
        if s.get_char(i) == c {
            proof {
                lemma_last_index_of_found(s@, c, i as int);
            }
            return Some(i);
        }
    }
    proof {
        lemma_last_index_of_absent(s@, c);
    }
    None
}

/// The final component of a path: everything after the last `/`.
pub open spec fn file_name_of(p: Seq<char>) -> Seq<char> {
    p.skip(last_index_of(p, '/') + 1)
}

/// The path's final component starts with a dot marker.
pub open spec fn hidden_name(p: Seq<char>) -> bool {
    let i = last_index_of(p, '/');
    i + 1 < p.len() && p[i + 1] == '.'
}

/// Decides `hidden_name`.
pub fn is_hidden_path(s: &str) -> (r: bool)
    ensures
        r == hidden_name(s@),
{
    let n = s.unicode_len();
    match find_last_char(s, '/') {
        Some(j) => {
            if j + 1 < n {
                s.get_char(j + 1) == '.'
            } else {
                false
            }
        },
        None => {
            if n > 0 {
                s.get_char(0) == '.'
            } else {
                false
            }
        },
    }
}

/// The extension of a path's final component: what follows the last `.`,
/// or nothing when there is no `.` or the only `.` leads the component (a
/// hidden file has no extension).
pub open spec fn extension_of(p: Seq<char>) -> Option<Seq<char>> {
    let f = file_name_of(p);
    let d = last_index_of(f, '.');
    if d <= 0 {
        None
    } else {
        Some(f.skip(d + 1))
    }
}

/// The directory part of a path: everything before the last `/`, the root
/// `/` itself for entries directly below it, and the empty string for a
/// bare file name.
pub open spec fn parent_of(p: Seq<char>) -> Seq<char> {
    let i = last_index_of(p, '/');
    if i <= 0 {
        p.subrange(0, i + 1)
    } else {
        p.subrange(0, i)
    }
}

/// The directory part of a path (see `parent_of`).
pub fn parent_dir(s: &str) -> (r: String)
    ensures
        r@ == parent_of(s@),
{
    match find_last_char(s, '/') {
        Some(j) => {
            if j == 0 {
                s.substring_char(0, 1).to_owned()
            } else {
                s.substring_char(0, j).to_owned()
            }
        },
        None => {
            proof {
                assert(parent_of(s@) =~= Seq::<char>::empty());
            }
            String::new()
        },
    }
}

/// A path join: an absolute `name` stands alone; otherwise `name` goes
/// under `parent`, with a separator added unless one is already there.
pub open spec fn join_of(parent: Seq<char>, name: Seq<char>) -> Seq<char> {
    if name.len() > 0 && name[0] == '/' {
        name
    } else if parent.len() == 0 {
        name
    } else if parent[parent.len() - 1] == '/' {
        parent + name
    } else {
        parent + seq!['/'] + name
    }
}

/// Joins `name` onto `parent` (see `join_of`).
pub fn join_path(parent: &str, name: &str) -> (r: String)
    ensures
        r@ == join_of(parent@, name@),
{
    let name_len = name.unicode_len();
    let parent_len = parent.unicode_len();
    if name_len > 0 && name.get_char(0) == '/' {
        name.to_owned()
    } else if parent_len == 0 {
        name.to_owned()
    } else if parent.get_char(parent_len - 1) == '/' {
        let mut r = parent.to_owned();
        r.append(name);
        r
    } else {
        let mut r = parent.to_owned();
        r.append("/");
        r.append(name);
        proof {
            reveal_strlit("/");
            assert(parent@ + "/"@ + name@ =~= parent@ + seq!['/'] + name@);
        }
        r
    }
}

/// `p` names the same directory as `q` or an ancestor of it, comparing the
/// two as plain (already canonicalized) path strings.
pub open spec fn is_path_prefix(p: Seq<char>, q: Seq<char>) -> bool {
    ||| p == q
    ||| (p.len() < q.len() && q.subrange(0, p.len() as int) == p && (q[p.len() as int] == '/' || (
    p.len() > 0 && p[p.len() - 1] == '/')))
}

/// One of the two paths names an ancestor of the other (or they are equal).
pub open spec fn ancestor_related(a: Seq<char>, b: Seq<char>) -> bool {
    is_path_prefix(a, b) || is_path_prefix(b, a)
}

/// The first `n` characters of `p` and `q` agree.
fn chars_agree(p: &str, q: &str, n: usize) -> (r: bool)
    requires
        n <= p@.len(),
        n <= q@.len(),
    ensures
        r == (p@.subrange(0, n as int) == q@.subrange(0, n as int)),
{
    for i in 0..n
        invariant
            n <= p@.len(),
            n <= q@.len(),
            forall|k: int| 0 <= k < i ==> p@[k] == q@[k],
    {
        if p.get_char(i) != q.get_char(i) {
            proof {
                assert(p@.subrange(0, n as int)[i as int] != q@.subrange(0, n as int)[i as int]);
            }
            return false;
        }
    }
    proof {
        assert(p@.subrange(0, n as int) =~= q@.subrange(0, n as int));
    }
    true
}

/// Decides `is_path_prefix`.
pub fn path_is_prefix(p: &str, q: &str) -> (r: bool)
    ensures
        r == is_path_prefix(p@, q@),
{
    let pn = p.unicode_len();
    let qn = q.unicode_len();
    if pn == qn {
        let r = chars_agree(p, q, pn);
        proof {
            assert(p@.subrange(0, pn as int) =~= p@);
            assert(q@.subrange(0, qn as int) =~= q@);
        }
        r
    } else if pn < qn {
        if !chars_agree(p, q, pn) {
            proof {
                assert(p@.subrange(0, pn as int) =~= p@);
            }
            return false;
        }
        proof {
            assert(p@.subrange(0, pn as int) =~= p@);
        }
        q.get_char(pn) == '/' || (pn > 0 && p.get_char(pn - 1) == '/')
    } else {
        false
    }
}

/// The relative-path key of `path` under the root `base`: the remainder of
/// `path` once the `base` prefix and its separator are stripped, or nothing
/// when `path` does not lie under `base`.
pub open spec fn rel_path_of(base: Seq<char>, path: Seq<char>) -> Option<Seq<char>> {
    if path == base {
        Some(Seq::<char>::empty())
    } else if base.len() == 0 {
        Some(path)
    } else if base.len() < path.len() && path.subrange(0, base.len() as int) == base {
        if base[base.len() - 1] == '/' {
            Some(path.skip(base.len() as int))
        } else if path[base.len() as int] == '/' {
            Some(path.skip(base.len() as int + 1))
        } else {
            None
        }
    } else {
        None
    }
}

/// Computes the relative-path key of `path` under `base` (see
/// `rel_path_of`).
pub fn get_relative_path(base: &str, path: &str) -> (r: Option<String>)
    ensures
        match r {
            Some(rel) => rel_path_of(base@, path@) == Some(rel@),
            None => rel_path_of(base@, path@) is None,
        },
{
    let bn = base.unicode_len();
    let pn = path.unicode_len();
    if bn == pn {
        if chars_agree(base, path, bn) {
            proof {
                assert(base@.subrange(0, bn as int) =~= base@);
                assert(path@.subrange(0, pn as int) =~= path@);
            }
            Some(String::new())
        } else {
            proof {
                assert(base@.subrange(0, bn as int) =~= base@);
                assert(path@.subrange(0, pn as int) =~= path@);
            }
            if bn == 0 {
                return Some(path.to_owned());
            }
            None
        }
    } else if bn == 0 {
        Some(path.to_owned())
    } else if bn < pn && chars_agree(base, path, bn) {
        proof {
            assert(base@.subrange(0, bn as int) =~= base@);
        }
        if base.get_char(bn - 1) == '/' {
            let rel = path.substring_char(bn, pn).to_owned();
            proof {
                assert(path@.subrange(bn as int, pn as int) =~= path@.skip(bn as int));
            }
            Some(rel)
        } else if path.get_char(bn) == '/' {
            let rel = path.substring_char(bn + 1, pn).to_owned();
            proof {
                assert(path@.subrange(bn + 1, pn as int) =~= path@.skip(bn + 1));
            }
            Some(rel)
        } else {
            None
        }
    } else {
        if bn < pn {
            proof {
                assert(base@.subrange(0, bn as int) =~= base@);
            }
        }
        None
    }
}

} // verus!
