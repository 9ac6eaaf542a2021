//! A plain string model of filesystem paths.
//!
//! Paths are sequences of characters separated by `'/'`.  The functions here
//! are the only path arithmetic the crate performs: joining a directory with
//! an entry name, taking the final component of a path, and expanding a
//! leading `~/` against a home directory.

use vstd::prelude::*;

verus! {

/// Whether `p` ends in a path separator.
pub open spec fn spec_ends_with_slash(p: Seq<char>) -> bool {
    p.len() > 0 && p[p.len() - 1] == '/'
}

/// `dir` and `name` joined with a single separator between them.
pub open spec fn spec_join(dir: Seq<char>, name: Seq<char>) -> Seq<char> {
    if spec_ends_with_slash(dir) {
        dir + name
    } else {
        dir + "/"@ + name
    }
}

/// `p` with every trailing separator removed.
pub open spec fn spec_strip_trailing_slashes(p: Seq<char>) -> Seq<char>
    decreases p.len(),
{
    if p.len() > 0 && p[p.len() - 1] == '/' {
        spec_strip_trailing_slashes(p.drop_last())
    } else {
        p
    }
}

/// Index of the last separator in `p`, or `-1` if there is none.
pub open spec fn spec_last_slash(p: Seq<char>) -> int
    decreases p.len(),
{
    if p.len() == 0 {
        -1
    } else if p[p.len() - 1] == '/' {
        p.len() - 1
    } else {
        spec_last_slash(p.drop_last())
    }
}

/// The final component of `p`: what follows the last separator once trailing
/// separators are dropped, or `None` when nothing is left (the root path, the
/// empty path).
pub open spec fn spec_basename(p: Seq<char>) -> Option<Seq<char>> {
    let q = spec_strip_trailing_slashes(p);
    if q.len() == 0 {
        None
    } else {
        Some(q.subrange(spec_last_slash(q) + 1, q.len() as int))
    }
}

/// Whether `p` starts with the home-directory shorthand `~/`.
pub open spec fn spec_has_tilde_prefix(p: Seq<char>) -> bool {
    p.len() >= 2 && p[0] == '~' && p[1] == '/'
}

/// `p` with a leading `~/` replaced by the home directory `home`; any other
/// path is returned unchanged.
pub open spec fn spec_expand_tilde_with(p: Seq<char>, home: Seq<char>) -> Seq<char> {
    if spec_has_tilde_prefix(p) {
        spec_join(home, p.subrange(2, p.len() as int))
    } else {
        p
    }
}

fn ends_with_slash(p: &str) -> (r: bool)
    ensures
        r == spec_ends_with_slash(p@),
{
    let n = p.unicode_len();
    if n == 0 {
        false
    } else {
        p.get_char(n - 1) == '/'
    }
}

/// Join a directory path and an entry name with a single separator.
pub fn join_path(dir: &str, name: &str) -> (r: String)
    ensures
        r@ == spec_join(dir@, name@),
{
    let mut out = String::from_str(dir);
    if !ends_with_slash(dir) {
        out.append("/");
    }
    out.append(name);
    out
}

proof fn lemma_last_slash_from_suffix(q: Seq<char>, i: int)
    requires
        0 <= i <= q.len(),
        forall|k: int| i <= k < q.len() ==> q[k] != '/',
        i == 0 || q[i - 1] == '/',
    ensures
        spec_last_slash(q) == i - 1,
    decreases q.len(),
{
    if q.len() == i {
        if i != 0 {
            assert(q[q.len() - 1] == '/');
        }
    } else {
        assert(q[q.len() - 1] != '/');
        lemma_last_slash_from_suffix(q.drop_last(), i);
    }
}

/// The final component of `path`, as [`spec_basename`] defines it.
pub fn basename_of(path: &str) -> (r: Option<String>)
    ensures
        r matches Some(s) ==> spec_basename(path@) == Some(s@),
        r is None ==> spec_basename(path@) is None,
{
    let n = path.unicode_len();
    let mut end = n;
    proof {
        assert(path@.subrange(0, n as int) =~= path@);
    }
    while end > 0 && path.get_char(end - 1) == '/'
        invariant
            0 <= end <= n,
            n == path@.len(),
            spec_strip_trailing_slashes(path@) == spec_strip_trailing_slashes(
                path@.subrange(0, end as int),
            ),
        decreases end,
    {
        proof {
            assert(path@.subrange(0, end as int).drop_last() =~= path@.subrange(
                0,
                end as int - 1,
            ));
        }
        end = end - 1;
    }
    let ghost q = path@.subrange(0, end as int);
    proof {
        assert(spec_strip_trailing_slashes(q) == q);
    }
    if end == 0 {
        proof {
            assert(q.len() == 0);
        }
        return None;
    }
    let mut i = end;
    while i > 0 && path.get_char(i - 1) != '/'
        invariant
            0 <= i <= end <= n,
            n == path@.len(),
            forall|k: int| i <= k < end ==> path@[k] != '/',
        decreases i,
    {
        i = i - 1;
    }
    proof {
        assert(forall|k: int| i <= k < end ==> q[k] != '/');
        lemma_last_slash_from_suffix(q, i as int);
    }
    let base = path.substring_char(i, end);
    proof {
        assert(base@ =~= q.subrange(spec_last_slash(q) + 1, q.len() as int));
    }
    Some(String::from_str(base))
}

fn has_tilde_prefix(p: &str) -> (r: bool)
    ensures
        r == spec_has_tilde_prefix(p@),
{
    let n = p.unicode_len();
    n >= 2 && p.get_char(0) == '~' && p.get_char(1) == '/'
}

/// Expand a leading `~/` in `path` against the home directory `home`.
pub fn expand_tilde_with(path: &str, home: &str) -> (r: String)
    ensures
        r@ == spec_expand_tilde_with(path@, home@),
{
    if has_tilde_prefix(path) {
        let n = path.unicode_len();
        let rest = path.substring_char(2, n);
        join_path(home, rest)
    } else {
        String::from_str(path)
    }
}

} // verus!
