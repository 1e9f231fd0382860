//! Parent computation on string-shaped paths.
//!
//! The model is deliberately simple: a path's parent is everything before
//! its last `/` separator, the parent of a top-level entry such as `/a` is
//! the root `/`, and the root itself and separator-free names have no
//! parent.

use vstd::prelude::*;

verus! {

/// Index of the last `/` strictly before position `i`, or -1 when there
/// is none.
pub open spec fn last_sep(p: Seq<char>, i: int) -> int
    decreases i,
{
    if i <= 0 {
        -1
    } else if p[i - 1] == '/' {
        i - 1
    } else {
        last_sep(p, i - 1)
    }
}

/// The parent of `p`, when it has one.
pub open spec fn parent_spec(p: Seq<char>) -> Option<Seq<char>> {
    let k = last_sep(p, p.len() as int);
    if k < 0 {
        None
    } else if k == 0 {
        if p.len() == 1 {
            None
        } else {
            Some(p.subrange(0, 1))
        }
    } else {
        Some(p.subrange(0, k))
    }
}

/// The parent of `path` as [`parent_spec`] gives it, or `None` when the
/// path has no parent.
pub fn parent_of(path: &str) -> (res: Option<String>)
    ensures
        res is Some <==> parent_spec(path@) is Some,
        res matches Some(parent) ==> parent_spec(path@) == Some(parent@),
{
    let n = path.unicode_len();
    let mut i: usize = n;
    while i > 0 && path.get_char(i - 1) != '/'
        invariant
            n == path@.len(),
            i <= n,
            last_sep(path@, n as int) == last_sep(path@, i as int),
        decreases i,
    {
        i = i - 1;
    }
    if i == 0 {
        proof {
            assert(last_sep(path@, 0) == -1);
        }
        return None;
    }
    let k = i - 1;
    proof {
        assert(last_sep(path@, i as int) == k as int);
    }
    if k == 0 {
        if n == 1 {
            None
        } else {
            Some(String::from_str(path.substring_char(0, 1)))
        }
    } else {
        Some(String::from_str(path.substring_char(0, k)))
    }
}

} // verus!
