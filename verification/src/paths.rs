//! The path model: a path is a plain string whose components are separated
//! by `/`. Joining appends a separator and a child component; the parent of
//! a path is everything before its last separator, and a path without a
//! separator (a bare file name) has no parent.

use vstd::prelude::*;
use vstd::string::StrSliceExecFns;
use vstd::string::StringExecFns;

verus! {

/// The characters of `base`, a separator, and the characters of `child`.
pub open spec fn join_seq(base: Seq<char>, child: Seq<char>) -> Seq<char> {
    base + seq!['/'] + child
}

/// Index of the last separator in `p`, if `p` has one.
pub open spec fn last_separator(p: Seq<char>) -> Option<int>
    decreases p.len(),
{
    if p.len() <= 0 {
        None
    } else if p[p.len() - 1] == '/' {
        Some(p.len() - 1)
    } else {
        last_separator(p.drop_last())
    }
}

/// The parent of `p`: everything before the last separator; a path without
/// a separator has no parent.
pub open spec fn parent_seq(p: Seq<char>) -> Option<Seq<char>> {
    match last_separator(p) {
        Some(i) => Some(p.take(i)),
        None => None,
    }
}

/// Appends `/` and `child` to `base`.
pub fn join_path(base: &str, child: &str) -> (r: String)
    ensures
        r@ == join_seq(base@, child@),
{
    let mut s = base.to_owned();
    s.append("/");
    s.append(child);
    proof {
        reveal_strlit("/");
        assert(s@ =~= join_seq(base@, child@));
    }
    s
}

/// The directory containing `p`, or `None` for a bare file name.
pub fn parent_path(p: &str) -> (r: Option<String>)
    ensures
        match r {
            Some(q) => parent_seq(p@) == Some(q@),
            None => parent_seq(p@) is None,
        },
{
    let n = p.unicode_len();
    proof {
        assert(p@.take(n as int) =~= p@);
    }
    let mut i: usize = n;
    while i > 0
        invariant
            i <= n,
            n == p@.len(),
            last_separator(p@) == last_separator(p@.take(i as int)),
        decreases i,
    {
        let c = p.get_char(i - 1);
        if c == '/' {
            let parent = p.substring_char(0, i - 1);
            proof {
                assert(last_separator(p@.take(i as int)) == Some(i - 1 as int));
                assert(parent@ =~= p@.take(i - 1 as int));
            }
            return Some(parent.to_owned());
        }
        proof {
            assert(p@.take(i as int).drop_last() =~= p@.take(i - 1 as int));
        }
        i = i - 1;
    }
    proof {
        assert(last_separator(p@.take(0int)) is None);
    }
    None
}

} // verus!
