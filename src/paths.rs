//! Joining relative paths onto a base directory, as text.

use vstd::prelude::*;

verus! {

/// `rel` placed under the directory `base`, with one `/` between them.
pub open spec fn path_join(base: Seq<char>, rel: Seq<char>) -> Seq<char> {
    if base.len() == 0 {
        rel
    } else if base.last() == '/' {
        base + rel
    } else {
        base + seq!['/'] + rel
    }
}

/// Places `rel` under the directory `base`.
pub fn join_path(base: &str, rel: &str) -> (r: String)
    ensures
        r@ == path_join(base@, rel@),
{
    if base.is_empty() {
        return rel.to_owned();
    }
    let n = base.unicode_len();
    let last = base.get_char(n - 1);
    let mut path = base.to_owned();
    if last != '/' {
        path.append("/");
        proof {
            reveal_strlit("/");
        }
    }
    path.append(rel);
    path
}

} // verus!
