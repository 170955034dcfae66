use vstd::prelude::*;

verus! {

/// Where a signed index lands in a sequence of `n` items: a negative index
/// counts back from the end.
pub open spec fn resolve_relative(i: int, n: int) -> int {
    if i < 0 {
        n + i
    } else {
        i
    }
}

/// Resolves a possibly negative index against a length `n`.
pub fn adjust_idx(i: i32, n: usize) -> (r: usize)
    requires
        0 <= resolve_relative(i as int, n as int),
    ensures
        r as int == resolve_relative(i as int, n as int),
{
    if i < 0 {
        let back: usize = (-(i as i64)) as usize;
        n - back
    } else {
        i as usize
    }
}

/// A negative index resolves as the non-negative index it stands for; a
/// non-negative index is kept.
pub proof fn lemma_resolve_relative(i: int, n: int)
    requires
        i < 0 ==> n + i >= 0,
    ensures
        i < 0 ==> resolve_relative(i, n) == resolve_relative(n + i, n),
        i >= 0 ==> resolve_relative(i, n) == i,
{
}

} // verus!
