//! Selecting the first maximal entry of a sequence of optional scores.
use vstd::prelude::*;

verus! {

/// The largest score present among the first `n` entries, if any.
pub open spec fn top_upto(s: Seq<Option<int>>, n: int) -> Option<int>
    decreases n,
{
    if n <= 0 {
        None
    } else {
        let t = top_upto(s, n - 1);
        match s[n - 1] {
            None => t,
            Some(v) => match t {
                None => Some(v),
                Some(w) => Some(
                    if v > w {
                        v
                    } else {
                        w
                    },
                ),
            },
        }
    }
}

/// The largest score present in `s`, or `None` when every entry is `None`.
pub open spec fn top(s: Seq<Option<int>>) -> Option<int> {
    top_upto(s, s.len() as int)
}

/// `i` is the earliest position of `s[..n]` that holds the largest score.
pub open spec fn is_first_top_upto(s: Seq<Option<int>>, n: int, i: int) -> bool {
    &&& 0 <= i < n
    &&& s[i] is Some
    &&& s[i] == top_upto(s, n)
    &&& forall|j: int| 0 <= j < i ==> s[j] != top_upto(s, n)
}

/// `i` is the earliest position of `s` that holds the largest score.
pub open spec fn is_first_top(s: Seq<Option<int>>, i: int) -> bool {
    is_first_top_upto(s, s.len() as int, i)
}

/// Every present score in `s[..n]` is at most the top, and the top is present.
pub proof fn lemma_top_upto_bounds(s: Seq<Option<int>>, n: int)
    requires
        0 <= n <= s.len(),
    ensures
        forall|j: int| 0 <= j < n && s[j] is Some ==> top_upto(s, n) is Some && s[j]->0 <= top_upto(
            s,
            n,
        )->0,
        top_upto(s, n) is None <==> forall|j: int| 0 <= j < n ==> s[j] is None,
    decreases n,
{
    if n > 0 {
        lemma_top_upto_bounds(s, n - 1);
    }
}

/// Extending a prefix by one entry: the running first-top choice is updated
/// exactly when the new entry is strictly larger than the running top.
pub proof fn lemma_top_step(s: Seq<Option<int>>, n: int, best: Option<int>)
    requires
        0 <= n < s.len(),
        best is None <==> top_upto(s, n) is None,
        best matches Some(b) ==> is_first_top_upto(s, n, b),
    ensures
        ({
            let next = match s[n] {
                Some(v) => match top_upto(s, n) {
                    None => Some(n),
                    Some(w) => if v > w {
                        Some(n)
                    } else {
                        best
                    },
                },
                None => best,
            };
            &&& next is None <==> top_upto(s, n + 1) is None
            &&& next matches Some(b) ==> is_first_top_upto(s, n + 1, b)
        }),
{
    lemma_top_upto_bounds(s, n);
    lemma_top_upto_bounds(s, n + 1);
}

} // verus!
