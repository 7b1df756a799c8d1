//! First and last positions satisfying a predicate, as spec functions with
//! their characterizing lemmas.

use vstd::prelude::*;

verus! {

/// The smallest `i < n` with `p(i)`, or `n` when there is none.
pub open spec fn first_where(n: int, p: spec_fn(int) -> bool) -> int
    decreases n,
{
    if n <= 0 {
        0
    } else {
        let f = first_where(n - 1, p);
        if f < n - 1 {
            f
        } else if p(n - 1) {
            n - 1
        } else {
            n
        }
    }
}

/// The largest `i < n` with `p(i)`, or `-1` when there is none.
pub open spec fn last_where(n: int, p: spec_fn(int) -> bool) -> int
    decreases n,
{
    if n <= 0 {
        -1
    } else if p(n - 1) {
        n - 1
    } else {
        last_where(n - 1, p)
    }
}

pub proof fn lemma_first_where(n: int, p: spec_fn(int) -> bool)
    requires
        n >= 0,
    ensures
        0 <= first_where(n, p) <= n,
        first_where(n, p) < n ==> p(first_where(n, p)),
        forall|j: int| 0 <= j < first_where(n, p) ==> !#[trigger] p(j),
    decreases n,
{
    if n > 0 {
        lemma_first_where(n - 1, p);
    }
}

/// `first_where` is the only position with its characterization.
pub proof fn lemma_first_where_unique(n: int, p: spec_fn(int) -> bool, i: int)
    requires
        0 <= i <= n,
        i < n ==> p(i),
        forall|j: int| 0 <= j < i ==> !#[trigger] p(j),
    ensures
        first_where(n, p) == i,
{
    lemma_first_where(n, p);
    let f = first_where(n, p);
    if f < i {
        assert(p(f));
    } else if i < f {
        assert(!p(i));
    }
}

pub proof fn lemma_last_where(n: int, p: spec_fn(int) -> bool)
    requires
        n >= 0,
    ensures
        -1 <= last_where(n, p) < n,
        last_where(n, p) >= 0 ==> p(last_where(n, p)),
        forall|j: int| last_where(n, p) < j < n ==> !#[trigger] p(j),
    decreases n,
{
    if n > 0 && !p(n - 1) {
        lemma_last_where(n - 1, p);
    }
}

pub proof fn lemma_last_where_unique(n: int, p: spec_fn(int) -> bool, i: int)
    requires
        -1 <= i < n,
        i >= 0 ==> p(i),
        forall|j: int| i < j < n ==> !#[trigger] p(j),
    ensures
        last_where(n, p) == i,
{
    lemma_last_where(n, p);
    let l = last_where(n, p);
    if l > i {
        assert(p(l));
    } else if l < i {
        assert(!p(i));
    }
}

} // verus!
