//! Searching the positions `0..n` for the first or the last one that satisfies a
//! predicate.
use vstd::prelude::*;

verus! {

/// The least `j < n` for which `p(j)` holds.
pub open spec fn first_index(n: int, p: spec_fn(int) -> bool) -> Option<int>
    decreases n,
{
    if n <= 0 {
        None
    } else {
        match first_index(n - 1, p) {
            Some(j) => Some(j),
            None => if p(n - 1) {
                Some(n - 1)
            } else {
                None
            },
        }
    }
}

pub proof fn lemma_first_index(n: int, p: spec_fn(int) -> bool)
    ensures
        first_index(n, p) matches Some(j) ==> 0 <= j < n && p(j) && forall|k: int|
            0 <= k < j ==> !#[trigger] p(k),
        first_index(n, p) is None ==> forall|k: int| 0 <= k < n ==> !#[trigger] p(k),
    decreases n,
{
    if n > 0 {
        lemma_first_index(n - 1, p);
    }
}

/// A position that satisfies `p`, with none before it, is the first index.
pub proof fn lemma_first_index_at(n: int, p: spec_fn(int) -> bool, j: int)
    requires
        0 <= j < n,
        p(j),
        forall|k: int| 0 <= k < j ==> !#[trigger] p(k),
    ensures
        first_index(n, p) == Some(j),
    decreases n,
{
    if n - 1 > j {
        lemma_first_index_at(n - 1, p, j);
    } else {
        lemma_first_index(n - 1, p);
    }
}

/// A first index found among the first `k` stays the first among more.
pub proof fn lemma_first_index_extend(k: int, n: int, p: spec_fn(int) -> bool)
    requires
        k <= n,
        first_index(k, p) is Some,
    ensures
        first_index(n, p) == first_index(k, p),
    decreases n - k,
{
    if k < n {
        lemma_first_index_extend(k, n - 1, p);
    }
}

/// Two predicates that agree below `n` have the same first index below `n`.
pub proof fn lemma_first_index_same(n: int, p: spec_fn(int) -> bool, q: spec_fn(int) -> bool)
    requires
        forall|k: int| 0 <= k < n ==> #[trigger] p(k) == q(k),
    ensures
        first_index(n, p) == first_index(n, q),
    decreases n,
{
    if n > 0 {
        lemma_first_index_same(n - 1, p, q);
    }
}

/// The greatest `j < n` for which `p(j)` holds.
pub open spec fn last_index(n: int, p: spec_fn(int) -> bool) -> Option<int>
    decreases n,
{
    if n <= 0 {
        None
    } else if p(n - 1) {
        Some(n - 1)
    } else {
        last_index(n - 1, p)
    }
}

pub proof fn lemma_last_index(n: int, p: spec_fn(int) -> bool)
    ensures
        last_index(n, p) matches Some(j) ==> 0 <= j < n && p(j) && forall|k: int|
            j < k < n ==> !#[trigger] p(k),
        last_index(n, p) is None ==> forall|k: int| 0 <= k < n ==> !#[trigger] p(k),
    decreases n,
{
    if n > 0 {
        lemma_last_index(n - 1, p);
    }
}

/// A position where `p` holds, with `p` failing at every later position, is the last.
pub proof fn lemma_last_index_at(n: int, p: spec_fn(int) -> bool, j: int)
    requires
        0 <= j < n,
        p(j),
        forall|k: int| j < k < n ==> !#[trigger] p(k),
    ensures
        last_index(n, p) == Some(j),
    decreases n,
{
    if n - 1 > j {
        assert(!p(n - 1));
        lemma_last_index_at(n - 1, p, j);
    }
}

/// Where `p` holds nowhere below `n`, there is no last position.
pub proof fn lemma_last_index_none(n: int, p: spec_fn(int) -> bool)
    requires
        forall|k: int| 0 <= k < n ==> !#[trigger] p(k),
    ensures
        last_index(n, p) is None,
    decreases n,
{
    if n > 0 {
        assert(!p(n - 1));
        lemma_last_index_none(n - 1, p);
    }
}

} // verus!
