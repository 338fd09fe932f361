//! Index searches used to state the parser's contracts: the first index in a
//! range where a predicate holds, and how far down a predicate keeps holding.
use vstd::prelude::*;

verus! {

/// The first index in `lo..hi` where `p` holds, or `hi` when there is none.
pub open spec fn first_where(p: spec_fn(int) -> bool, lo: int, hi: int) -> int
    decreases hi - lo,
{
    if lo >= hi {
        hi
    } else if p(lo) {
        lo
    } else {
        first_where(p, lo + 1, hi)
    }
}

pub proof fn lemma_first_where(p: spec_fn(int) -> bool, lo: int, hi: int)
    requires
        lo <= hi,
    ensures
        lo <= first_where(p, lo, hi) <= hi,
        first_where(p, lo, hi) < hi ==> p(first_where(p, lo, hi)),
        forall|j: int| lo <= j < first_where(p, lo, hi) ==> !#[trigger] p(j),
    decreases hi - lo,
{
    if lo < hi && !p(lo) {
        lemma_first_where(p, lo + 1, hi);
    }
}

/// The smallest `k <= hi` such that `p` holds on all of `k..hi`
/// (scanning down from `hi` while `p` holds).
pub open spec fn down_while(p: spec_fn(int) -> bool, hi: int) -> int
    decreases hi,
{
    if hi <= 0 {
        0
    } else if p(hi - 1) {
        down_while(p, hi - 1)
    } else {
        hi
    }
}

pub proof fn lemma_down_while(p: spec_fn(int) -> bool, hi: int)
    requires
        0 <= hi,
    ensures
        0 <= down_while(p, hi) <= hi,
        forall|j: int| down_while(p, hi) <= j < hi ==> #[trigger] p(j),
        down_while(p, hi) > 0 ==> !p(down_while(p, hi) - 1),
    decreases hi,
{
    if hi > 0 && p(hi - 1) {
        lemma_down_while(p, hi - 1);
    }
}

} // verus!
