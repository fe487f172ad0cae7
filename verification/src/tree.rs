//! Index/depth arithmetic over the flattened item tree: subtree extents
//! and the contiguity law they obey.

use vstd::prelude::*;
use crate::items::Item;

verus! {

/// Tree well-formedness: the flat sequence is a valid pre-order traversal
/// of a forest — the first row sits at depth zero and the depth never
/// increases by more than one between adjacent rows.
pub open spec fn forest_wf(items: Seq<Item>) -> bool {
    &&& items.len() > 0 ==> items[0].depth == 0
    &&& forall|i: int|
        0 <= i < items.len() - 1 ==> #[trigger] items[i + 1].depth <= items[i].depth + 1
}

/// The first index at or after `k` whose row has depth at most `d`, or the
/// sequence's end if there is none.
pub open spec fn run_end(items: Seq<Item>, d: int, k: int) -> int
    decreases items.len() - k,
{
    if k < 0 || k >= items.len() {
        items.len() as int
    } else if items[k].depth <= d {
        k
    } else {
        run_end(items, d, k + 1)
    }
}

/// One past the last row of `r`'s subtree: its descendants are exactly the
/// rows strictly between `r` and `subtree_end(items, r)`.
pub open spec fn subtree_end(items: Seq<Item>, r: int) -> int {
    run_end(items, items[r].depth as int, r + 1)
}

proof fn lemma_run_end(items: Seq<Item>, d: int, k: int)
    requires
        0 <= k <= items.len(),
    ensures
        k <= run_end(items, d, k) <= items.len(),
        forall|j: int| k <= j < run_end(items, d, k) ==> #[trigger] items[j].depth > d,
        run_end(items, d, k) < items.len() ==> items[run_end(items, d, k)].depth <= d,
    decreases items.len() - k,
{
    if k < items.len() && items[k].depth > d {
        lemma_run_end(items, d, k + 1);
    }
}

/// Depth contiguity: every row's children — the rows immediately following
/// it with strictly greater depth — form a contiguous run that ends exactly
/// at the first subsequent row whose depth is at or below the row's own.
pub proof fn lemma_depth_contiguity(items: Seq<Item>, r: int)
    requires
        0 <= r < items.len(),
    ensures
        r < subtree_end(items, r) <= items.len(),
        forall|k: int|
            r < k < subtree_end(items, r) ==> #[trigger] items[k].depth > items[r].depth,
        subtree_end(items, r) < items.len()
            ==> items[subtree_end(items, r)].depth <= items[r].depth,
{
    lemma_run_end(items, items[r].depth as int, r + 1);
}

} // verus!
