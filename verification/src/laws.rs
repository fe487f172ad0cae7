//! The engine's governing laws, each proved from the contracts the
//! operations already state.

use vstd::prelude::*;
use crate::items::Item;
use crate::screen::{
    fit_end_scroll, fit_start_scroll, lemma_first_idx_from_props, lemma_last_idx_below_props,
    nav_ok, next_cursor, prev_cursor, row_hidden, row_visible, scan_after_row, scan_depth,
    visible_seq,
};
use crate::tree::{lemma_depth_contiguity, subtree_end};

verus! {

// ---------------------------------------------------------------------
// Scan-state helpers.
// ---------------------------------------------------------------------

/// Adding an identity that no section among the first `n` rows carries
/// leaves the scan state over those rows unchanged.
proof fn lemma_scan_eq_from(
    items: Seq<Item>,
    c1: Set<Seq<char>>,
    c2: Set<Seq<char>>,
    id: Seq<char>,
    s: int,
    n: int,
)
    requires
        c2 == c1.insert(id),
        scan_depth(items, c1, s) == scan_depth(items, c2, s),
        forall|j: int| s <= j < n && #[trigger] items[j].section ==> items[j].id@ != id,
        0 <= s <= n,
    ensures
        scan_depth(items, c1, n) == scan_depth(items, c2, n),
    decreases n - s,
{
    if n > s {
        lemma_scan_eq_from(items, c1, c2, id, s, n - 1);
        assert(scan_after_row(items[n - 1], c1) == scan_after_row(items[n - 1], c2));
    }
}

/// Inside a run of rows strictly deeper than `d`, an active collapse at
/// depth `d` persists and hides every row of the run.
proof fn lemma_scan_inside_collapsed(items: Seq<Item>, c2: Set<Seq<char>>, i: int, d: int, k: int)
    requires
        scan_depth(items, c2, i + 1) == Some(d),
        forall|j: int| i < j < k ==> #[trigger] items[j].depth > d,
        i + 1 <= k,
    ensures
        scan_depth(items, c2, k) == Some(d),
    decreases k - i,
{
    if k > i + 1 {
        lemma_scan_inside_collapsed(items, c2, i, d, k - 1);
    }
}

/// Inside a run of rows strictly deeper than `d`, a scan that enters the
/// run with no active collapse keeps its active depth, if any, above `d`.
proof fn lemma_scan_inside_open(items: Seq<Item>, c1: Set<Seq<char>>, i: int, d: int, k: int)
    requires
        scan_depth(items, c1, i + 1) is None,
        forall|j: int| i < j < k ==> #[trigger] items[j].depth > d,
        i + 1 <= k,
    ensures
        match scan_depth(items, c1, k) {
            Some(dd) => dd > d,
            None => true,
        },
    decreases k - i,
{
    if k > i + 1 {
        lemma_scan_inside_open(items, c1, i, d, k - 1);
    }
}

// ---------------------------------------------------------------------
// The laws.
// ---------------------------------------------------------------------

/// Collapsing a visible section hides exactly its subtree: the maximal run
/// of subsequent rows strictly deeper than the section. The header itself
/// and every row outside the run keep the visibility they had.
pub proof fn lemma_collapse_hides_subtree(items: Seq<Item>, ids: Set<Seq<char>>, i: int)
    requires
        0 <= i < items.len(),
        items[i].section,
        row_visible(items, ids, i),
        !ids.contains(items[i].id@),
        forall|j: int|
            0 <= j < items.len() && j != i && #[trigger] items[j].section
                ==> items[j].id@ != items[i].id@,
    ensures
        forall|k: int|
            0 <= k < items.len()
                ==> (#[trigger] row_visible(items, ids.insert(items[i].id@), k)
                    <==> row_visible(items, ids, k) && !(i < k < subtree_end(items, i))),
{
    let id = items[i].id@;
    let c2 = ids.insert(id);
    let d = items[i].depth as int;
    let end = subtree_end(items, i);
    lemma_depth_contiguity(items, i);
    assert forall|k: int| 0 <= k < items.len() implies (#[trigger] row_visible(items, c2, k)
        <==> row_visible(items, ids, k) && !(i < k < end)) by {
        if k <= i {
            lemma_scan_eq_from(items, ids, c2, id, 0, k);
        } else {
            lemma_scan_eq_from(items, ids, c2, id, 0, i);
            // row i is yielded by both scans; only the new registry opens a
            // hidden region at its depth
            assert(row_visible(items, c2, i));
            assert(scan_depth(items, c2, i + 1) == Some(d));
            assert(scan_depth(items, ids, i + 1) is None);
            if k < end {
                lemma_scan_inside_collapsed(items, c2, i, d, k);
                assert(items[k].depth > d);
                assert(row_hidden(items, c2, k));
            } else {
                // the first row at or above the section's depth closes the
                // region in the new scan and is visible in both
                lemma_scan_inside_collapsed(items, c2, i, d, end);
                lemma_scan_inside_open(items, ids, i, d, end);
                assert(end < items.len() ==> items[end].depth <= d);
                if k == end {
                    assert(row_visible(items, c2, k));
                    assert(row_visible(items, ids, k));
                } else {
                    assert(scan_depth(items, c2, end + 1) == scan_after_row(items[end], c2));
                    assert(scan_depth(items, ids, end + 1) == scan_after_row(items[end], ids));
                    assert(scan_after_row(items[end], c2) == scan_after_row(items[end], ids));
                    lemma_scan_eq_from(items, ids, c2, id, end + 1, k);
                }
            }
        }
    }
}

/// Navigation skips unselectable and hidden rows: the next cursor is the
/// first visible selectable row strictly after the old one, or the old one
/// when none exists; the previous cursor symmetrically.
pub proof fn lemma_navigation_skips(items: Seq<Item>, ids: Set<Seq<char>>, c: int)
    requires
        0 <= c,
    ensures
        ({
            let nc = next_cursor(items, ids, c);
            &&& (nc != c ==> c < nc < items.len() && row_visible(items, ids, nc)
                && !items[nc].unselectable)
            &&& (nc != c ==> forall|j: int|
                c < j < nc ==> !(#[trigger] row_visible(items, ids, j)
                    && !items[j].unselectable))
            &&& (nc == c ==> forall|j: int|
                c < j < items.len() ==> !(#[trigger] row_visible(items, ids, j)
                    && !items[j].unselectable))
        }),
        ({
            let pc = prev_cursor(items, ids, c);
            &&& (pc != c ==> 0 <= pc < c && row_visible(items, ids, pc)
                && !items[pc].unselectable)
            &&& (pc != c ==> forall|j: int|
                pc < j < c ==> !(#[trigger] row_visible(items, ids, j)
                    && !items[j].unselectable))
            &&& (pc == c ==> forall|j: int|
                0 <= j < c ==> !(#[trigger] row_visible(items, ids, j)
                    && !items[j].unselectable))
        }),
{
    let p = nav_ok(items, ids);
    lemma_first_idx_from_props(items.len() as int, c + 1, p);
    lemma_last_idx_below_props(c, p);
    assert forall|j: int|
        (#[trigger] row_visible(items, ids, j) && !items[j].unselectable) == p(j) by {}
}

/// Applying end-fit then start-fit a second time, for the same cursor and
/// viewport, leaves the scroll where the first application put it.
pub proof fn lemma_scroll_fit_idempotent(
    items: Seq<Item>,
    ids: Set<Seq<char>>,
    c: int,
    height: int,
    scroll: int,
)
    ensures
        ({
            let once = fit_start_scroll(
                items,
                ids,
                c,
                fit_end_scroll(items, ids, c, height, scroll),
            );
            let twice = fit_start_scroll(
                items,
                ids,
                c,
                fit_end_scroll(items, ids, c, height, once),
            );
            twice == once
        }),
{
}

/// Toggling the same section twice restores the registry's membership and
/// with it the collapsed view.
pub proof fn lemma_toggle_round_trip(items: Seq<Item>, ids: Set<Seq<char>>, id: Seq<char>)
    ensures
        ({
            let once = if ids.contains(id) {
                ids.remove(id)
            } else {
                ids.insert(id)
            };
            let twice = if once.contains(id) {
                once.remove(id)
            } else {
                once.insert(id)
            };
            &&& twice == ids
            &&& visible_seq(items, twice) == visible_seq(items, ids)
        }),
{
    let once = if ids.contains(id) {
        ids.remove(id)
    } else {
        ids.insert(id)
    };
    let twice = if once.contains(id) {
        once.remove(id)
    } else {
        once.insert(id)
    };
    assert(twice =~= ids);
}

} // verus!
