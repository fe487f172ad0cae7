//! The viewport engine: the flat ordered item sequence, the collapse
//! registry, the cursor, and the scroll offset, with the operations that
//! navigate, collapse and refresh them.

use vstd::prelude::*;
use crate::items::{Item, TargetData};

verus! {

// ---------------------------------------------------------------------
// The collapse registry.
// ---------------------------------------------------------------------

/// Whether `id` is a member of the collapse registry.
pub open spec fn registry_has(coll: Seq<String>, id: Seq<char>) -> bool {
    exists|i: int| 0 <= i < coll.len() && coll[i]@ == id
}

/// The registry as a set of identities; membership is its only state.
pub open spec fn registry_set(coll: Seq<String>) -> Set<Seq<char>> {
    Set::new(|id: Seq<char>| registry_has(coll, id))
}

/// No identity occurs twice in the registry vector.
pub open spec fn registry_wf(coll: Seq<String>) -> bool {
    forall|i: int, j: int| 0 <= i < j < coll.len() ==> coll[i]@ != coll[j]@
}

// ---------------------------------------------------------------------
// The collapsed view: a single forward scan with an active collapse depth.
// ---------------------------------------------------------------------

/// The state a row leaves behind for the scan: a collapsed section opens a
/// hidden region extending over all strictly deeper rows.
pub open spec fn scan_after_row(it: Item, coll: Set<Seq<char>>) -> Option<int> {
    if it.section && coll.contains(it.id@) {
        Some(it.depth as int)
    } else {
        None
    }
}

/// The active collapse depth just before row `n` is considered: `Some(d)`
/// when a collapsed section of depth `d` is still hiding deeper rows.
pub open spec fn scan_depth(items: Seq<Item>, coll: Set<Seq<char>>, n: int) -> Option<int>
    decreases n,
{
    if n <= 0 {
        None
    } else {
        match scan_depth(items, coll, n - 1) {
            Some(d) => {
                if items[n - 1].depth > d {
                    // row n-1 was hidden; the region stays open
                    Some(d)
                } else {
                    scan_after_row(items[n - 1], coll)
                }
            },
            None => scan_after_row(items[n - 1], coll),
        }
    }
}

/// A row is hidden exactly when it lies strictly deeper than the active
/// collapse depth.
pub open spec fn row_hidden(items: Seq<Item>, coll: Set<Seq<char>>, i: int) -> bool {
    match scan_depth(items, coll, i) {
        Some(d) => items[i].depth > d,
        None => false,
    }
}

pub open spec fn row_visible(items: Seq<Item>, coll: Set<Seq<char>>, i: int) -> bool {
    !row_hidden(items, coll, i)
}

/// The indices of the visible rows among the first `n`, in order.
pub open spec fn visible_upto(items: Seq<Item>, coll: Set<Seq<char>>, n: int) -> Seq<int>
    decreases n,
{
    if n <= 0 {
        Seq::empty()
    } else if row_visible(items, coll, n - 1) {
        visible_upto(items, coll, n - 1).push(n - 1)
    } else {
        visible_upto(items, coll, n - 1)
    }
}

/// The collapsed view: the indices of all visible rows, in order.
pub open spec fn visible_seq(items: Seq<Item>, coll: Set<Seq<char>>) -> Seq<int> {
    visible_upto(items, coll, items.len() as int)
}

pub proof fn lemma_visible_upto_props(items: Seq<Item>, coll: Set<Seq<char>>, n: int)
    requires
        0 <= n <= items.len(),
    ensures
        forall|k: int|
            0 <= k < visible_upto(items, coll, n).len()
                ==> 0 <= #[trigger] visible_upto(items, coll, n)[k] < n,
        forall|k1: int, k2: int|
            0 <= k1 < k2 < visible_upto(items, coll, n).len()
                ==> #[trigger] visible_upto(items, coll, n)[k1]
                    < #[trigger] visible_upto(items, coll, n)[k2],
        forall|i: int|
            0 <= i < n
                ==> (row_visible(items, coll, i) <==> visible_upto(items, coll, n).contains(i)),
    decreases n,
{
    if n > 0 {
        lemma_visible_upto_props(items, coll, n - 1);
        let pre = visible_upto(items, coll, n - 1);
        let cur = visible_upto(items, coll, n);
        assert forall|i: int|
            0 <= i < n implies (row_visible(items, coll, i) <==> cur.contains(i)) by {
            if i < n - 1 {
                if pre.contains(i) {
                    let k = choose|k: int| 0 <= k < pre.len() && pre[k] == i;
                    assert(cur[k] == i);
                }
                if cur.contains(i) {
                    let k = choose|k: int| 0 <= k < cur.len() && cur[k] == i;
                    assert(k < pre.len() && pre[k] == i);
                }
            } else {
                if row_visible(items, coll, i) {
                    assert(cur[cur.len() - 1] == i);
                }
            }
        }
    }
}

// ---------------------------------------------------------------------
// Rendered-line accounting.
// ---------------------------------------------------------------------

/// The cumulative rendered-line offset contributed by the visible rows
/// among the first `n`: `lines_before(.., i)` is `line_of(i)` when row `i`
/// is visible.
pub open spec fn lines_before(items: Seq<Item>, coll: Set<Seq<char>>, n: int) -> int
    decreases n,
{
    if n <= 0 {
        0
    } else {
        lines_before(items, coll, n - 1)
            + if row_visible(items, coll, n - 1) {
                items[n - 1].spec_line_count()
            } else {
                0
            }
    }
}

/// The total rendered line count of the collapsed view.
pub open spec fn total_lines(items: Seq<Item>, coll: Set<Seq<char>>) -> int {
    lines_before(items, coll, items.len() as int)
}

/// The line count of every row, collapse ignored: an upper bound on any
/// cumulative offset the engine computes.
pub open spec fn line_budget_upto(items: Seq<Item>, n: int) -> int
    decreases n,
{
    if n <= 0 {
        0
    } else {
        line_budget_upto(items, n - 1) + items[n - 1].spec_line_count()
    }
}

pub open spec fn line_budget(items: Seq<Item>) -> int {
    line_budget_upto(items, items.len() as int)
}

pub proof fn lemma_lines_before_bounds(items: Seq<Item>, coll: Set<Seq<char>>, n: int)
    requires
        0 <= n <= items.len(),
    ensures
        0 <= lines_before(items, coll, n) <= line_budget_upto(items, n),
        line_budget_upto(items, n) <= line_budget(items),
    decreases items.len() - n,
{
    lemma_lines_before_nonneg(items, coll, n);
    if n < items.len() {
        lemma_lines_before_bounds(items, coll, n + 1);
    }
}

proof fn lemma_lines_before_nonneg(items: Seq<Item>, coll: Set<Seq<char>>, n: int)
    requires
        0 <= n,
    ensures
        0 <= lines_before(items, coll, n) <= line_budget_upto(items, n),
    decreases n,
{
    if n > 0 {
        lemma_lines_before_nonneg(items, coll, n - 1);
    }
}

// ---------------------------------------------------------------------
// Index searches over the collapsed view.
// ---------------------------------------------------------------------

/// The least index in `[k, n)` satisfying `p`, if any.
pub open spec fn first_idx_from(n: int, k: int, p: spec_fn(int) -> bool) -> Option<int>
    decreases n - k,
{
    if k < 0 || k >= n {
        None
    } else if p(k) {
        Some(k)
    } else {
        first_idx_from(n, k + 1, p)
    }
}

/// The greatest index below `k` satisfying `p`, if any.
pub open spec fn last_idx_below(k: int, p: spec_fn(int) -> bool) -> Option<int>
    decreases k,
{
    if k <= 0 {
        None
    } else if p(k - 1) {
        Some(k - 1)
    } else {
        last_idx_below(k - 1, p)
    }
}

/// Skipping indices that fail `p` does not change the first match.
pub proof fn lemma_first_idx_from_skip(n: int, k: int, i: int, p: spec_fn(int) -> bool)
    requires
        0 <= k <= i <= n,
        forall|j: int| k <= j < i ==> !#[trigger] p(j),
    ensures
        first_idx_from(n, k, p) == first_idx_from(n, i, p),
    decreases i - k,
{
    if k < i {
        lemma_first_idx_from_skip(n, k + 1, i, p);
    }
}

/// What a first match means: `p` holds there and nowhere earlier.
pub proof fn lemma_first_idx_from_props(n: int, k: int, p: spec_fn(int) -> bool)
    requires
        0 <= k,
    ensures
        match first_idx_from(n, k, p) {
            Some(i) => k <= i < n && p(i) && forall|j: int| k <= j < i ==> !#[trigger] p(j),
            None => forall|j: int| k <= j < n ==> !#[trigger] p(j),
        },
    decreases n - k,
{
    if k < n && !p(k) {
        lemma_first_idx_from_props(n, k + 1, p);
    }
}

/// What a last match means: `p` holds there and nowhere later below `k`.
pub proof fn lemma_last_idx_below_props(k: int, p: spec_fn(int) -> bool)
    ensures
        match last_idx_below(k, p) {
            Some(i) => 0 <= i < k && p(i) && forall|j: int| i < j < k ==> !#[trigger] p(j),
            None => forall|j: int| 0 <= j < k ==> !#[trigger] p(j),
        },
    decreases k,
{
    if k > 0 && !p(k - 1) {
        lemma_last_idx_below_props(k - 1, p);
    }
}

/// Navigable rows: visible and selectable.
pub open spec fn nav_ok(items: Seq<Item>, coll: Set<Seq<char>>) -> spec_fn(int) -> bool {
    |i: int| row_visible(items, coll, i) && !items[i].unselectable
}

/// Where `select_next` puts the cursor: the next visible selectable row
/// strictly after `c`, or `c` itself when none exists.
pub open spec fn next_cursor(items: Seq<Item>, coll: Set<Seq<char>>, c: int) -> int {
    match first_idx_from(items.len() as int, c + 1, nav_ok(items, coll)) {
        Some(i) => i,
        None => c,
    }
}

/// Where `select_previous` puts the cursor: the nearest visible selectable
/// row strictly before `c`, or `c` itself when none exists.
pub open spec fn prev_cursor(items: Seq<Item>, coll: Set<Seq<char>>, c: int) -> int {
    match last_idx_below(c, nav_ok(items, coll)) {
        Some(i) => i,
        None => c,
    }
}

/// Where the clamp puts the cursor: into `[0, len-1]` first (zero on an
/// empty sequence); then, if the row there is hidden or unselectable, to
/// the nearest preceding visible selectable row, falling back to the next
/// one after it, falling back to the range-clamped index itself.
pub open spec fn clamped_cursor(items: Seq<Item>, coll: Set<Seq<char>>, c: int) -> int {
    if items.len() == 0 {
        0
    } else {
        let c0 = if c < 0 {
            0
        } else if c < items.len() {
            c
        } else {
            items.len() - 1
        };
        if row_visible(items, coll, c0) && !items[c0].unselectable {
            c0
        } else {
            let p = prev_cursor(items, coll, c0);
            if p != c0 {
                p
            } else {
                next_cursor(items, coll, c0)
            }
        }
    }
}

// ---------------------------------------------------------------------
// Scroll-fit.
// ---------------------------------------------------------------------

/// Rows that bound the selected block from below: visible and at or above
/// the cursor row's depth.
pub open spec fn block_bound_pred(
    items: Seq<Item>,
    coll: Set<Seq<char>>,
    c: int,
) -> spec_fn(int) -> bool {
    |i: int| row_visible(items, coll, i) && items[i].depth <= items[c].depth
}

/// The first visible row after `c` at or above `c`'s depth: one past the
/// visible part of the selected block (the cursor row plus its visible
/// descendants).
pub open spec fn block_end_idx(items: Seq<Item>, coll: Set<Seq<char>>, c: int) -> int {
    match first_idx_from(items.len() as int, c + 1, block_bound_pred(items, coll, c)) {
        Some(i) => i,
        None => items.len() as int,
    }
}

/// One past the last rendered line of the selected block.
pub open spec fn block_end_line(items: Seq<Item>, coll: Set<Seq<char>>, c: int) -> int {
    lines_before(items, coll, block_end_idx(items, coll, c))
}

/// Fit-end: raise the scroll just enough that the selected block's last
/// line is the viewport's last line; never lowers it.
pub open spec fn fit_end_scroll(
    items: Seq<Item>,
    coll: Set<Seq<char>>,
    c: int,
    height: int,
    scroll: int,
) -> int {
    let m = block_end_line(items, coll, c);
    let limit = if m >= height {
        m - height
    } else {
        0
    };
    if limit > scroll {
        limit
    } else {
        scroll
    }
}

/// The row fit-start anchors to: the first visible row that is the cursor
/// itself or an enclosing ancestor at the matching distance above it.
pub open spec fn ancestor_anchor(items: Seq<Item>, c: int) -> spec_fn(int) -> bool {
    |i: int|
        {
            let levels = if items[c].depth >= items[i].depth {
                items[c].depth - items[i].depth
            } else {
                0
            };
            levels <= c && i == c - levels
        }
}

/// Rows fit-start may anchor to: visible and at the matching distance
/// above the cursor.
pub open spec fn fit_start_pred(
    items: Seq<Item>,
    coll: Set<Seq<char>>,
    c: int,
) -> spec_fn(int) -> bool {
    |i: int| row_visible(items, coll, i) && ancestor_anchor(items, c)(i)
}

pub open spec fn fit_start_target(items: Seq<Item>, coll: Set<Seq<char>>, c: int) -> Option<
    int,
> {
    first_idx_from(items.len() as int, 0, fit_start_pred(items, coll, c))
}

/// Fit-start: lower the scroll to the start of the selection's visible
/// context; never raises it.
pub open spec fn fit_start_scroll(
    items: Seq<Item>,
    coll: Set<Seq<char>>,
    c: int,
    scroll: int,
) -> int {
    match fit_start_target(items, coll, c) {
        Some(i) => {
            let s = lines_before(items, coll, i);
            if s < scroll {
                s
            } else {
                scroll
            }
        },
        None => scroll,
    }
}

/// The first row whose target is a hunk, then the first selectable row,
/// then zero: where a fresh screen places its cursor.
pub open spec fn is_hunk_row(it: Item) -> bool {
    &&& !it.unselectable
    &&& it.target_data matches Some(TargetData::Hunk(_))
}

pub open spec fn hunk_pred(items: Seq<Item>) -> spec_fn(int) -> bool {
    |i: int| is_hunk_row(items[i])
}

pub open spec fn selectable_pred(items: Seq<Item>) -> spec_fn(int) -> bool {
    |i: int| !items[i].unselectable
}

pub open spec fn initial_cursor(items: Seq<Item>) -> int {
    match first_idx_from(items.len() as int, 0, hunk_pred(items)) {
        Some(i) => i,
        None => match first_idx_from(items.len() as int, 0, selectable_pred(items)) {
            Some(i) => i,
            None => 0,
        },
    }
}

/// The scroll after a half-page-down: advanced by half the viewport and
/// clamped so at most half a page of blank space can show at the bottom.
pub open spec fn half_down_scroll(
    items: Seq<Item>,
    coll: Set<Seq<char>>,
    height: int,
    scroll: int,
) -> int {
    let half = height / 2;
    let total = total_lines(items, coll);
    let limit = if total >= half {
        total - half
    } else {
        0
    };
    if scroll + half <= limit {
        scroll + half
    } else {
        limit
    }
}

// ---------------------------------------------------------------------
// The screen.
// ---------------------------------------------------------------------

/// The viewport engine's state.
pub struct Screen {
    /// Index of the selected row in the full (pre-collapse) item sequence.
    pub cursor: usize,
    /// First visible rendered line.
    pub scroll: usize,
    /// Viewport width in columns.
    pub width: usize,
    /// Viewport height in lines.
    pub height: usize,
    /// The flat item sequence, a pre-order depth-tagged forest.
    pub items: Vec<Item>,
    /// The collapse registry: identities of collapsed sections.
    pub collapsed: Vec<String>,
}

impl Screen {
    /// The registry as a set of identities.
    pub open spec fn collapse_ids(self) -> Set<Seq<char>> {
        registry_set(self.collapsed@)
    }

    /// Structural well-formedness: the registry holds no duplicates and the
    /// total line count fits the machine's word, so cumulative offsets can
    /// be computed without overflow.
    pub open spec fn wf(self) -> bool {
        &&& registry_wf(self.collapsed@)
        &&& line_budget(self.items@) <= usize::MAX
    }

    /// The cursor indexes a row, or sits at zero on an empty sequence.
    pub open spec fn cursor_ok(self) -> bool {
        self.cursor < self.items@.len() || (self.items@.len() == 0 && self.cursor == 0)
    }
}

// ---------------------------------------------------------------------
// Registry operations.
// ---------------------------------------------------------------------

/// The position of `id` in the registry vector, if present.
fn registry_index_of(coll: &Vec<String>, id: &String) -> (r: Option<usize>)
    ensures
        match r {
            Some(j) => j < coll@.len() && coll@[j as int]@ == id@,
            None => !registry_has(coll@, id@),
        },
{
    let mut i: usize = 0;
    while i < coll.len()
        invariant
            0 <= i <= coll@.len(),
            forall|j: int| 0 <= j < i ==> coll@[j]@ != id@,
        decreases coll@.len() - i,
    {
        if coll[i] == *id {
            return Some(i);
        }
        i = i + 1;
    }
    None
}

/// Whether the registry vector holds `id`.
fn registry_contains(coll: &Vec<String>, id: &String) -> (r: bool)
    ensures
        r == registry_has(coll@, id@),
{
    match registry_index_of(coll, id) {
        Some(_) => true,
        None => false,
    }
}

/// Produce, in order, the original indices of the rows that are visible
/// given the collapse registry: a collapsed section's descendants are
/// elided, the section header itself is retained.
pub fn collapsed_items_iter(items: &Vec<Item>, collapsed: &Vec<String>) -> (r: Vec<usize>)
    ensures
        r@.map_values(|u: usize| u as int) == visible_seq(items@, registry_set(collapsed@)),
        forall|k: int| 0 <= k < r@.len() ==> #[trigger] r@[k] < items@.len(),
        forall|k1: int, k2: int| 0 <= k1 < k2 < r@.len() ==> r@[k1] < r@[k2],
        forall|i: int|
            0 <= i < items@.len()
                ==> (row_visible(items@, registry_set(collapsed@), i) <==> visible_seq(
                    items@,
                    registry_set(collapsed@),
                ).contains(i)),
{
    let ghost coll = registry_set(collapsed@);
    let mut r: Vec<usize> = Vec::new();
    // the active collapse depth: rows strictly deeper than it are hidden
    let mut collapse_depth: Option<usize> = None;
    let mut i: usize = 0;
    while i < items.len()
        invariant
            0 <= i <= items@.len(),
            coll == registry_set(collapsed@),
            scan_depth(items@, coll, i as int) == match collapse_depth {
                Some(d) => Some(d as int),
                None => None::<int>,
            },
            r@.map_values(|u: usize| u as int) == visible_upto(items@, coll, i as int),
            forall|k: int| 0 <= k < r@.len() ==> #[trigger] r@[k] < items@.len(),
        decreases items@.len() - i,
    {
        let hidden = match collapse_depth {
            Some(d) => items[i].depth > d,
            None => false,
        };
        if !hidden {
            r.push(i);
            if items[i].section && registry_contains(collapsed, &items[i].id) {
                collapse_depth = Some(items[i].depth);
            } else {
                collapse_depth = None;
            }
            proof {
                assert(r@.map_values(|u: usize| u as int)
                    =~= visible_upto(items@, coll, i as int).push(i as int));
            }
        }
        i = i + 1;
    }
    proof {
        lemma_visible_upto_props(items@, coll, items@.len() as int);
        let vs = visible_seq(items@, coll);
        assert forall|k1: int, k2: int|
            0 <= k1 < k2 < r@.len() implies r@[k1] < r@[k2] by {
            assert(r@.map_values(|u: usize| u as int)[k1] == vs[k1]);
            assert(r@.map_values(|u: usize| u as int)[k2] == vs[k2]);
        }
    }
    r
}

impl Screen {
    /// Whether this item's identity is currently collapsed.
    pub fn is_collapsed(&self, item: &Item) -> (r: bool)
        ensures
            r == self.collapse_ids().contains(item.id@),
    {
        registry_contains(&self.collapsed, &item.id)
    }

    /// The collapsed view of this screen's items.
    pub fn collapsed_items_iter(&self) -> (r: Vec<usize>)
        ensures
            r@.map_values(|u: usize| u as int) == visible_seq(self.items@, self.collapse_ids()),
            forall|k: int| 0 <= k < r@.len() ==> #[trigger] r@[k] < self.items@.len(),
    {
        collapsed_items_iter(&self.items, &self.collapsed)
    }

    /// Whether row `i` is inside a collapsed subtree.
    fn row_hidden_at(&self, i: usize) -> (r: bool)
        requires
            i < self.items@.len(),
        ensures
            r == row_hidden(self.items@, self.collapse_ids(), i as int),
    {
        let ghost items = self.items@;
        let ghost coll = self.collapse_ids();
        let mut collapse_depth: Option<usize> = None;
        let mut j: usize = 0;
        while j < i
            invariant
                0 <= j <= i < items.len(),
                items == self.items@,
                coll == self.collapse_ids(),
                scan_depth(items, coll, j as int) == match collapse_depth {
                    Some(d) => Some(d as int),
                    None => None::<int>,
                },
            decreases i - j,
        {
            let hidden = match collapse_depth {
                Some(d) => self.items[j].depth > d,
                None => false,
            };
            if !hidden {
                if self.items[j].section && registry_contains(&self.collapsed, &self.items[j].id) {
                    collapse_depth = Some(self.items[j].depth);
                } else {
                    collapse_depth = None;
                }
            }
            j = j + 1;
        }
        match collapse_depth {
            Some(d) => self.items[i].depth > d,
            None => false,
        }
    }

    /// Clamp the cursor after a replacement of the items: into range, and
    /// then onto a visible selectable row when one exists — the nearest
    /// preceding one, else the next one after. On an empty sequence the
    /// cursor rests at zero.
    pub fn clamp_cursor(&mut self)
        requires
            old(self).wf(),
        ensures
            final(self).cursor as int == clamped_cursor(
                old(self).items@,
                old(self).collapse_ids(),
                old(self).cursor as int,
            ),
            final(self).cursor_ok(),
            final(self).items == old(self).items,
            final(self).collapsed == old(self).collapsed,
            final(self).scroll == old(self).scroll,
            final(self).width == old(self).width,
            final(self).height == old(self).height,
            final(self).wf(),
    {
        if self.items.len() == 0 {
            self.cursor = 0;
            return;
        }
        if self.cursor >= self.items.len() {
            self.cursor = self.items.len() - 1;
        }
        if !self.row_hidden_at(self.cursor) && !self.items[self.cursor].unselectable {
            return;
        }
        proof {
            lemma_last_idx_below_props(
                self.cursor as int,
                nav_ok(self.items@, self.collapse_ids()),
            );
            lemma_first_idx_from_props(
                self.items@.len() as int,
                self.cursor + 1,
                nav_ok(self.items@, self.collapse_ids()),
            );
        }
        let prev = self.find_previous();
        if prev != self.cursor {
            self.cursor = prev;
        } else {
            let next = self.find_next();
            self.cursor = next;
        }
    }

    /// Replace the item sequence wholesale, preserving the collapse
    /// registry and the scroll, and reclamping the cursor into the new
    /// sequence.
    pub fn update(&mut self, items: Vec<Item>)
        requires
            old(self).wf(),
            line_budget(items@) <= usize::MAX,
        ensures
            final(self).items == items,
            final(self).collapsed == old(self).collapsed,
            final(self).cursor as int == clamped_cursor(
                items@,
                old(self).collapse_ids(),
                old(self).cursor as int,
            ),
            final(self).scroll == old(self).scroll,
            final(self).width == old(self).width,
            final(self).height == old(self).height,
            final(self).wf(),
            final(self).cursor_ok(),
    {
        self.items = items;
        self.clamp_cursor();
    }

    /// The selected row, or nothing when the item sequence is empty.
    pub fn get_selected_item(&self) -> (r: Option<&Item>)
        requires
            self.cursor_ok(),
        ensures
            match r {
                Some(it) => self.items@.len() > 0 && it == self.items@[self.cursor as int],
                None => self.items@.len() == 0,
            },
    {
        if self.items.len() == 0 {
            None
        } else {
            Some(&self.items[self.cursor])
        }
    }

    /// Flip the selected section's membership in the collapse registry; a
    /// no-op on non-section rows and on an empty item sequence. Neither the
    /// cursor nor the scroll moves.
    pub fn toggle_section(&mut self)
        requires
            old(self).wf(),
            old(self).cursor_ok(),
        ensures
            final(self).items == old(self).items,
            final(self).cursor == old(self).cursor,
            final(self).scroll == old(self).scroll,
            final(self).width == old(self).width,
            final(self).height == old(self).height,
            final(self).wf(),
            ({
                let items = old(self).items@;
                let ids = old(self).collapse_ids();
                if items.len() > 0 && items[old(self).cursor as int].section {
                    let id = items[old(self).cursor as int].id@;
                    if ids.contains(id) {
                        final(self).collapse_ids() == ids.remove(id)
                    } else {
                        final(self).collapse_ids() == ids.insert(id)
                    }
                } else {
                    final(self).collapse_ids() == ids
                }
            }),
    {
        if self.items.len() == 0 {
            return;
        }
        let selected_section = self.items[self.cursor].section;
        if !selected_section {
            return;
        }
        let ghost old_coll = self.collapsed@;
        let ghost gid = self.items@[self.cursor as int].id@;
        let id = self.items[self.cursor].id.clone();
        match registry_index_of(&self.collapsed, &id) {
            Some(j) => {
                // remove the one occurrence; by registry_wf it is the only one
                self.collapsed.remove(j);
                proof {
                    let removed = self.collapsed@;
                    assert(removed =~= old_coll.remove(j as int));
                    assert forall|x: Seq<char>|
                        registry_set(removed).contains(x)
                            == registry_set(old_coll).remove(gid).contains(x) by {
                        if registry_has(removed, x) {
                            let k = choose|k: int|
                                0 <= k < removed.len() && removed[k]@ == x;
                            if k < j {
                                assert(old_coll[k]@ == x);
                            } else {
                                assert(old_coll[k + 1]@ == x);
                            }
                        }
                        if registry_has(old_coll, x) && x != gid {
                            let k = choose|k: int|
                                0 <= k < old_coll.len() && old_coll[k]@ == x;
                            if k < j {
                                assert(removed[k]@ == x);
                            } else {
                                assert(k != j);
                                assert(removed[k - 1]@ == x);
                            }
                        }
                    }
                    assert(registry_set(removed) =~= registry_set(old_coll).remove(gid));
                    assert forall|k1: int, k2: int|
                        0 <= k1 < k2 < removed.len() implies removed[k1]@ != removed[k2]@ by {
                        if k1 < j {
                            assert(removed[k1]@ == old_coll[k1]@);
                        } else {
                            assert(removed[k1]@ == old_coll[k1 + 1]@);
                        }
                        if k2 < j {
                            assert(removed[k2]@ == old_coll[k2]@);
                        } else {
                            assert(removed[k2]@ == old_coll[k2 + 1]@);
                        }
                    }
                }
            },
            None => {
                self.collapsed.push(id);
                proof {
                    let pushed = self.collapsed@;
                    assert forall|x: Seq<char>|
                        registry_set(pushed).contains(x)
                            == registry_set(old_coll).insert(gid).contains(x) by {
                        if registry_has(pushed, x) {
                            let k = choose|k: int| 0 <= k < pushed.len() && pushed[k]@ == x;
                            if k < old_coll.len() {
                                assert(registry_has(old_coll, x));
                            }
                        }
                        if registry_has(old_coll, x) {
                            let k = choose|k: int|
                                0 <= k < old_coll.len() && old_coll[k]@ == x;
                            assert(pushed[k]@ == x);
                        }
                        if x == gid {
                            assert(pushed[pushed.len() - 1]@ == x);
                        }
                    }
                    assert(registry_set(pushed) =~= registry_set(old_coll).insert(gid));
                    assert forall|k1: int, k2: int|
                        0 <= k1 < k2 < pushed.len() implies pushed[k1]@ != pushed[k2]@ by {
                        if k2 == pushed.len() - 1 {
                            assert(pushed[k1]@ == old_coll[k1]@);
                            assert(!registry_has(old_coll, gid));
                        }
                    }
                }
            },
        }
    }
}

// ---------------------------------------------------------------------
// Construction, navigation and scrolling.
// ---------------------------------------------------------------------

impl Screen {
    /// A fresh screen over a produced item sequence: nothing collapsed, the
    /// scroll at the top, and the cursor on the first hunk row, falling back
    /// to the first selectable row, falling back to zero.
    pub fn new(width: usize, height: usize, items: Vec<Item>) -> (s: Screen)
        requires
            line_budget(items@) <= usize::MAX,
        ensures
            s.items == items,
            s.collapsed@.len() == 0,
            s.scroll == 0,
            s.width == width,
            s.height == height,
            s.cursor as int == initial_cursor(items@),
            s.wf(),
            s.cursor_ok(),
    {
        proof {
            lemma_first_idx_from_props(items@.len() as int, 0, hunk_pred(items@));
            lemma_first_idx_from_props(items@.len() as int, 0, selectable_pred(items@));
        }
        let cursor = match Screen::find_first_hunk(&items) {
            Some(i) => i,
            None => match Screen::find_first_selectable(&items) {
                Some(i) => i,
                None => 0,
            },
        };
        Screen { cursor, scroll: 0, width, height, items, collapsed: Vec::new() }
    }

    /// The first selectable row whose target is a hunk.
    fn find_first_hunk(items: &Vec<Item>) -> (r: Option<usize>)
        ensures
            ({
                let f = first_idx_from(items@.len() as int, 0, hunk_pred(items@));
                match r {
                    Some(i) => f == Some(i as int),
                    None => f is None,
                }
            }),
    {
        let ghost p = hunk_pred(items@);
        let mut i: usize = 0;
        while i < items.len()
            invariant
                0 <= i <= items@.len(),
                p == hunk_pred(items@),
                forall|j: int| 0 <= j < i ==> !#[trigger] p(j),
            decreases items@.len() - i,
        {
            let hit = match &items[i].target_data {
                Some(TargetData::Hunk(_)) => !items[i].unselectable,
                _ => false,
            };
            if hit {
                proof {
                    assert(p(i as int));
                    lemma_first_idx_from_skip(items@.len() as int, 0, i as int, p);
                }
                return Some(i);
            }
            proof {
                assert(!p(i as int));
            }
            i = i + 1;
        }
        proof {
            lemma_first_idx_from_skip(items@.len() as int, 0, items@.len() as int, p);
        }
        None
    }

    /// The first selectable row.
    fn find_first_selectable(items: &Vec<Item>) -> (r: Option<usize>)
        ensures
            ({
                let f = first_idx_from(items@.len() as int, 0, selectable_pred(items@));
                match r {
                    Some(i) => f == Some(i as int),
                    None => f is None,
                }
            }),
    {
        let ghost p = selectable_pred(items@);
        let mut i: usize = 0;
        while i < items.len()
            invariant
                0 <= i <= items@.len(),
                p == selectable_pred(items@),
                forall|j: int| 0 <= j < i ==> !#[trigger] p(j),
            decreases items@.len() - i,
        {
            if !items[i].unselectable {
                proof {
                    assert(p(i as int));
                    lemma_first_idx_from_skip(items@.len() as int, 0, i as int, p);
                }
                return Some(i);
            }
            proof {
                assert(!p(i as int));
            }
            i = i + 1;
        }
        proof {
            lemma_first_idx_from_skip(items@.len() as int, 0, items@.len() as int, p);
        }
        None
    }

    /// The next visible selectable row strictly after the cursor, or the
    /// cursor itself when none exists.
    pub fn find_next(&self) -> (r: usize)
        requires
            self.wf(),
        ensures
            r as int == next_cursor(self.items@, self.collapse_ids(), self.cursor as int),
    {
        let ghost items = self.items@;
        let ghost coll = self.collapse_ids();
        let ghost p = nav_ok(items, coll);
        let mut collapse_depth: Option<usize> = None;
        let mut i: usize = 0;
        while i < self.items.len()
            invariant
                0 <= i <= items.len(),
                items == self.items@,
                coll == self.collapse_ids(),
                p == nav_ok(items, coll),
                scan_depth(items, coll, i as int) == match collapse_depth {
                    Some(d) => Some(d as int),
                    None => None::<int>,
                },
                forall|j: int| self.cursor + 1 <= j < i ==> !#[trigger] p(j),
            decreases items.len() - i,
        {
            let hidden = match collapse_depth {
                Some(d) => self.items[i].depth > d,
                None => false,
            };
            if !hidden {
                if i > self.cursor && !self.items[i].unselectable {
                    proof {
                        assert(p(i as int));
                        lemma_first_idx_from_skip(
                            items.len() as int,
                            self.cursor + 1,
                            i as int,
                            p,
                        );
                    }
                    return i;
                }
                if self.items[i].section && registry_contains(&self.collapsed, &self.items[i].id) {
                    collapse_depth = Some(self.items[i].depth);
                } else {
                    collapse_depth = None;
                }
            }
            i = i + 1;
        }
        proof {
            if self.cursor + 1 <= items.len() {
                lemma_first_idx_from_skip(items.len() as int, self.cursor + 1, items.len() as int, p);
            }
        }
        self.cursor
    }

    /// The nearest visible selectable row strictly before the cursor, or
    /// the cursor itself when none exists.
    fn find_previous(&self) -> (r: usize)
        requires
            self.wf(),
            self.cursor_ok(),
        ensures
            r as int == prev_cursor(self.items@, self.collapse_ids(), self.cursor as int),
    {
        let ghost items = self.items@;
        let ghost coll = self.collapse_ids();
        let ghost p = nav_ok(items, coll);
        let ghost c = self.cursor as int;
        let mut best: usize = self.cursor;
        let mut collapse_depth: Option<usize> = None;
        let mut i: usize = 0;
        while i < self.items.len()
            invariant
                0 <= i <= items.len(),
                items == self.items@,
                coll == self.collapse_ids(),
                p == nav_ok(items, coll),
                c == self.cursor as int,
                scan_depth(items, coll, i as int) == match collapse_depth {
                    Some(d) => Some(d as int),
                    None => None::<int>,
                },
                ({
                    let m = if (i as int) <= c {
                        i as int
                    } else {
                        c
                    };
                    match last_idx_below(m, p) {
                        Some(b) => best as int == b,
                        None => best == self.cursor,
                    }
                }),
            decreases items.len() - i,
        {
            let hidden = match collapse_depth {
                Some(d) => self.items[i].depth > d,
                None => false,
            };
            if !hidden {
                if i < self.cursor && !self.items[i].unselectable {
                    proof {
                        assert(p(i as int));
                    }
                    best = i;
                }
                if self.items[i].section && registry_contains(&self.collapsed, &self.items[i].id) {
                    collapse_depth = Some(self.items[i].depth);
                } else {
                    collapse_depth = None;
                }
            }
            proof {
                if (i as int) < c {
                    if p(i as int) {
                        assert(last_idx_below(i + 1, p) == Some(i as int));
                    } else {
                        assert(last_idx_below(i + 1, p) == last_idx_below(i as int, p));
                    }
                }
            }
            i = i + 1;
        }
        best
    }

    /// Whether row `i` is the cursor row itself or the enclosing ancestor
    /// whose distance above the cursor matches their depth difference.
    fn selected_or_direct_ancestor(&self, i: usize) -> (r: bool)
        requires
            self.cursor < self.items@.len(),
            i < self.items@.len(),
        ensures
            r == ancestor_anchor(self.items@, self.cursor as int)(i as int),
    {
        let levels = self.items[self.cursor].depth.saturating_sub(self.items[i].depth);
        levels <= self.cursor && i == self.cursor - levels
    }

    /// One past the last rendered line of the selected block: the cursor
    /// row's line offset plus the lines of its visible descendants.
    fn block_end_line_exec(&self) -> (m: usize)
        requires
            self.wf(),
            self.cursor < self.items@.len(),
        ensures
            m as int == block_end_line(self.items@, self.collapse_ids(), self.cursor as int),
    {
        let ghost items = self.items@;
        let ghost coll = self.collapse_ids();
        let ghost c = self.cursor as int;
        let ghost p = block_bound_pred(items, coll, c);
        let depth = self.items[self.cursor].depth;
        let mut lines: usize = 0;
        let mut collapse_depth: Option<usize> = None;
        let mut i: usize = 0;
        while i < self.items.len()
            invariant
                0 <= i <= items.len(),
                items == self.items@,
                coll == self.collapse_ids(),
                p == block_bound_pred(items, coll, c),
                c == self.cursor as int,
                c < items.len(),
                depth == items[c].depth,
                self.wf(),
                scan_depth(items, coll, i as int) == match collapse_depth {
                    Some(d) => Some(d as int),
                    None => None::<int>,
                },
                lines as int == lines_before(items, coll, i as int),
                forall|j: int| c + 1 <= j < i ==> !#[trigger] p(j),
            decreases items.len() - i,
        {
            let hidden = match collapse_depth {
                Some(d) => self.items[i].depth > d,
                None => false,
            };
            if !hidden {
                if i > self.cursor && self.items[i].depth <= depth {
                    proof {
                        assert(p(i as int));
                        lemma_first_idx_from_skip(items.len() as int, c + 1, i as int, p);
                    }
                    return lines;
                }
                let lc = self.items[i].line_count();
                proof {
                    lemma_lines_before_bounds(items, coll, i + 1);
                }
                lines = lines + lc;
                if self.items[i].section && registry_contains(&self.collapsed, &self.items[i].id) {
                    collapse_depth = Some(self.items[i].depth);
                } else {
                    collapse_depth = None;
                }
            }
            i = i + 1;
        }
        proof {
            lemma_first_idx_from_skip(items.len() as int, c + 1, items.len() as int, p);
        }
        lines
    }

    /// Fit-end: raise the scroll just enough that the selected block's last
    /// rendered line sits on the viewport's last line.
    pub fn scroll_fit_end(&mut self)
        requires
            old(self).wf(),
            old(self).cursor_ok(),
        ensures
            final(self).scroll as int == fit_end_scroll(
                old(self).items@,
                old(self).collapse_ids(),
                old(self).cursor as int,
                old(self).height as int,
                old(self).scroll as int,
            ),
            final(self).items == old(self).items,
            final(self).collapsed == old(self).collapsed,
            final(self).cursor == old(self).cursor,
            final(self).width == old(self).width,
            final(self).height == old(self).height,
            final(self).wf(),
            final(self).cursor_ok(),
    {
        if self.items.len() == 0 {
            return;
        }
        let m = self.block_end_line_exec();
        let limit = m.saturating_sub(self.height);
        if limit > self.scroll {
            self.scroll = limit;
        }
    }

    /// Fit-start: lower the scroll to the first line of the selection's
    /// visible context.
    pub fn scroll_fit_start(&mut self)
        requires
            old(self).wf(),
            old(self).cursor_ok(),
        ensures
            final(self).scroll as int == fit_start_scroll(
                old(self).items@,
                old(self).collapse_ids(),
                old(self).cursor as int,
                old(self).scroll as int,
            ),
            final(self).items == old(self).items,
            final(self).collapsed == old(self).collapsed,
            final(self).cursor == old(self).cursor,
            final(self).width == old(self).width,
            final(self).height == old(self).height,
            final(self).wf(),
            final(self).cursor_ok(),
    {
        if self.items.len() == 0 {
            return;
        }
        let ghost items = self.items@;
        let ghost coll = self.collapse_ids();
        let ghost c = self.cursor as int;
        let ghost p = fit_start_pred(items, coll, c);
        let mut lines: usize = 0;
        let mut collapse_depth: Option<usize> = None;
        let mut i: usize = 0;
        while i < self.items.len()
            invariant
                0 <= i <= items.len(),
                items == self.items@,
                coll == self.collapse_ids(),
                p == fit_start_pred(items, coll, c),
                c == self.cursor as int,
                c < items.len(),
                self == old(self),
                self.wf(),
                scan_depth(items, coll, i as int) == match collapse_depth {
                    Some(d) => Some(d as int),
                    None => None::<int>,
                },
                lines as int == lines_before(items, coll, i as int),
                forall|j: int| 0 <= j < i ==> !#[trigger] p(j),
            decreases items.len() - i,
        {
            let hidden = match collapse_depth {
                Some(d) => self.items[i].depth > d,
                None => false,
            };
            if !hidden {
                if self.selected_or_direct_ancestor(i) {
                    proof {
                        assert(p(i as int));
                        lemma_first_idx_from_skip(items.len() as int, 0, i as int, p);
                    }
                    if lines < self.scroll {
                        self.scroll = lines;
                    }
                    return;
                }
                let lc = self.items[i].line_count();
                proof {
                    lemma_lines_before_bounds(items, coll, i + 1);
                }
                lines = lines + lc;
                if self.items[i].section && registry_contains(&self.collapsed, &self.items[i].id) {
                    collapse_depth = Some(self.items[i].depth);
                } else {
                    collapse_depth = None;
                }
            }
            i = i + 1;
        }
        proof {
            lemma_first_idx_from_skip(items.len() as int, 0, items.len() as int, p);
        }
    }

    /// Move the selection to the next visible selectable row, then keep its
    /// whole block in view: end-fit first, start-fit second.
    pub fn select_next(&mut self)
        requires
            old(self).wf(),
            old(self).cursor_ok(),
        ensures
            ({
                let items = old(self).items@;
                let ids = old(self).collapse_ids();
                let nc = next_cursor(items, ids, old(self).cursor as int);
                &&& final(self).cursor as int == nc
                &&& final(self).scroll as int == fit_start_scroll(
                    items,
                    ids,
                    nc,
                    fit_end_scroll(items, ids, nc, old(self).height as int, old(self).scroll as int),
                )
            }),
            final(self).items == old(self).items,
            final(self).collapsed == old(self).collapsed,
            final(self).width == old(self).width,
            final(self).height == old(self).height,
            final(self).wf(),
            final(self).cursor_ok(),
    {
        proof {
            lemma_first_idx_from_props(
                self.items@.len() as int,
                self.cursor + 1,
                nav_ok(self.items@, self.collapse_ids()),
            );
        }
        let next = self.find_next();
        self.cursor = next;
        self.scroll_fit_end();
        self.scroll_fit_start();
    }

    /// Move the selection to the previous visible selectable row, then keep
    /// its whole block in view: end-fit first, start-fit second.
    pub fn select_previous(&mut self)
        requires
            old(self).wf(),
            old(self).cursor_ok(),
        ensures
            ({
                let items = old(self).items@;
                let ids = old(self).collapse_ids();
                let pc = prev_cursor(items, ids, old(self).cursor as int);
                &&& final(self).cursor as int == pc
                &&& final(self).scroll as int == fit_start_scroll(
                    items,
                    ids,
                    pc,
                    fit_end_scroll(items, ids, pc, old(self).height as int, old(self).scroll as int),
                )
            }),
            final(self).items == old(self).items,
            final(self).collapsed == old(self).collapsed,
            final(self).width == old(self).width,
            final(self).height == old(self).height,
            final(self).wf(),
            final(self).cursor_ok(),
    {
        proof {
            lemma_last_idx_below_props(
                self.cursor as int,
                nav_ok(self.items@, self.collapse_ids()),
            );
        }
        let prev = self.find_previous();
        self.cursor = prev;
        self.scroll_fit_end();
        self.scroll_fit_start();
    }

    /// The total rendered line count of the collapsed view.
    fn total_lines_exec(&self) -> (t: usize)
        requires
            self.wf(),
        ensures
            t as int == total_lines(self.items@, self.collapse_ids()),
    {
        let ghost items = self.items@;
        let ghost coll = self.collapse_ids();
        let mut lines: usize = 0;
        let mut collapse_depth: Option<usize> = None;
        let mut i: usize = 0;
        while i < self.items.len()
            invariant
                0 <= i <= items.len(),
                items == self.items@,
                coll == self.collapse_ids(),
                self.wf(),
                scan_depth(items, coll, i as int) == match collapse_depth {
                    Some(d) => Some(d as int),
                    None => None::<int>,
                },
                lines as int == lines_before(items, coll, i as int),
            decreases items.len() - i,
        {
            let hidden = match collapse_depth {
                Some(d) => self.items[i].depth > d,
                None => false,
            };
            if !hidden {
                let lc = self.items[i].line_count();
                proof {
                    lemma_lines_before_bounds(items, coll, i + 1);
                }
                lines = lines + lc;
                if self.items[i].section && registry_contains(&self.collapsed, &self.items[i].id) {
                    collapse_depth = Some(self.items[i].depth);
                } else {
                    collapse_depth = None;
                }
            }
            i = i + 1;
        }
        lines
    }

    /// For each visible row in order: its line offset, its original index,
    /// and its own line count.
    pub fn collapsed_lines_items_iter(&self) -> (r: Vec<(usize, usize, usize)>)
        requires
            self.wf(),
        ensures
            ({
                let items = self.items@;
                let ids = self.collapse_ids();
                let vs = visible_seq(items, ids);
                &&& r@.len() == vs.len()
                &&& forall|k: int|
                    0 <= k < vs.len() ==> {
                        &&& (#[trigger] r@[k]).1 as int == vs[k]
                        &&& r@[k].0 as int == lines_before(items, ids, vs[k])
                        &&& r@[k].2 as int == items[vs[k]].spec_line_count()
                    }
            }),
    {
        let ghost items = self.items@;
        let ghost coll = self.collapse_ids();
        let mut r: Vec<(usize, usize, usize)> = Vec::new();
        let mut lines: usize = 0;
        let mut collapse_depth: Option<usize> = None;
        let mut i: usize = 0;
        while i < self.items.len()
            invariant
                0 <= i <= items.len(),
                items == self.items@,
                coll == self.collapse_ids(),
                self.wf(),
                scan_depth(items, coll, i as int) == match collapse_depth {
                    Some(d) => Some(d as int),
                    None => None::<int>,
                },
                lines as int == lines_before(items, coll, i as int),
                r@.len() == visible_upto(items, coll, i as int).len(),
                forall|k: int|
                    0 <= k < r@.len() ==> {
                        &&& (#[trigger] r@[k]).1 as int == visible_upto(items, coll, i as int)[k]
                        &&& r@[k].0 as int == lines_before(
                            items,
                            coll,
                            visible_upto(items, coll, i as int)[k],
                        )
                        &&& r@[k].2 as int == items[visible_upto(items, coll, i as int)[k]].spec_line_count()
                    },
            decreases items.len() - i,
        {
            let hidden = match collapse_depth {
                Some(d) => self.items[i].depth > d,
                None => false,
            };
            if !hidden {
                let lc = self.items[i].line_count();
                r.push((lines, i, lc));
                proof {
                    lemma_lines_before_bounds(items, coll, i + 1);
                }
                lines = lines + lc;
                if self.items[i].section && registry_contains(&self.collapsed, &self.items[i].id) {
                    collapse_depth = Some(self.items[i].depth);
                } else {
                    collapse_depth = None;
                }
            }
            i = i + 1;
        }
        r
    }

    /// Move the scroll up by half the viewport height, stopping at the top.
    pub fn scroll_half_page_up(&mut self)
        ensures
            final(self).scroll as int == if old(self).scroll as int >= old(self).height as int / 2 {
                old(self).scroll - old(self).height / 2
            } else {
                0
            },
            final(self).items == old(self).items,
            final(self).collapsed == old(self).collapsed,
            final(self).cursor == old(self).cursor,
            final(self).width == old(self).width,
            final(self).height == old(self).height,
    {
        let half = self.height / 2;
        self.scroll = self.scroll.saturating_sub(half);
    }

    /// Move the scroll down by half the viewport height, stopping where only
    /// half a page of content remains below the top line.
    pub fn scroll_half_page_down(&mut self)
        requires
            old(self).wf(),
        ensures
            final(self).scroll as int == half_down_scroll(
                old(self).items@,
                old(self).collapse_ids(),
                old(self).height as int,
                old(self).scroll as int,
            ),
            final(self).items == old(self).items,
            final(self).collapsed == old(self).collapsed,
            final(self).cursor == old(self).cursor,
            final(self).width == old(self).width,
            final(self).height == old(self).height,
            final(self).wf(),
    {
        let half = self.height / 2;
        let total = self.total_lines_exec();
        let limit = total.saturating_sub(half);
        let target = self.scroll.saturating_add(half);
        self.scroll = if target <= limit {
            target
        } else {
            limit
        };
    }
}

} // verus!
