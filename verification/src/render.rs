//! The renderer: a pure function from screen state and viewport size to a
//! sequence of rendered lines with depth-aware highlight banding, width
//! truncation, and collapse/overflow ellipsis marks.

use vstd::prelude::*;
use crate::display::{line_has_content, DisplayLine, DisplaySpan};
use crate::items::Item;
use crate::screen::{row_visible, Screen};

verus! {

// ---------------------------------------------------------------------
// The flattened line sequence of the collapsed view.
// ---------------------------------------------------------------------

/// The lines row `i` contributes, as (row index, line index) pairs.
pub open spec fn row_lines(items: Seq<Item>, i: int) -> Seq<(int, int)> {
    Seq::new(items[i].display.lines@.len(), |k: int| (i, k))
}

/// The rendered lines of the visible rows among the first `n`, in order.
pub open spec fn entries_upto(items: Seq<Item>, coll: Set<Seq<char>>, n: int) -> Seq<(int, int)>
    decreases n,
{
    if n <= 0 {
        Seq::empty()
    } else if row_visible(items, coll, n - 1) {
        entries_upto(items, coll, n - 1) + row_lines(items, n - 1)
    } else {
        entries_upto(items, coll, n - 1)
    }
}

/// Every rendered line of the collapsed view, in order: the `k`-th pair
/// says which line of which row shows at line offset `k`.
pub open spec fn display_entries(items: Seq<Item>, coll: Set<Seq<char>>) -> Seq<(int, int)> {
    entries_upto(items, coll, items.len() as int)
}

/// Every entry addresses a real line of a real row.
pub proof fn lemma_entries_valid(items: Seq<Item>, coll: Set<Seq<char>>, n: int)
    requires
        0 <= n <= items.len(),
    ensures
        forall|j: int|
            0 <= j < entries_upto(items, coll, n).len() ==> {
                let m = #[trigger] entries_upto(items, coll, n)[j];
                &&& 0 <= m.0 < n
                &&& 0 <= m.1 < items[m.0].display.lines@.len()
            },
    decreases n,
{
    if n > 0 {
        lemma_entries_valid(items, coll, n - 1);
        if row_visible(items, coll, n - 1) {
            let pre = entries_upto(items, coll, n - 1);
            let cur = entries_upto(items, coll, n);
            assert forall|j: int| 0 <= j < cur.len() implies {
                let m = #[trigger] cur[j];
                &&& 0 <= m.0 < n
                &&& 0 <= m.1 < items[m.0].display.lines@.len()
            } by {
                if j >= pre.len() {
                    assert(cur[j] == row_lines(items, n - 1)[j - pre.len()]);
                }
            }
        }
    }
}

/// The flattened line sequence is exactly as long as the scroll
/// arithmetic's line accounting says: entry `k` sits at line offset `k`.
pub proof fn lemma_entries_len(items: Seq<Item>, coll: Set<Seq<char>>, n: int)
    requires
        0 <= n <= items.len(),
    ensures
        entries_upto(items, coll, n).len() == crate::screen::lines_before(items, coll, n),
    decreases n,
{
    if n > 0 {
        lemma_entries_len(items, coll, n - 1);
    }
}

/// One rendered line of one row, tagged with its owner's index and depth
/// and its position within the row.
#[derive(Clone, Debug, PartialEq, Eq)]
pub struct LineEntry {
    /// Index of the owning row in the full item sequence.
    pub row: usize,
    /// The owning row's depth.
    pub depth: usize,
    pub line: DisplayLine,
    /// First line of its row.
    pub first: bool,
    /// Last line of its row.
    pub last: bool,
}

/// Whether an executable entry shows the line the model pair addresses.
pub open spec fn entry_matches(items: Seq<Item>, e: LineEntry, m: (int, int)) -> bool {
    &&& e.row as int == m.0
    &&& e.depth == items[m.0].depth
    &&& e.line.spans@ == items[m.0].display.lines@[m.1].spans@
    &&& e.first == (m.1 == 0)
    &&& e.last == (m.1 == items[m.0].display.lines@.len() - 1)
}

// ---------------------------------------------------------------------
// Highlight banding.
// ---------------------------------------------------------------------

/// How one line moves the highlight state: a line of the cursor row opens a
/// band at the cursor row's depth; a line of a row at or above the band's
/// depth closes it; deeper rows keep it open.
pub open spec fn hl_step(prev: Option<int>, row: int, depth: int, cursor: int) -> Option<int> {
    if row == cursor {
        Some(depth)
    } else {
        match prev {
            Some(hd) => if hd >= depth {
                None
            } else {
                Some(hd)
            },
            None => None,
        }
    }
}

/// The highlight state in force while the `k`-th window line (the window
/// starting at entry `start`) is rendered.
pub open spec fn hl_at(
    items: Seq<Item>,
    es: Seq<(int, int)>,
    cursor: int,
    start: int,
    k: int,
) -> Option<int>
    decreases k,
{
    if k <= 0 {
        hl_step(None, es[start].0, items[es[start].0].depth as int, cursor)
    } else {
        hl_step(
            hl_at(items, es, cursor, start, k - 1),
            es[start + k].0,
            items[es[start + k].0].depth as int,
            cursor,
        )
    }
}

/// How a rendered line is painted: the selection's own background, the
/// dimmed ancestor-context background, or plain dimmed foreground.
#[derive(Clone, Copy, Debug, PartialEq, Eq)]
pub enum LineHighlight {
    Selected,
    Ancestor,
    Plain,
}

// ---------------------------------------------------------------------
// Span placement and truncation.
// ---------------------------------------------------------------------

/// A span placed at a column of the rendered line.
#[derive(Clone, Debug, PartialEq, Eq)]
pub struct SpanPlacement {
    pub x: usize,
    pub span: DisplaySpan,
}

/// Place spans left to right from column `x`: drawing stops at the span
/// that reaches the viewport's right edge. Yields the placements, the
/// column left after drawing (the truncation column on overflow), and
/// whether overflow happened.
pub open spec fn place_spans(spans: Seq<DisplaySpan>, x: int, width: int) -> (
    Seq<SpanPlacement>,
    int,
    bool,
)
    decreases spans.len(),
{
    if spans.len() == 0 {
        (Seq::empty(), x, false)
    } else {
        let sp = spans[0];
        if x + sp.width >= width {
            (seq![SpanPlacement { x: x as usize, span: sp }], width - 1, true)
        } else {
            let rest = place_spans(spans.drop_first(), x + sp.width, width);
            (seq![SpanPlacement { x: x as usize, span: sp }] + rest.0, rest.1, rest.2)
        }
    }
}

/// One line of the rendered frame.
#[derive(Clone, Debug, PartialEq, Eq)]
pub struct RenderedLine {
    /// Index of the owning row in the full item sequence.
    pub row: usize,
    pub highlight: LineHighlight,
    /// The spans drawn, each at its starting column; column 0 is reserved
    /// for the cursor glyph.
    pub placements: Vec<SpanPlacement>,
    /// Where an ellipsis glyph marks truncation or a collapsed subtree.
    pub ellipsis_at: Option<usize>,
    /// Whether the cursor glyph is drawn at column 0.
    pub cursor_glyph: bool,
}

/// What the `k`-th rendered window line must hold.
pub open spec fn rendered_line_ok(
    items: Seq<Item>,
    coll: Set<Seq<char>>,
    cursor: int,
    width: int,
    es: Seq<(int, int)>,
    start: int,
    k: int,
    rl: RenderedLine,
) -> bool {
    let m = es[start + k];
    let line = items[m.0].display.lines@[m.1];
    let hl = hl_at(items, es, cursor, start, k);
    let place = place_spans(line.spans@, 1, width);
    let last = m.1 == items[m.0].display.lines@.len() - 1;
    let collapsed_mark = items[m.0].section && coll.contains(items[m.0].id@) && last
        && line_has_content(line);
    &&& rl.row as int == m.0
    &&& rl.highlight == (match hl {
        Some(_) => if m.0 == cursor {
            LineHighlight::Selected
        } else {
            LineHighlight::Ancestor
        },
        None => LineHighlight::Plain,
    })
    &&& rl.placements@ == place.0
    &&& rl.ellipsis_at == (if place.2 || collapsed_mark {
        Some(place.1 as usize)
    } else {
        Option::<usize>::None
    })
    &&& rl.cursor_glyph == (m.0 == cursor && m.1 == 0)
}

// ---------------------------------------------------------------------
// Executable copying of display data.
// ---------------------------------------------------------------------

fn clone_span(sp: &DisplaySpan) -> (r: DisplaySpan)
    ensures
        r == *sp,
{
    DisplaySpan { text: sp.text.clone(), width: sp.width, style: sp.style }
}

fn clone_line(l: &DisplayLine) -> (r: DisplayLine)
    ensures
        r.spans@ == l.spans@,
{
    let mut spans: Vec<DisplaySpan> = Vec::new();
    let mut i: usize = 0;
    while i < l.spans.len()
        invariant
            0 <= i <= l.spans@.len(),
            spans@ == l.spans@.take(i as int),
        decreases l.spans@.len() - i,
    {
        spans.push(clone_span(&l.spans[i]));
        proof {
            assert(spans@ =~= l.spans@.take(i + 1));
        }
        i = i + 1;
    }
    proof {
        assert(spans@ =~= l.spans@);
    }
    DisplayLine { spans }
}

// ---------------------------------------------------------------------
// The renderer.
// ---------------------------------------------------------------------

/// Place one line's spans from column 1, truncating at the right edge.
fn place_line(line: &DisplayLine, width: usize) -> (res: (Vec<SpanPlacement>, usize, bool))
    requires
        width >= 1,
    ensures
        ({
            let p = place_spans(line.spans@, 1, width as int);
            &&& res.0@ == p.0
            &&& res.1 as int == p.1
            &&& res.2 == p.2
        }),
{
    let ghost p = place_spans(line.spans@, 1, width as int);
    let mut placements: Vec<SpanPlacement> = Vec::new();
    let mut x: usize = 1;
    let mut si: usize = 0;
    proof {
        assert(line.spans@.skip(0) =~= line.spans@);
    }
    while si < line.spans.len()
        invariant
            0 <= si <= line.spans@.len(),
            1 <= x <= width,
            p == place_spans(line.spans@, 1, width as int),
            p.0 == placements@ + place_spans(line.spans@.skip(si as int), x as int, width as int).0,
            p.1 == place_spans(line.spans@.skip(si as int), x as int, width as int).1,
            p.2 == place_spans(line.spans@.skip(si as int), x as int, width as int).2,
        decreases line.spans@.len() - si,
    {
        proof {
            assert(line.spans@.skip(si as int)[0] == line.spans@[si as int]);
            assert(line.spans@.skip(si as int).drop_first() =~= line.spans@.skip(si + 1));
        }
        let sp = clone_span(&line.spans[si]);
        let w = sp.width;
        if w >= width - x {
            placements.push(SpanPlacement { x, span: sp });
            proof {
                assert(placements@ =~= p.0);
            }
            return (placements, width - 1, true);
        }
        placements.push(SpanPlacement { x, span: sp });
        x = x + w;
        proof {
            assert(p.0 == placements@ + place_spans(
                line.spans@.skip(si + 1),
                x as int,
                width as int,
            ).0);
        }
        si = si + 1;
    }
    proof {
        assert(line.spans@.skip(si as int) =~= Seq::<DisplaySpan>::empty());
        assert(placements@ =~= p.0);
    }
    (placements, x, false)
}

impl Screen {
    /// Every rendered line of the collapsed view, in order, each tagged
    /// with its owning row.
    pub fn display_lines(&self) -> (r: Vec<LineEntry>)
        requires
            self.wf(),
        ensures
            ({
                let es = display_entries(self.items@, self.collapse_ids());
                &&& r@.len() == es.len()
                &&& forall|j: int|
                    0 <= j < es.len() ==> entry_matches(self.items@, #[trigger] r@[j], es[j])
            }),
    {
        let ghost items = self.items@;
        let ghost coll = self.collapse_ids();
        let mut r: Vec<LineEntry> = Vec::new();
        let mut collapse_depth: Option<usize> = None;
        let mut i: usize = 0;
        while i < self.items.len()
            invariant
                0 <= i <= items.len(),
                items == self.items@,
                coll == self.collapse_ids(),
                self.wf(),
                crate::screen::scan_depth(items, coll, i as int) == match collapse_depth {
                    Some(d) => Some(d as int),
                    None => None::<int>,
                },
                r@.len() == entries_upto(items, coll, i as int).len(),
                forall|j: int|
                    0 <= j < r@.len() ==> entry_matches(
                        items,
                        #[trigger] r@[j],
                        entries_upto(items, coll, i as int)[j],
                    ),
            decreases items.len() - i,
        {
            let hidden = match collapse_depth {
                Some(d) => self.items[i].depth > d,
                None => false,
            };
            if !hidden {
                let ghost pre = entries_upto(items, coll, i as int);
                let lc = self.items[i].display.lines.len();
                let mut k: usize = 0;
                while k < lc
                    invariant
                        0 <= k <= lc,
                        0 <= i < items.len(),
                        lc == items[i as int].display.lines@.len(),
                        items == self.items@,
                        pre == entries_upto(items, coll, i as int),
                        r@.len() == pre.len() + k,
                        forall|j: int|
                            0 <= j < pre.len() ==> entry_matches(
                                items,
                                #[trigger] r@[j],
                                pre[j],
                            ),
                        forall|j: int|
                            pre.len() <= j < r@.len() ==> entry_matches(
                                items,
                                #[trigger] r@[j],
                                (i as int, j - pre.len()),
                            ),
                    decreases lc - k,
                {
                    let e = LineEntry {
                        row: i,
                        depth: self.items[i].depth,
                        line: clone_line(&self.items[i].display.lines[k]),
                        first: k == 0,
                        last: k == lc - 1,
                    };
                    r.push(e);
                    k = k + 1;
                }
                proof {
                    let cur = entries_upto(items, coll, i + 1);
                    assert(cur =~= pre + row_lines(items, i as int));
                    assert forall|j: int| 0 <= j < r@.len() implies entry_matches(
                        items,
                        #[trigger] r@[j],
                        cur[j],
                    ) by {
                        if j >= pre.len() {
                            assert(cur[j] == row_lines(items, i as int)[j - pre.len()]);
                            assert(cur[j] == (i as int, j - pre.len()));
                        }
                    }
                }
                if self.items[i].section && self.is_collapsed(&self.items[i]) {
                    collapse_depth = Some(self.items[i].depth);
                } else {
                    collapse_depth = None;
                }
            }
            i = i + 1;
        }
        r
    }

    /// Render the viewport: skip the first `scroll` lines of the collapsed
    /// view, take the next `height`, and paint each with its highlight
    /// band, truncated spans, ellipsis mark, and cursor glyph. Rendering
    /// never fails; a window past the content's end renders fewer lines.
    pub fn render(&self) -> (r: Vec<RenderedLine>)
        requires
            self.wf(),
            self.width >= 1,
        ensures
            ({
                let items = self.items@;
                let coll = self.collapse_ids();
                let es = display_entries(items, coll);
                let start = self.scroll as int;
                let shown = if start >= es.len() {
                    0int
                } else if es.len() - start >= self.height as int {
                    self.height as int
                } else {
                    es.len() - start
                };
                &&& es.len() == crate::screen::total_lines(items, coll)
                &&& r@.len() == shown
                &&& forall|k: int|
                    0 <= k < shown ==> rendered_line_ok(
                        items,
                        coll,
                        self.cursor as int,
                        self.width as int,
                        es,
                        start,
                        k,
                        #[trigger] r@[k],
                    )
            }),
    {
        let ghost items = self.items@;
        let ghost coll = self.collapse_ids();
        let entries = self.display_lines();
        let ghost es = display_entries(items, coll);
        proof {
            lemma_entries_valid(items, coll, items.len() as int);
            lemma_entries_len(items, coll, items.len() as int);
        }
        let total = entries.len();
        let shown: usize = if self.scroll >= total {
            0
        } else if total - self.scroll >= self.height {
            self.height
        } else {
            total - self.scroll
        };
        let mut r: Vec<RenderedLine> = Vec::new();
        // the highlight state left by the previous window line
        let mut hl_prev: Option<usize> = None;
        let mut k: usize = 0;
        while k < shown
            invariant
                0 <= k <= shown,
                items == self.items@,
                coll == self.collapse_ids(),
                es == display_entries(items, coll),
                entries@.len() == es.len(),
                forall|j: int|
                    0 <= j < es.len() ==> entry_matches(items, #[trigger] entries@[j], es[j]),
                forall|j: int|
                    0 <= j < es.len() ==> {
                        let m = #[trigger] es[j];
                        &&& 0 <= m.0 < items.len()
                        &&& 0 <= m.1 < items[m.0].display.lines@.len()
                    },
                es.len() <= usize::MAX,
                shown == 0 || self.scroll + shown <= es.len(),
                self.width >= 1,
                r@.len() == k,
                match hl_prev {
                    Some(d) => k > 0 && hl_at(items, es, self.cursor as int, self.scroll as int, k - 1)
                        == Some(d as int),
                    None => k == 0 || hl_at(items, es, self.cursor as int, self.scroll as int, k - 1)
                        is None,
                },
                forall|j: int|
                    0 <= j < k ==> rendered_line_ok(
                        items,
                        coll,
                        self.cursor as int,
                        self.width as int,
                        es,
                        self.scroll as int,
                        j,
                        #[trigger] r@[j],
                    ),
            decreases shown - k,
        {
            let idx = self.scroll + k;
            let e = &entries[idx];
            proof {
                assert(entry_matches(items, entries@[idx as int], es[idx as int]));
            }
            let hl: Option<usize> = if e.row == self.cursor {
                Some(e.depth)
            } else {
                match hl_prev {
                    Some(hd) => if hd >= e.depth {
                        None
                    } else {
                        Some(hd)
                    },
                    None => None,
                }
            };
            proof {
                assert(hl_at(items, es, self.cursor as int, self.scroll as int, k as int)
                    == match hl {
                    Some(d) => Some(d as int),
                    None => None::<int>,
                });
            }
            let (placements, end_x, overflow) = place_line(&e.line, self.width);
            let row_is_section = self.items[e.row].section;
            let collapsed_mark = row_is_section && self.is_collapsed(&self.items[e.row]) && e.last
                && e.line.has_content();
            let highlight = match hl {
                Some(_) => if e.row == self.cursor {
                    LineHighlight::Selected
                } else {
                    LineHighlight::Ancestor
                },
                None => LineHighlight::Plain,
            };
            let ellipsis_at: Option<usize> = if overflow || collapsed_mark {
                Some(end_x)
            } else {
                None
            };
            let cursor_glyph = e.row == self.cursor && e.first;
            let rl = RenderedLine { row: e.row, highlight, placements, ellipsis_at, cursor_glyph };
            r.push(rl);
            hl_prev = hl;
            k = k + 1;
        }
        r
    }
}

} // verus!
