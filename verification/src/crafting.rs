//! Shaped crafting: grids, normalized patterns, recipes and their
//! collections.
//!
//! A pattern is the minimal bounding sub-grid of a crafting grid that holds
//! every non-empty cell. Two patterns are equal exactly when their shapes and
//! cells agree position by position.

use vstd::prelude::*;
use crate::items::{ItemId, ItemStack};

verus! {

/// A square crafting grid of item stacks.
#[derive(Clone, Debug)]
pub struct CraftingGrid {
    pub slots: Vec<ItemStack>,
}

impl CraftingGrid {
    /// Every slot is canonical.
    pub open spec fn wf(self) -> bool {
        forall|i: int| 0 <= i < self.slots@.len() ==> #[trigger] self.slots@[i].wf()
    }

    /// A grid of `len` empty slots.
    pub fn with_size(len: usize) -> (g: CraftingGrid)
        ensures
            g.wf(),
            g.slots@.len() == len,
            forall|i: int| 0 <= i < len ==> #[trigger] g.slots@[i].spec_is_empty(),
    {
        let mut slots: Vec<ItemStack> = Vec::new();
        let mut i: usize = 0;
        while i < len
            invariant
                i <= len,
                slots@.len() == i,
                forall|j: int| 0 <= j < i ==> #[trigger] slots@[j] == (ItemStack {
                    item: None,
                    size: 0u32,
                    capacity: 0u32,
                }),
            decreases len - i,
        {
            slots.push(ItemStack { item: None, size: 0, capacity: 0 });
            i = i + 1;
        }
        CraftingGrid { slots }
    }
}

/// The cells of one pattern row.
pub type PatternRow = Vec<Option<ItemId>>;

/// A normalized shaped pattern: the minimal bounding sub-grid of a crafting
/// grid, in row-major order.
#[derive(Clone, Debug)]
pub struct Pattern {
    pub rows: Vec<PatternRow>,
}

impl Pattern {
    /// The cells as a sequence of rows.
    pub open spec fn view2(self) -> Seq<Seq<Option<ItemId>>> {
        self.rows@.map_values(|r: PatternRow| r@)
    }
}

/// Every row has width `w`.
pub open spec fn rect(p: Seq<Seq<Option<ItemId>>>, w: int) -> bool {
    forall|r: int| 0 <= r < p.len() ==> (#[trigger] p[r]).len() == w
}

/// Row `r` holds at least one item.
pub open spec fn row_nonempty(p: Seq<Seq<Option<ItemId>>>, r: int) -> bool {
    exists|c: int| 0 <= c < p[r].len() && p[r][c] is Some
}

/// Column `c` holds at least one item.
pub open spec fn col_nonempty(p: Seq<Seq<Option<ItemId>>>, c: int) -> bool {
    exists|r: int| 0 <= r < p.len() && 0 <= c < p[r].len() && p[r][c] is Some
}

/// The first row at or after `r` that holds an item, or `p.len()` if none.
pub open spec fn first_row_from(p: Seq<Seq<Option<ItemId>>>, r: int) -> int
    decreases p.len() - r when 0 <= r <= p.len()
{
    if r >= p.len() {
        p.len() as int
    } else if row_nonempty(p, r) {
        r
    } else {
        first_row_from(p, r + 1)
    }
}

/// The last row at or before `r` that holds an item, or `-1` if none.
pub open spec fn last_row_from(p: Seq<Seq<Option<ItemId>>>, r: int) -> int
    decreases r + 1 when -1 <= r < p.len()
{
    if r < 0 {
        -1
    } else if row_nonempty(p, r) {
        r
    } else {
        last_row_from(p, r - 1)
    }
}

/// The first column at or after `c` (up to width `w`) that holds an item, or
/// `w` if none.
pub open spec fn first_col_from(p: Seq<Seq<Option<ItemId>>>, c: int, w: int) -> int
    decreases w - c when 0 <= c <= w
{
    if c >= w {
        w
    } else if col_nonempty(p, c) {
        c
    } else {
        first_col_from(p, c + 1, w)
    }
}

/// The last column at or before `c` that holds an item, or `-1` if none.
pub open spec fn last_col_from(p: Seq<Seq<Option<ItemId>>>, c: int) -> int
    decreases c + 1 when -1 <= c
{
    if c < 0 {
        -1
    } else if col_nonempty(p, c) {
        c
    } else {
        last_col_from(p, c - 1)
    }
}

/// The minimal bounding sub-grid of `p` that holds every item: rows from the
/// first to the last non-empty row, columns from the first to the last
/// non-empty column. Empty when `p` holds no item at all.
pub open spec fn spec_normalize(p: Seq<Seq<Option<ItemId>>>, w: int) -> Seq<
    Seq<Option<ItemId>>,
> {
    let fr = first_row_from(p, 0);
    if fr == p.len() {
        Seq::empty()
    } else {
        let lr = last_row_from(p, p.len() - 1);
        let fc = first_col_from(p, 0, w);
        let lc = last_col_from(p, w - 1);
        Seq::new((lr + 1 - fr) as nat, |r: int| p[fr + r].subrange(fc, lc + 1))
    }
}

/// `p` is its own minimal bounding sub-grid: either empty, or bounded by
/// non-empty first and last rows and columns.
pub open spec fn is_normalized(p: Seq<Seq<Option<ItemId>>>, w: int) -> bool {
    ||| p.len() == 0
    ||| (w > 0 && row_nonempty(p, 0) && row_nonempty(p, p.len() - 1) && col_nonempty(p, 0)
        && col_nonempty(p, w - 1))
}

proof fn lemma_first_row_from(p: Seq<Seq<Option<ItemId>>>, r: int)
    requires
        0 <= r <= p.len(),
    ensures
        r <= first_row_from(p, r) <= p.len(),
        first_row_from(p, r) < p.len() ==> row_nonempty(p, first_row_from(p, r)),
        forall|j: int| r <= j < first_row_from(p, r) ==> !row_nonempty(p, j),
    decreases p.len() - r,
{
    if r < p.len() && !row_nonempty(p, r) {
        lemma_first_row_from(p, r + 1);
    }
}

proof fn lemma_last_row_from(p: Seq<Seq<Option<ItemId>>>, r: int)
    requires
        -1 <= r < p.len(),
    ensures
        -1 <= last_row_from(p, r) <= r,
        last_row_from(p, r) >= 0 ==> row_nonempty(p, last_row_from(p, r)),
        forall|j: int| last_row_from(p, r) < j <= r ==> !row_nonempty(p, j),
    decreases r + 1,
{
    if r >= 0 && !row_nonempty(p, r) {
        lemma_last_row_from(p, r - 1);
    }
}

proof fn lemma_first_col_from(p: Seq<Seq<Option<ItemId>>>, c: int, w: int)
    requires
        0 <= c <= w,
    ensures
        c <= first_col_from(p, c, w) <= w,
        first_col_from(p, c, w) < w ==> col_nonempty(p, first_col_from(p, c, w)),
        forall|j: int| c <= j < first_col_from(p, c, w) ==> !col_nonempty(p, j),
    decreases w - c,
{
    if c < w && !col_nonempty(p, c) {
        lemma_first_col_from(p, c + 1, w);
    }
}

proof fn lemma_last_col_from(p: Seq<Seq<Option<ItemId>>>, c: int)
    requires
        -1 <= c,
    ensures
        -1 <= last_col_from(p, c) <= c,
        last_col_from(p, c) >= 0 ==> col_nonempty(p, last_col_from(p, c)),
        forall|j: int| last_col_from(p, c) < j <= c ==> !col_nonempty(p, j),
    decreases c + 1,
{
    if c >= 0 && !col_nonempty(p, c) {
        lemma_last_col_from(p, c - 1);
    }
}

/// In a rectangular grid, a non-empty row has its item inside the column
/// bounds, and vice versa: the bounding box really bounds every item.
proof fn lemma_bounds_hold_items(p: Seq<Seq<Option<ItemId>>>, w: int)
    requires
        rect(p, w),
        first_row_from(p, 0) < p.len(),
    ensures
        0 <= first_row_from(p, 0) <= last_row_from(p, p.len() - 1) < p.len(),
        0 <= first_col_from(p, 0, w) <= last_col_from(p, w - 1) < w,
{
    let fr = first_row_from(p, 0);
    lemma_first_row_from(p, 0);
    lemma_last_row_from(p, p.len() - 1);
    lemma_first_col_from(p, 0, w);
    lemma_last_col_from(p, w - 1);
    let c = choose|c: int| 0 <= c < p[fr].len() && p[fr][c] is Some;
    assert(col_nonempty(p, c));
    assert(last_row_from(p, p.len() - 1) >= fr) by {
        assert(row_nonempty(p, fr));
    }
    assert(first_col_from(p, 0, w) <= c && c <= last_col_from(p, w - 1));
    let lr = last_row_from(p, p.len() - 1);
    let cc = choose|cc: int| 0 <= cc < p[lr].len() && p[lr][cc] is Some;
    assert(col_nonempty(p, cc));
}

/// The normalized form of a rectangular grid is itself normalized.
proof fn lemma_normalize_is_normalized(p: Seq<Seq<Option<ItemId>>>, w: int)
    requires
        rect(p, w),
    ensures
        is_normalized(spec_normalize(p, w), last_col_from(p, w - 1) + 1 - first_col_from(p, 0, w)),
        rect(spec_normalize(p, w), last_col_from(p, w - 1) + 1 - first_col_from(p, 0, w))
            || spec_normalize(p, w).len() == 0,
{
    let q = spec_normalize(p, w);
    let fr = first_row_from(p, 0);
    lemma_first_row_from(p, 0);
    if fr == p.len() {
        assert(q.len() == 0);
    } else {
        lemma_bounds_hold_items(p, w);
        let lr = last_row_from(p, p.len() - 1);
        let fc = first_col_from(p, 0, w);
        let lc = last_col_from(p, w - 1);
        let qw = lc + 1 - fc;
        lemma_last_row_from(p, p.len() - 1);
        lemma_first_col_from(p, 0, w);
        lemma_last_col_from(p, w - 1);
        assert(rect(q, qw));
        // Row 0 of the crop: row `fr` holds an item at some column `c`;
        // that column is non-empty, so fc <= c <= lc and the item survives.
        assert(row_nonempty(q, 0)) by {
            let c = choose|c: int| 0 <= c < p[fr].len() && p[fr][c] is Some;
            assert(col_nonempty(p, c));
            assert(q[0][c - fc] == p[fr][c]);
        }
        assert(row_nonempty(q, q.len() - 1)) by {
            let c = choose|c: int| 0 <= c < p[lr].len() && p[lr][c] is Some;
            assert(col_nonempty(p, c));
            assert(q[q.len() - 1][c - fc] == p[lr][c]);
        }
        // First cropped column: column `fc` holds an item at some row `r`;
        // that row is non-empty, so fr <= r <= lr and the item survives.
        assert(col_nonempty(q, 0)) by {
            let r = choose|r: int| 0 <= r < p.len() && 0 <= fc < p[r].len() && p[r][fc] is Some;
            assert(row_nonempty(p, r));
            assert(fr <= r <= lr);
            assert(q[r - fr][0] == p[r][fc]);
        }
        assert(col_nonempty(q, qw - 1)) by {
            let r = choose|r: int| 0 <= r < p.len() && 0 <= lc < p[r].len() && p[r][lc] is Some;
            assert(row_nonempty(p, r));
            assert(fr <= r <= lr);
            assert(q[r - fr][qw - 1] == p[r][lc]);
        }
    }
}

/// Normalizing an already-normalized rectangular grid changes nothing.
proof fn lemma_normalize_fixed_point(p: Seq<Seq<Option<ItemId>>>, w: int)
    requires
        rect(p, w),
        is_normalized(p, w),
        p.len() > 0,
    ensures
        spec_normalize(p, w) =~~= p,
{
    lemma_first_row_from(p, 0);
    lemma_last_row_from(p, p.len() - 1);
    lemma_first_col_from(p, 0, w);
    lemma_last_col_from(p, w - 1);
    assert(first_row_from(p, 0) == 0);
    assert(last_row_from(p, p.len() - 1) == p.len() - 1);
    assert(first_col_from(p, 0, w) == 0);
    assert(last_col_from(p, w - 1) == w - 1);
    let q = spec_normalize(p, w);
    assert forall|r: int| 0 <= r < p.len() implies q[r] =~= p[r] by {
        assert(q[r] == p[r].subrange(0, w as int));
    }
}

/// The cells of a square crafting grid read as a pattern: cell `(r, c)` is
/// the item of slot `r * side + c`.
pub open spec fn grid_cells(slots: Seq<ItemStack>, side: int) -> Seq<Seq<Option<ItemId>>> {
    Seq::new(side as nat, |r: int| Seq::new(side as nat, |c: int| slots[r * side + c].item))
}

/// Whether row `r` of `p` holds at least one item.
fn row_has_item(rows: &Vec<PatternRow>, r: usize) -> (res: bool)
    requires
        r < rows@.len(),
    ensures
        res == row_nonempty(rows@.map_values(|x: PatternRow| x@), r as int),
{
    let ghost p = rows@.map_values(|x: PatternRow| x@);
    let row = &rows[r];
    let mut c: usize = 0;
    while c < row.len()
        invariant
            r < rows@.len(),
            p == rows@.map_values(|x: PatternRow| x@),
            row@ == p[r as int],
            c <= row@.len(),
            forall|j: int| 0 <= j < c ==> !(p[r as int][j] is Some),
        decreases row@.len() - c,
    {
        if row[c].is_some() {
            return true;
        }
        c = c + 1;
    }
    false
}

/// Whether column `c` of `p` holds at least one item.
fn col_has_item(rows: &Vec<PatternRow>, c: usize) -> (res: bool)
    ensures
        res == col_nonempty(rows@.map_values(|x: PatternRow| x@), c as int),
{
    let ghost p = rows@.map_values(|x: PatternRow| x@);
    let mut r: usize = 0;
    while r < rows.len()
        invariant
            p == rows@.map_values(|x: PatternRow| x@),
            r <= rows@.len(),
            forall|j: int|
                0 <= j < r ==> !(0 <= c < p[j].len() && #[trigger] (p[j][c as int]) is Some),
        decreases rows@.len() - r,
    {
        let row = &rows[r];
        if c < row.len() && row[c].is_some() {
            proof {
                let rr = r as int;
                assert(0 <= rr < p.len() && 0 <= c < p[rr].len() && p[rr][c as int] is Some);
            }
            return true;
        }
        r = r + 1;
    }
    false
}

impl Pattern {
    /// Width of the pattern: the length of its rows.
    pub open spec fn spec_width(self) -> int {
        if self.rows@.len() == 0 {
            0
        } else {
            self.rows@[0]@.len() as int
        }
    }

    /// Rectangular: every row has the width of the first.
    pub open spec fn wf(self) -> bool {
        rect(self.view2(), self.spec_width())
    }

    /// Crop to the minimal bounding sub-grid holding every item.
    pub fn normalize(&self) -> (q: Pattern)
        requires
            self.wf(),
        ensures
            q.wf(),
            q.view2() == spec_normalize(self.view2(), self.spec_width()),
    {
        let ghost p = self.view2();
        let ghost ww = self.spec_width();
        let rows_len = self.rows.len();
        let w = if rows_len == 0 {
            0
        } else {
            self.rows[0].len()
        };

        // First non-empty row, or the row count if none.
        let mut fr: usize = 0;
        while fr < rows_len && !row_has_item(&self.rows, fr)
            invariant
                self.wf(),
                p == self.view2(),
                rows_len == self.rows@.len(),
                fr <= rows_len,
                first_row_from(p, 0) == first_row_from(p, fr as int),
            decreases rows_len - fr,
        {
            fr = fr + 1;
        }
        if fr == rows_len {
            proof {
                assert(first_row_from(p, fr as int) == p.len());
            }
            return Pattern { rows: Vec::new() };
        }
        proof {
            assert(first_row_from(p, 0) == fr as int);
        }

        // Last non-empty row.
        let mut lr: usize = rows_len - 1;
        while lr > fr && !row_has_item(&self.rows, lr)
            invariant
                self.wf(),
                p == self.view2(),
                rows_len == self.rows@.len(),
                fr <= lr < rows_len,
                row_nonempty(p, fr as int),
                last_row_from(p, p.len() - 1) == last_row_from(p, lr as int),
            decreases lr,
        {
            lr = lr - 1;
        }
        proof {
            assert(last_row_from(p, lr as int) == lr as int);
        }

        // First and last non-empty columns.
        let mut fc: usize = 0;
        while fc < w && !col_has_item(&self.rows, fc)
            invariant
                self.wf(),
                p == self.view2(),
                ww == self.spec_width(),
                w == ww,
                fc <= w,
                first_col_from(p, 0, ww) == first_col_from(p, fc as int, ww),
            decreases w - fc,
        {
            fc = fc + 1;
        }
        proof {
            lemma_bounds_hold_items(p, ww);
            assert(first_col_from(p, fc as int, ww) == fc as int);
        }
        let mut lc: usize = w - 1;
        while lc > fc && !col_has_item(&self.rows, lc)
            invariant
                self.wf(),
                p == self.view2(),
                ww == self.spec_width(),
                w == ww,
                fc <= lc < w,
                col_nonempty(p, fc as int),
                last_col_from(p, ww - 1) == last_col_from(p, lc as int),
            decreases lc,
        {
            lc = lc - 1;
        }
        proof {
            assert(last_col_from(p, lc as int) == lc as int);
        }

        // Copy the bounded region.
        let mut rows: Vec<PatternRow> = Vec::new();
        let mut r: usize = fr;
        while r <= lr
            invariant
                self.wf(),
                p == self.view2(),
                ww == self.spec_width(),
                w == ww,
                rows_len == self.rows@.len(),
                fr <= r <= lr + 1,
                lr < rows_len,
                fc <= lc < w,
                rows@.len() == r - fr,
                forall|i: int|
                    0 <= i < rows@.len() ==> (#[trigger] rows@[i])@ == p[fr + i].subrange(
                        fc as int,
                        lc + 1,
                    ),
            decreases lr + 1 - r,
        {
            let src = &self.rows[r];
            let mut row: PatternRow = Vec::new();
            let mut c: usize = fc;
            while c <= lc
                invariant
                    self.wf(),
                    p == self.view2(),
                    ww == self.spec_width(),
                    w == ww,
                    rows_len == self.rows@.len(),
                    r < rows_len,
                    src@ == p[r as int],
                    fc <= c <= lc + 1,
                    lc < w,
                    row@.len() == c - fc,
                    forall|i: int| 0 <= i < row@.len() ==> row@[i] == p[r as int][fc + i],
                decreases lc + 1 - c,
            {
                row.push(src[c]);
                c = c + 1;
            }
            proof {
                assert(row@ =~= p[r as int].subrange(fc as int, lc + 1));
            }
            rows.push(row);
            r = r + 1;
        }
        let q = Pattern { rows };
        proof {
            assert(q.view2() =~~= spec_normalize(p, ww));
            assert(q.spec_width() == lc + 1 - fc);
            assert(rect(q.view2(), q.spec_width()));
        }
        q
    }

    /// Whether two patterns agree in shape and in every cell.
    pub fn matches(&self, other: &Pattern) -> (r: bool)
        ensures
            r == (self.view2() =~~= other.view2()),
    {
        if self.rows.len() != other.rows.len() {
            proof {
                assert(self.view2().len() != other.view2().len());
            }
            return false;
        }
        let mut i: usize = 0;
        while i < self.rows.len()
            invariant
                self.rows@.len() == other.rows@.len(),
                i <= self.rows@.len(),
                forall|j: int| 0 <= j < i ==> #[trigger] self.view2()[j] =~= other.view2()[j],
            decreases self.rows@.len() - i,
        {
            let a = &self.rows[i];
            let b = &other.rows[i];
            proof {
                assert(self.view2()[i as int] == a@);
                assert(other.view2()[i as int] == b@);
            }
            if a.len() != b.len() {
                proof {
                    assert(self.view2()[i as int].len() != other.view2()[i as int].len());
                }
                return false;
            }
            let mut j: usize = 0;
            while j < a.len()
                invariant
                    a@.len() == b@.len(),
                    j <= a@.len(),
                    i < self.rows@.len(),
                    self.rows@.len() == other.rows@.len(),
                    a@ == self.view2()[i as int],
                    b@ == other.view2()[i as int],
                    forall|k: int| 0 <= k < j ==> a@[k] == b@[k],
                decreases a@.len() - j,
            {
                if a[j] != b[j] {
                    proof {
                        let jj = j as int;
                        assert(self.view2()[i as int][jj] != other.view2()[i as int][jj]);
                    }
                    return false;
                }
                j = j + 1;
            }
            proof {
                assert(self.view2()[i as int] =~= other.view2()[i as int]);
            }
            i = i + 1;
        }
        proof {
            assert(self.view2() =~~= other.view2());
        }
        true
    }

    /// Read a square crafting grid as a pattern and crop it. Fails exactly
    /// when the grid is not square.
    pub fn from_grid(grid: &CraftingGrid) -> (q: Option<Pattern>)
        ensures
            match q {
                Some(pat) => {
                    &&& exists|s: int|
                        0 <= s && #[trigger] (s * s) == grid.slots@.len() && pat.view2()
                            == spec_normalize(grid_cells(grid.slots@, s), s)
                    &&& pat.wf()
                },
                None => forall|s: int| 0 <= s ==> #[trigger] (s * s) != grid.slots@.len(),
            },
    {
        let len = grid.slots.len();
        // Find the integer square root; the grid must be exactly square. The
        // square is maintained incrementally so no multiplication overflows.
        let mut side: usize = 0;
        let mut sq: u128 = 0;
        while sq < (len as u128)
            invariant
                side <= len,
                sq == (side as int) * (side as int),
                forall|j: int| 0 <= j < side ==> #[trigger] (j * j) < len,
            decreases len - side,
        {
            proof {
                assert(side + 1 <= len) by (nonlinear_arith)
                    requires
                        (side as int) * (side as int) < len as int,
                        side >= 0,
                ;
                assert(((side + 1) as int) * ((side + 1) as int) == (side as int) * (side as int)
                    + 2 * (side as int) + 1) by (nonlinear_arith);
            }
            sq = sq + 2 * (side as u128) + 1;
            side = side + 1;
        }
        if sq != (len as u128) {
            proof {
                assert forall|s: int| 0 <= s implies #[trigger] (s * s) != grid.slots@.len() by {
                    if s < side {
                    } else {
                        assert(s * s >= (side as int) * (side as int)) by (nonlinear_arith)
                            requires
                                s >= side >= 0,
                        ;
                    }
                }
            }
            return None;
        }

        // Lay the slots out as rows of item cells.
        let ghost cells = grid_cells(grid.slots@, side as int);
        let mut rows: Vec<PatternRow> = Vec::new();
        let mut r: usize = 0;
        while r < side
            invariant
                len == grid.slots@.len(),
                (side as int) * (side as int) == grid.slots@.len(),
                cells == grid_cells(grid.slots@, side as int),
                r <= side,
                rows@.len() == r,
                forall|i: int| 0 <= i < r ==> (#[trigger] rows@[i])@ =~= cells[i],
            decreases side - r,
        {
            let mut row: PatternRow = Vec::new();
            let mut c: usize = 0;
            proof {
                assert((r as int) * (side as int) + side <= (side as int) * (side as int))
                    by (nonlinear_arith)
                    requires
                        0 <= r < side,
                ;
                assert((r as int) * (side as int) >= 0) by (nonlinear_arith)
                    requires
                        0 <= r,
                        0 <= side,
                ;
            }
            while c < side
                invariant
                    len == grid.slots@.len(),
                    (side as int) * (side as int) == grid.slots@.len(),
                    cells == grid_cells(grid.slots@, side as int),
                    r < side,
                    (r as int) * (side as int) + side <= grid.slots@.len(),
                    (r as int) * (side as int) >= 0,
                    c <= side,
                    row@.len() == c,
                    forall|i: int|
                        0 <= i < c ==> row@[i] == grid.slots@[(r as int) * (side as int)
                            + i].item,
                decreases side - c,
            {
                row.push(grid.slots[r * side + c].item);
                c = c + 1;
            }
            proof {
                assert(row@ =~= cells[r as int]);
            }
            rows.push(row);
            r = r + 1;
        }
        let full = Pattern { rows };
        proof {
            assert(full.view2() =~~= cells);
            assert(full.wf()) by {
                if side > 0 {
                    assert(full.view2()[0].len() == side as int);
                }
                assert(rect(full.view2(), full.spec_width()));
            }
            assert(full.spec_width() == if side == 0 {
                0int
            } else {
                side as int
            });
        }
        if side == 0 {
            proof {
                assert(spec_normalize(cells, 0) =~~= full.view2());
            }
            return Some(full);
        }
        let q = full.normalize();
        Some(q)
    }
}

/// `q` is `p` translated by `(dr, dc)`: every cell of `q` reads the
/// corresponding cell of `p`, cells outside `p` are empty, and every item of
/// `p` lands inside `q`.
pub open spec fn is_shifted(
    p: Seq<Seq<Option<ItemId>>>,
    w: int,
    q: Seq<Seq<Option<ItemId>>>,
    w2: int,
    dr: int,
    dc: int,
) -> bool {
    &&& forall|r: int, c: int|
        0 <= r < q.len() && 0 <= c < w2 ==> #[trigger] q[r][c] == (if 0 <= r - dr < p.len() && 0
            <= c - dc < w {
            p[r - dr][c - dc]
        } else {
            None
        })
    &&& forall|r: int, c: int|
        0 <= r < p.len() && 0 <= c < w && (#[trigger] p[r][c]) is Some ==> 0 <= r + dr < q.len()
            && 0 <= c + dc < w2
}

/// Rows and columns carry their items across a shift.
proof fn lemma_shift_rows_cols(
    p: Seq<Seq<Option<ItemId>>>,
    w: int,
    q: Seq<Seq<Option<ItemId>>>,
    w2: int,
    dr: int,
    dc: int,
)
    requires
        rect(p, w),
        rect(q, w2),
        is_shifted(p, w, q, w2, dr, dc),
    ensures
        forall|r: int|
            0 <= r < q.len() ==> (#[trigger] row_nonempty(q, r) <==> (0 <= r - dr < p.len()
                && row_nonempty(p, r - dr))),
        forall|c: int|
            0 <= c < w2 ==> (#[trigger] col_nonempty(q, c) <==> (0 <= c - dc < w && col_nonempty(
                p,
                c - dc,
            ))),
{
    assert forall|r: int| 0 <= r < q.len() implies (#[trigger] row_nonempty(q, r) <==> (0 <= r - dr
        < p.len() && row_nonempty(p, r - dr))) by {
        if row_nonempty(q, r) {
            let c = choose|c: int| 0 <= c < q[r].len() && q[r][c] is Some;
            assert(q[r][c] is Some);
            assert(0 <= r - dr < p.len() && 0 <= c - dc < w && p[r - dr][c - dc] is Some);
            assert(row_nonempty(p, r - dr));
        }
        if 0 <= r - dr < p.len() && row_nonempty(p, r - dr) {
            let c = choose|c: int| 0 <= c < p[r - dr].len() && (#[trigger] p[r - dr][c]) is Some;
            assert(0 <= r < q.len() && 0 <= c + dc < w2);
            assert(q[r][c + dc] == p[r - dr][c]);
            assert(row_nonempty(q, r));
        }
    }
    assert forall|c: int| 0 <= c < w2 implies (#[trigger] col_nonempty(q, c) <==> (0 <= c - dc < w
        && col_nonempty(p, c - dc))) by {
        if col_nonempty(q, c) {
            let r = choose|r: int| 0 <= r < q.len() && 0 <= c < q[r].len() && q[r][c] is Some;
            assert(q[r][c] is Some);
            assert(0 <= r - dr < p.len() && 0 <= c - dc < w && p[r - dr][c - dc] is Some);
            assert(col_nonempty(p, c - dc));
        }
        if 0 <= c - dc < w && col_nonempty(p, c - dc) {
            let r = choose|r: int|
                0 <= r < p.len() && 0 <= c - dc < p[r].len() && p[r][c - dc] is Some;
            assert(0 <= r + dr < q.len());
            assert(q[r + dr][c] == p[r][c - dc]);
            assert(col_nonempty(q, c));
        }
    }
}

/// The first non-empty row of a shifted grid sits `dr` further down, as long
/// as there is one at all.
proof fn lemma_shift_scans(
    p: Seq<Seq<Option<ItemId>>>,
    w: int,
    q: Seq<Seq<Option<ItemId>>>,
    w2: int,
    dr: int,
    dc: int,
)
    requires
        rect(p, w),
        rect(q, w2),
        is_shifted(p, w, q, w2, dr, dc),
        first_row_from(p, 0) < p.len(),
    ensures
        first_row_from(q, 0) == first_row_from(p, 0) + dr,
        last_row_from(q, q.len() - 1) == last_row_from(p, p.len() - 1) + dr,
        first_col_from(q, 0, w2) == first_col_from(p, 0, w) + dc,
        last_col_from(q, w2 - 1) == last_col_from(p, w - 1) + dc,
{
    lemma_shift_rows_cols(p, w, q, w2, dr, dc);
    lemma_first_row_from(p, 0);
    lemma_last_row_from(p, p.len() - 1);
    lemma_first_col_from(p, 0, w);
    lemma_last_col_from(p, w - 1);
    lemma_bounds_hold_items(p, w);
    lemma_first_row_from(q, 0);
    lemma_last_row_from(q, q.len() - 1);
    lemma_first_col_from(q, 0, w2);
    lemma_last_col_from(q, w2 - 1);
    let fr = first_row_from(p, 0);
    let lr = last_row_from(p, p.len() - 1);
    let fc = first_col_from(p, 0, w);
    let lc = last_col_from(p, w - 1);
    // Each shifted bound is non-empty on its own line and empty before (or
    // after) it, which pins the scan exactly.
    assert(row_nonempty(q, fr + dr));
    assert(0 <= fr + dr < q.len());
    assert(forall|j: int| 0 <= j < fr + dr ==> !row_nonempty(q, j));
    assert(first_row_from(q, 0) == fr + dr) by {
        if first_row_from(q, 0) < fr + dr {
            assert(row_nonempty(q, first_row_from(q, 0)));
        } else if first_row_from(q, 0) > fr + dr {
            assert(!row_nonempty(q, fr + dr));
        }
    }
    assert(row_nonempty(q, lr + dr));
    assert(forall|j: int| lr + dr < j < q.len() ==> !row_nonempty(q, j));
    assert(last_row_from(q, q.len() - 1) == lr + dr) by {
        if last_row_from(q, q.len() - 1) > lr + dr {
            assert(row_nonempty(q, last_row_from(q, q.len() - 1)));
        } else if last_row_from(q, q.len() - 1) < lr + dr {
            assert(!row_nonempty(q, lr + dr));
        }
    }
    assert(col_nonempty(q, fc + dc));
    assert(0 <= fc + dc < w2) by {
        let r = choose|r: int| 0 <= r < q.len() && 0 <= fc + dc < q[r].len() && q[r][fc
            + dc] is Some;
    }
    assert(forall|j: int| 0 <= j < fc + dc ==> !col_nonempty(q, j));
    assert(first_col_from(q, 0, w2) == fc + dc) by {
        if first_col_from(q, 0, w2) < fc + dc {
            assert(col_nonempty(q, first_col_from(q, 0, w2)));
        } else if first_col_from(q, 0, w2) > fc + dc {
            assert(!col_nonempty(q, fc + dc));
        }
    }
    assert(col_nonempty(q, lc + dc));
    assert(forall|j: int| lc + dc < j < w2 ==> !col_nonempty(q, j));
    assert(last_col_from(q, w2 - 1) == lc + dc) by {
        if last_col_from(q, w2 - 1) > lc + dc {
            assert(col_nonempty(q, last_col_from(q, w2 - 1)));
        } else if last_col_from(q, w2 - 1) < lc + dc {
            assert(!col_nonempty(q, lc + dc));
        }
    }
}

/// Two grids equal up to a shift have equal normalized forms: sliding the
/// items around a grid never changes the pattern they make.
pub proof fn lemma_normalize_shift_invariant(
    p: Seq<Seq<Option<ItemId>>>,
    w: int,
    q: Seq<Seq<Option<ItemId>>>,
    w2: int,
    dr: int,
    dc: int,
)
    requires
        rect(p, w),
        rect(q, w2),
        is_shifted(p, w, q, w2, dr, dc),
    ensures
        spec_normalize(q, w2) == spec_normalize(p, w),
{
    lemma_first_row_from(p, 0);
    lemma_first_row_from(q, 0);
    if first_row_from(p, 0) == p.len() {
        // No items anywhere: both normalize to the empty pattern.
        lemma_shift_rows_cols(p, w, q, w2, dr, dc);
        assert(forall|j: int| 0 <= j < q.len() ==> !row_nonempty(q, j));
        assert(first_row_from(q, 0) == q.len());
        assert(spec_normalize(q, w2) =~~= spec_normalize(p, w));
        return ;
    }
    lemma_shift_scans(p, w, q, w2, dr, dc);
    lemma_bounds_hold_items(p, w);
    lemma_last_row_from(p, p.len() - 1);
    lemma_first_col_from(p, 0, w);
    lemma_last_col_from(p, w - 1);
    let fr = first_row_from(p, 0);
    let lr = last_row_from(p, p.len() - 1);
    let fc = first_col_from(p, 0, w);
    let lc = last_col_from(p, w - 1);
    let a = spec_normalize(p, w);
    let b = spec_normalize(q, w2);
    assert(a.len() == b.len());
    lemma_last_row_from(q, q.len() - 1);
    assert(a.len() == lr + 1 - fr);
    assert(0 <= fr + dr && lr + dr < q.len());
    assert forall|r: int| 0 <= r < a.len() implies #[trigger] a[r] =~= b[r] by {
        assert(a[r] == p[fr + r].subrange(fc, lc + 1));
        assert(b[r] == q[fr + dr + r].subrange(fc + dc, lc + dc + 1));
        assert(0 <= fr + r < p.len() && p[fr + r].len() == w);
        assert(0 <= fr + dr + r < q.len() && q[fr + dr + r].len() == w2);
        assert(0 <= fc && lc + 1 <= w);
        assert(0 <= fc + dc && lc + dc + 1 <= w2) by {
            assert(col_nonempty(p, fc) && col_nonempty(p, lc));
            let r1 = choose|r1: int|
                0 <= r1 < p.len() && 0 <= fc < p[r1].len() && (#[trigger] p[r1][fc]) is Some;
            assert(0 <= fc + dc < w2);
            let r2 = choose|r2: int|
                0 <= r2 < p.len() && 0 <= lc < p[r2].len() && (#[trigger] p[r2][lc]) is Some;
            assert(0 <= lc + dc < w2);
        }
        assert(a[r].len() == lc + 1 - fc && b[r].len() == lc + 1 - fc);
        assert forall|c: int| 0 <= c < a[r].len() implies a[r][c] == b[r][c] by {
            assert(a[r][c] == p[fr + r][fc + c]);
            assert(b[r][c] == q[fr + dr + r][fc + dc + c]);
            assert(q[fr + dr + r][fc + dc + c] == p[fr + r][fc + c]) by {
                assert(0 <= (fr + dr + r) - dr < p.len() && 0 <= (fc + dc + c) - dc < w);
            }
        }
    }
    assert(a =~~= b);
}

/// The rows of a required-amount table laid out one after another, starting
/// at row `i`.
pub open spec fn flatten_from(rows: Seq<Seq<u32>>, i: int) -> Seq<u32>
    decreases rows.len() - i when 0 <= i <= rows.len()
{
    if i >= rows.len() {
        Seq::empty()
    } else {
        rows[i] + flatten_from(rows, i + 1)
    }
}

/// The pairing `craft` consumes: the `k`-th non-empty slot at or after `i`
/// goes with the `k`-th positive required amount at or after `j`, in order.
pub open spec fn pairs_from(slots: Seq<ItemStack>, req: Seq<u32>, i: int, j: int) -> Seq<
    (int, u32),
>
    decreases slots.len() - i + req.len() - j when 0 <= i <= slots.len() && 0 <= j <= req.len()
{
    if i >= slots.len() || j >= req.len() {
        Seq::empty()
    } else if slots[i].size == 0 {
        pairs_from(slots, req, i + 1, j)
    } else if req[j] == 0 {
        pairs_from(slots, req, i, j + 1)
    } else {
        seq![(i, req[j])] + pairs_from(slots, req, i + 1, j + 1)
    }
}

/// Every pair points at a non-empty slot inside the grid, carries a positive
/// required amount, and the slot indices strictly increase.
pub open spec fn pairs_ok(pairs: Seq<(int, u32)>, slots: Seq<ItemStack>, lo: int) -> bool {
    &&& forall|k: int|
        0 <= k < pairs.len() ==> lo <= (#[trigger] pairs[k]).0 < slots.len()
            && slots[pairs[k].0].size > 0 && pairs[k].1 > 0
    &&& forall|k1: int, k2: int|
        0 <= k1 < k2 < pairs.len() ==> (#[trigger] pairs[k1]).0 < (#[trigger] pairs[k2]).0
}

proof fn lemma_pairs_ok(slots: Seq<ItemStack>, req: Seq<u32>, i: int, j: int)
    requires
        0 <= i <= slots.len(),
        0 <= j <= req.len(),
    ensures
        pairs_ok(pairs_from(slots, req, i, j), slots, i),
    decreases slots.len() - i + req.len() - j,
{
    if i >= slots.len() || j >= req.len() {
    } else if slots[i].size == 0 {
        lemma_pairs_ok(slots, req, i + 1, j);
    } else if req[j] == 0 {
        lemma_pairs_ok(slots, req, i, j + 1);
    } else {
        lemma_pairs_ok(slots, req, i + 1, j + 1);
    }
}

/// The fewest whole crafts the paired slots allow, folded as a running
/// minimum that starts at `acc`.
pub open spec fn units_from(slots: Seq<ItemStack>, pairs: Seq<(int, u32)>, acc: u32) -> int
    decreases pairs.len(),
{
    if pairs.len() == 0 {
        acc as int
    } else {
        let u = slots[pairs[0].0].size as int / pairs[0].1 as int;
        if u < acc {
            units_from(slots, pairs.skip(1), u as u32)
        } else {
            units_from(slots, pairs.skip(1), acc)
        }
    }
}

/// A shaped recipe: a normalized pattern, how much of each patterned item a
/// craft consumes, and the stack one craft produces.
#[derive(Clone, Debug)]
pub struct Recipe {
    /// The normalized pattern an input grid must reduce to.
    pub pattern: Pattern,
    /// Required amount per pattern cell; positive exactly on item cells.
    pub required: Vec<Vec<u32>>,
    /// The stack one craft produces.
    pub output: ItemStack,
}

impl Recipe {
    /// The required amounts in row-major order.
    pub open spec fn spec_required_flat(self) -> Seq<u32> {
        flatten_from(self.required@.map_values(|r: Vec<u32>| r@), 0)
    }

    /// The slot/amount pairing a craft from `slots` consumes.
    pub open spec fn spec_pairs(self, slots: Seq<ItemStack>) -> Seq<(int, u32)> {
        pairs_from(slots, self.spec_required_flat(), 0, 0)
    }

    /// How many whole crafts `slots` allow; the `u32::MAX` start value is
    /// returned unchanged when nothing pairs up.
    pub open spec fn spec_units(self, slots: Seq<ItemStack>) -> int {
        units_from(slots, self.spec_pairs(slots), u32::MAX)
    }

    /// What `get_craftable_amount` returns: the whole crafts allowed times
    /// the output stack size, zero when nothing pairs up, saturating.
    pub open spec fn spec_craftable(self, slots: Seq<ItemStack>) -> int {
        let u = self.spec_units(slots);
        if u == u32::MAX {
            0
        } else if u * self.output.size <= u32::MAX {
            u * self.output.size
        } else {
            u32::MAX as int
        }
    }

    pub open spec fn wf(self) -> bool {
        &&& self.output.wf()
        &&& self.output.size > 0
    }

    /// The stack one craft produces.
    pub fn output(&self) -> (r: &ItemStack)
        ensures
            r == self.output,
    {
        &self.output
    }

    /// The required amounts in row-major order.
    fn required_flat(&self) -> (flat: Vec<u32>)
        ensures
            flat@ == self.spec_required_flat(),
    {
        let ghost rows = self.required@.map_values(|r: Vec<u32>| r@);
        let mut flat: Vec<u32> = Vec::new();
        proof {
            assert(flat@ + flatten_from(rows, 0) =~= flatten_from(rows, 0));
        }
        let mut i: usize = 0;
        while i < self.required.len()
            invariant
                rows == self.required@.map_values(|r: Vec<u32>| r@),
                i <= rows.len(),
                flatten_from(rows, 0) == flat@ + flatten_from(rows, i as int),
            decreases rows.len() - i,
        {
            let row = &self.required[i];
            let ghost flat_before = flat@;
            let mut c: usize = 0;
            while c < row.len()
                invariant
                    i < rows.len(),
                    row@ == rows[i as int],
                    c <= row@.len(),
                    flat@ == flat_before + row@.subrange(0, c as int),
                decreases row@.len() - c,
            {
                flat.push(row[c]);
                c = c + 1;
            }
            proof {
                assert(row@.subrange(0, row@.len() as int) =~= rows[i as int]);
                assert(flat_before + rows[i as int] + flatten_from(rows, i + 1) =~= flat_before
                    + (rows[i as int] + flatten_from(rows, i + 1)));
            }
            i = i + 1;
        }
        proof {
            assert(flat@ + flatten_from(rows, rows.len() as int) =~= flat@);
        }
        flat
    }

    /// The slot/amount pairing in execution form.
    fn collect_pairs(&self, slots: &Vec<ItemStack>, flat: &Vec<u32>) -> (pairs: Vec<(usize, u32)>)
        requires
            flat@ == self.spec_required_flat(),
        ensures
            pairs@.map_values(|p: (usize, u32)| (p.0 as int, p.1)) == self.spec_pairs(slots@),
    {
        let ghost target = pairs_from(slots@, flat@, 0, 0);
        let mut pairs: Vec<(usize, u32)> = Vec::new();
        proof {
            assert(pairs@.map_values(|p: (usize, u32)| (p.0 as int, p.1)) + target =~= target);
        }
        let mut i: usize = 0;
        let mut j: usize = 0;
        while i < slots.len() && j < flat.len()
            invariant
                i <= slots@.len(),
                j <= flat@.len(),
                target == pairs_from(slots@, flat@, 0, 0),
                target == pairs@.map_values(|p: (usize, u32)| (p.0 as int, p.1)) + pairs_from(
                    slots@,
                    flat@,
                    i as int,
                    j as int,
                ),
            decreases slots@.len() - i + flat@.len() - j,
        {
            let ghost before = pairs@.map_values(|p: (usize, u32)| (p.0 as int, p.1));
            if slots[i].size == 0 {
                i = i + 1;
            } else if flat[j] == 0 {
                j = j + 1;
            } else {
                pairs.push((i, flat[j]));
                proof {
                    assert(pairs@.map_values(|p: (usize, u32)| (p.0 as int, p.1)) =~= before
                        + seq![(i as int, flat@[j as int])]);
                    assert(before + (seq![(i as int, flat@[j as int])] + pairs_from(
                        slots@,
                        flat@,
                        i + 1,
                        j + 1,
                    )) =~= (before + seq![(i as int, flat@[j as int])]) + pairs_from(
                        slots@,
                        flat@,
                        i + 1,
                        j + 1,
                    ));
                }
                i = i + 1;
                j = j + 1;
            }
        }
        proof {
            assert(pairs_from(slots@, flat@, i as int, j as int) =~= Seq::<(int, u32)>::empty());
            assert(target =~= pairs@.map_values(|p: (usize, u32)| (p.0 as int, p.1)));
        }
        pairs
    }

    /// How many items one could craft from the grid: the fewest whole crafts
    /// any paired slot allows, times the output stack size. Zero when no slot
    /// pairs with a positive requirement.
    pub fn get_craftable_amount(&self, input: &CraftingGrid) -> (r: u32)
        requires
            self.wf(),
        ensures
            r == self.spec_craftable(input.slots@),
    {
        let flat = self.required_flat();
        let pairs = self.collect_pairs(&input.slots, &flat);
        let ghost spairs = self.spec_pairs(input.slots@);
        proof {
            lemma_pairs_ok(input.slots@, flat@, 0, 0);
        }
        let mut units: u32 = u32::MAX;
        proof {
            assert(spairs.skip(0) =~= spairs);
        }
        let mut k: usize = 0;
        while k < pairs.len()
            invariant
                spairs == pairs@.map_values(|p: (usize, u32)| (p.0 as int, p.1)),
                pairs_ok(spairs, input.slots@, 0),
                k <= spairs.len(),
                units_from(input.slots@, spairs, u32::MAX) == units_from(
                    input.slots@,
                    spairs.skip(k as int),
                    units,
                ),
            decreases spairs.len() - k,
        {
            let (idx, req) = pairs[k];
            proof {
                assert(spairs[k as int] == (idx as int, req));
                assert(spairs.skip(k as int)[0] == spairs[k as int]);
                assert(spairs.skip(k as int).skip(1) =~= spairs.skip(k as int + 1));
            }
            let u = input.slots[idx].size / req;
            if u < units {
                units = u;
            }
            k = k + 1;
        }
        proof {
            assert(spairs.skip(spairs.len() as int) =~= Seq::<(int, u32)>::empty());
        }
        if units == u32::MAX {
            return 0;
        }
        // Saturate: the caller reads the result as a count, never a promise
        // that the product fit.
        proof {
            assert((units as int) * (self.output.size as int) < 0x1_0000_0000_0000_0000)
                by (nonlinear_arith)
                requires
                    units <= u32::MAX,
                    self.output.size <= u32::MAX,
            ;
        }
        let wide: u64 = (units as u64) * (self.output.size as u64);
        if wide > u32::MAX as u64 {
            u32::MAX
        } else {
            wide as u32
        }
    }

    /// Craft items by consuming the input grid. Produces whole crafts only:
    /// at most `amount / output size` of them, and no more than the grid
    /// allows; `None` (and no change) when that is zero. Each paired slot
    /// loses exactly its required amount times the crafts made; every other
    /// slot is untouched. Callers check beforehand that the input matches the
    /// recipe's pattern.
    #[verifier::rlimit(50)]
    pub fn craft(&self, input: &mut CraftingGrid, amount: u32) -> (r: Option<ItemStack>)
        requires
            self.wf(),
            old(input).wf(),
        ensures
            final(input).wf(),
            spec_craft_effect(*self, old(input).slots@, final(input).slots@, amount, r),
    {
        let units_avail = {
            let gca = self.get_craftable_amount(input);
            gca / self.output.size
        };
        let wanted = amount / self.output.size;
        let u = if wanted <= units_avail {
            wanted
        } else {
            units_avail
        };
        proof {
            assert(u == spec_crafts_made(*self, input.slots@, amount));
        }
        if u == 0 {
            return None;
        }

        let flat = self.required_flat();
        let pairs = self.collect_pairs(&input.slots, &flat);
        let ghost spairs = self.spec_pairs(input.slots@);
        let ghost slots0 = input.slots@;
        proof {
            lemma_pairs_ok(input.slots@, flat@, 0, 0);
            lemma_units_bound(slots0, spairs, u32::MAX);
            let units = self.spec_units(slots0);
            let out = self.output.size as int;
            // The crafts made never exceed the folded minimum of whole
            // crafts, so each paired slot can cover its deduction.
            assert(u <= units) by {
                let craftable = self.spec_craftable(slots0);
                if units == u32::MAX {
                    assert(craftable == 0);
                    vstd::arithmetic::div_mod::lemma_div_pos_is_pos(0, out);
                    assert(craftable / out == 0);
                } else if units * out <= u32::MAX {
                    vstd::arithmetic::div_mod::lemma_div_multiples_vanish(units, out);
                    assert(craftable / out == units);
                } else {
                    vstd::arithmetic::div_mod::lemma_div_is_ordered(
                        u32::MAX as int,
                        units * out,
                        out,
                    );
                    vstd::arithmetic::div_mod::lemma_div_multiples_vanish(units, out);
                    assert(craftable / out <= units);
                }
            }
            lemma_pair_deduction_bound(slots0, spairs, u as int);
            // The produced stack fits in a word: the crafts made are at most
            // the whole crafts asked for.
            assert(u as int * out <= u32::MAX) by {
                let wanted = amount as int / out;
                vstd::arithmetic::mul::lemma_mul_inequality(u as int, wanted, out);
                vstd::arithmetic::div_mod::lemma_fundamental_div_mod(amount as int, out);
                vstd::arithmetic::div_mod::lemma_mod_division_less_than_divisor(amount as int, out);
                assert(out * wanted <= amount);
                vstd::arithmetic::mul::lemma_mul_is_commutative(out, wanted);
            }
        }
        let mut k: usize = 0;
        while k < pairs.len()
            invariant
                self.wf(),
                spairs == pairs@.map_values(|p: (usize, u32)| (p.0 as int, p.1)),
                pairs_ok(spairs, slots0, 0),
                k <= spairs.len(),
                input.wf(),
                input.slots@.len() == slots0.len(),
                u > 0,
                forall|kk: int|
                    0 <= kk < spairs.len() ==> (#[trigger] spairs[kk]).1 * u <= slots0[
                        spairs[kk].0
                    ].size,
                forall|kk: int|
                    0 <= kk < k ==> (#[trigger] input.slots@[spairs[kk].0]).size == slots0[
                        spairs[kk].0
                    ].size - spairs[kk].1 * u,
                forall|idx: int|
                    0 <= idx < slots0.len() && !spec_is_paired(spairs.subrange(0, k as int), idx)
                        ==> input.slots@[idx] == slots0[idx],
            decreases spairs.len() - k,
        {
            let (idx, req) = pairs[k];
            proof {
                assert(spairs[k as int] == (idx as int, req));
                assert(!spec_is_paired(spairs.subrange(0, k as int), idx as int));
                assert(req * u <= slots0[idx as int].size);
                assert(req as int * u as int <= u32::MAX);
            }
            let ghost pre = input.slots@;
            let deduction = req * u;
            let mut slot = input.slots[idx];
            slot.take(deduction);
            input.slots[idx] = slot;
            proof {
                assert forall|kk: int|
                    0 <= kk < k + 1 implies (#[trigger] input.slots@[spairs[kk].0]).size == slots0[
                    spairs[kk].0
                ].size - spairs[kk].1 * u by {
                    if kk < k {
                        assert(spairs[kk].0 != idx as int);
                    }
                }
                assert forall|idx2: int|
                    0 <= idx2 < slots0.len() && !spec_is_paired(
                        spairs.subrange(0, k as int + 1),
                        idx2,
                    ) implies input.slots@[idx2] == slots0[idx2] by {
                    assert(!spec_is_paired(spairs.subrange(0, k as int), idx2)) by {
                        assert forall|kk: int|
                            0 <= kk < k implies (#[trigger] spairs.subrange(0, k as int)[kk]).0
                            != idx2 by {
                            assert(spairs.subrange(0, k as int + 1)[kk] == spairs.subrange(
                                0,
                                k as int,
                            )[kk]);
                        }
                    }
                    assert(spairs.subrange(0, k as int + 1)[k as int].0 == idx as int);
                }
            }
            k = k + 1;
        }
        proof {
            assert(spairs.subrange(0, spairs.len() as int) =~= spairs);
        }

        // Assemble the produced stack; its capacity grows to hold a large
        // craft so the stack stays canonical.
        proof {
            assert(u as int * self.output.size as int <= u32::MAX);
        }
        let produced_size = u * self.output.size;
        proof {
            assert(produced_size >= 1) by (nonlinear_arith)
                requires
                    u >= 1,
                    self.output.size >= 1,
                    produced_size == u * self.output.size,
            ;
        }
        let capacity = if produced_size >= self.output.capacity {
            produced_size
        } else {
            self.output.capacity
        };
        Some(ItemStack { item: self.output.item, size: produced_size, capacity })
    }
}

/// Whether some pair points at slot `idx`.
pub open spec fn spec_is_paired(pairs: Seq<(int, u32)>, idx: int) -> bool {
    exists|k: int| 0 <= k < pairs.len() && (#[trigger] pairs[k]).0 == idx
}

/// What crafting from a grid through one recipe does: nothing for zero
/// crafts; otherwise the produced stack and the per-slot deductions, with
/// every unpaired slot untouched.
pub open spec fn spec_craft_effect(
    recipe: Recipe,
    old_slots: Seq<ItemStack>,
    new_slots: Seq<ItemStack>,
    amount: u32,
    r: Option<ItemStack>,
) -> bool {
    let u = spec_crafts_made(recipe, old_slots, amount);
    let pairs = recipe.spec_pairs(old_slots);
    &&& new_slots.len() == old_slots.len()
    &&& if u == 0 {
        r is None && new_slots == old_slots
    } else {
        &&& r is Some && r.unwrap().wf() && !r.unwrap().spec_is_empty()
        &&& r == Some(
            ItemStack {
                item: recipe.output.item,
                size: (u * recipe.output.size) as u32,
                capacity: if u * recipe.output.size >= recipe.output.capacity {
                    (u * recipe.output.size) as u32
                } else {
                    recipe.output.capacity
                },
            },
        )
        &&& forall|k: int|
            0 <= k < pairs.len() ==> (#[trigger] new_slots[pairs[k].0]).size == old_slots[
                pairs[k].0
            ].size - pairs[k].1 * u
        &&& forall|idx: int|
            0 <= idx < old_slots.len() && !spec_is_paired(pairs, idx) ==> new_slots[idx]
                == old_slots[idx]
    }
}

/// How many whole crafts `craft` performs: the request and the grid's
/// craftable amount, both in whole crafts, whichever is less.
pub open spec fn spec_crafts_made(recipe: Recipe, slots: Seq<ItemStack>, amount: u32) -> int {
    let avail = recipe.spec_craftable(slots) / recipe.output.size as int;
    let wanted = amount as int / recipe.output.size as int;
    if wanted <= avail {
        wanted
    } else {
        avail
    }
}

/// Crafts at or below the folded minimum leave every paired slot enough to
/// cover its deduction.
proof fn lemma_pair_deduction_bound(slots: Seq<ItemStack>, pairs: Seq<(int, u32)>, u: int)
    requires
        pairs_ok(pairs, slots, 0),
        0 <= u <= units_from(slots, pairs, u32::MAX),
    ensures
        forall|k: int|
            0 <= k < pairs.len() ==> (#[trigger] pairs[k]).1 * u <= slots[pairs[k].0].size,
{
    lemma_units_bound(slots, pairs, u32::MAX);
    let units = units_from(slots, pairs, u32::MAX);
    assert forall|k: int|
        0 <= k < pairs.len() implies (#[trigger] pairs[k]).1 * u <= slots[pairs[k].0].size by {
        let size = slots[pairs[k].0].size as int;
        let req = pairs[k].1 as int;
        assert(units <= size / req);
        vstd::arithmetic::mul::lemma_mul_inequality(u as int, size / req, req);
        vstd::arithmetic::div_mod::lemma_fundamental_div_mod(size, req);
        vstd::arithmetic::div_mod::lemma_mod_division_less_than_divisor(size, req);
        assert(req * (size / req) <= size);
        assert(req * u == u * req) by {
            vstd::arithmetic::mul::lemma_mul_is_commutative(req, u);
        }
    }
}

/// The folded minimum stays at or below the start value, and at or below
/// each paired slot's own limit; so `required * units` never exceeds what a
/// paired slot holds.
proof fn lemma_units_bound(slots: Seq<ItemStack>, pairs: Seq<(int, u32)>, acc: u32)
    requires
        pairs_ok(pairs, slots, 0),
    ensures
        units_from(slots, pairs, acc) <= acc,
        forall|k: int|
            0 <= k < pairs.len() ==> units_from(slots, pairs, acc) <= slots[(
            #[trigger] pairs[k]).0].size as int / pairs[k].1 as int,
        units_from(slots, pairs, acc) >= 0,
    decreases pairs.len(),
{
    if pairs.len() == 0 {
    } else {
        let u = slots[pairs[0].0].size as int / pairs[0].1 as int;
        assert(u >= 0) by {
            vstd::arithmetic::div_mod::lemma_div_pos_is_pos(
                slots[pairs[0].0].size as int,
                pairs[0].1 as int,
            );
        }
        assert(pairs_ok(pairs.skip(1), slots, 0)) by {
            assert(forall|k: int|
                0 <= k < pairs.skip(1).len() ==> #[trigger] pairs.skip(1)[k] == pairs[k + 1]);
        }
        if u < acc {
            lemma_units_bound(slots, pairs.skip(1), u as u32);
        } else {
            lemma_units_bound(slots, pairs.skip(1), acc);
        }
        assert(forall|k: int|
            1 <= k < pairs.len() ==> #[trigger] pairs[k] == pairs.skip(1)[k - 1]);
    }
}

/// Normalization is idempotent: cropping a grid to its minimal bounding
/// sub-grid a second time changes nothing.
pub proof fn lemma_normalize_idempotent(p: Seq<Seq<Option<ItemId>>>, w: int)
    requires
        rect(p, w),
    ensures
        spec_normalize(
            spec_normalize(p, w),
            last_col_from(p, w - 1) + 1 - first_col_from(p, 0, w),
        ) == spec_normalize(p, w),
{
    let q = spec_normalize(p, w);
    let qw = last_col_from(p, w - 1) + 1 - first_col_from(p, 0, w);
    lemma_normalize_is_normalized(p, w);
    if q.len() == 0 {
        assert(first_row_from(q, 0) == 0);
        assert(spec_normalize(q, qw) =~~= q);
    } else {
        lemma_normalize_fixed_point(q, qw);
    }
}

} // verus!

use vstd::prelude::*;

verus! {

/// The grid normalizes (with square side `s`) to the pattern of recipe `i`,
/// and to no earlier recipe's pattern.
pub open spec fn spec_first_match(
    recipes: Seq<Recipe>,
    slots: Seq<ItemStack>,
    s: int,
    i: int,
) -> bool {
    &&& 0 <= s && s * s == slots.len()
    &&& 0 <= i < recipes.len()
    &&& recipes[i].pattern.view2() =~~= spec_normalize(grid_cells(slots, s), s)
    &&& forall|j: int|
        0 <= j < i ==> !((#[trigger] recipes[j]).pattern.view2() =~~= spec_normalize(
            grid_cells(slots, s),
            s,
        ))
}

/// The recipes of one crafting station, looked up by normalized pattern.
#[derive(Clone, Debug)]
pub struct RecipeCollection {
    pub recipes: Vec<Recipe>,
}

/// Whether some recipe in the list up to `upto` matches the pattern cells.
pub open spec fn spec_some_recipe_matches(
    recipes: Seq<Recipe>,
    cells: Seq<Seq<Option<ItemId>>>,
    upto: int,
) -> bool {
    exists|i: int| 0 <= i < upto && (#[trigger] recipes[i]).pattern.view2() =~~= cells
}

impl RecipeCollection {
    pub open spec fn wf(self) -> bool {
        forall|i: int| 0 <= i < self.recipes@.len() ==> (#[trigger] self.recipes@[i]).wf()
    }

    /// An empty collection.
    pub fn new() -> (c: RecipeCollection)
        ensures
            c.wf(),
            c.recipes@.len() == 0,
    {
        RecipeCollection { recipes: Vec::new() }
    }

    /// Add a recipe.
    pub fn insert(&mut self, recipe: Recipe)
        requires
            old(self).wf(),
            recipe.wf(),
        ensures
            final(self).wf(),
            final(self).recipes@ == old(self).recipes@.push(recipe),
    {
        self.recipes.push(recipe);
    }

    /// Index of the first recipe whose pattern the grid reduces to, if any.
    fn get_recipe_index(&self, input: &CraftingGrid) -> (r: Option<usize>)
        requires
            self.wf(),
        ensures
            match r {
                Some(i) => exists|s: int|
                    #[trigger] (s * s) == input.slots@.len() && spec_first_match(
                        self.recipes@,
                        input.slots@,
                        s,
                        i as int,
                    ),
                None => forall|s: int, j: int|
                    0 <= s && #[trigger] (s * s) == input.slots@.len() && 0 <= j
                        < self.recipes@.len() ==> !((#[trigger] self.recipes@[j]).pattern.view2()
                        =~~= spec_normalize(grid_cells(input.slots@, s), s)),
            },
    {
        let Some(pattern) = Pattern::from_grid(input) else {
            return None;
        };
        let ghost s = choose|s: int|
            0 <= s && #[trigger] (s * s) == input.slots@.len() && pattern.view2()
                == spec_normalize(grid_cells(input.slots@, s), s);
        let mut i: usize = 0;
        while i < self.recipes.len()
            invariant
                self.wf(),
                i <= self.recipes@.len(),
                0 <= s && s * s == input.slots@.len(),
                pattern.view2() == spec_normalize(grid_cells(input.slots@, s), s),
                forall|j: int|
                    0 <= j < i ==> !((#[trigger] self.recipes@[j]).pattern.view2()
                        =~~= pattern.view2()),
            decreases self.recipes@.len() - i,
        {
            if self.recipes[i].pattern.matches(&pattern) {
                proof {
                    lemma_square_root_unique(s, input.slots@.len() as int);
                }
                return Some(i);
            }
            i = i + 1;
        }
        proof {
            lemma_square_root_unique(s, input.slots@.len() as int);
        }
        None
    }

    /// The first recipe whose pattern the grid reduces to, if any.
    pub fn get_recipe(&self, input: &CraftingGrid) -> (r: Option<&Recipe>)
        requires
            self.wf(),
        ensures
            match r {
                Some(recipe) => {
                    &&& recipe.wf()
                    &&& exists|s: int, i: int|
                        #[trigger] (s * s) == input.slots@.len() && #[trigger] self.recipes@[i]
                            == recipe && spec_first_match(self.recipes@, input.slots@, s, i)
                },
                None => forall|s: int|
                    0 <= s && #[trigger] (s * s) == input.slots@.len()
                        ==> !spec_some_recipe_matches(
                        self.recipes@,
                        spec_normalize(grid_cells(input.slots@, s), s),
                        self.recipes@.len() as int,
                    ),
            },
    {
        let Some(pattern) = Pattern::from_grid(input) else { return None };
        let ghost s = choose|s: int|
            0 <= s && #[trigger] (s * s) == input.slots@.len() && pattern.view2()
                == spec_normalize(grid_cells(input.slots@, s), s);
        let mut i: usize = 0;
        while i < self.recipes.len()
            invariant
                self.wf(),
                i <= self.recipes@.len(),
                0 <= s && s * s == input.slots@.len(),
                pattern.view2() == spec_normalize(grid_cells(input.slots@, s), s),
                forall|j: int|
                    0 <= j < i ==> !((#[trigger] self.recipes@[j]).pattern.view2()
                        =~~= pattern.view2()),
            decreases self.recipes@.len() - i,
        {
            if self.recipes[i].pattern.matches(&pattern) {
                proof {
                    lemma_square_root_unique(s, input.slots@.len() as int);
                }
                return Some(&self.recipes[i]);
            }
            i = i + 1;
        }
        proof {
            lemma_square_root_unique(s, input.slots@.len() as int);
        }
        None
    }

    /// Craft from the grid through the first recipe its pattern selects:
    /// that recipe's own crafting effect, in full. `None` and an unchanged
    /// grid when no recipe matches or nothing can be crafted.
    pub fn craft(&self, input: &mut CraftingGrid, amount: u32) -> (r: Option<ItemStack>)
        requires
            self.wf(),
            old(input).wf(),
        ensures
            final(input).wf(),
            final(input).slots@.len() == old(input).slots@.len(),
            r is Some ==> r.unwrap().wf(),
            ({
                ||| exists|s: int, i: int|
                    #[trigger] (s * s) == old(input).slots@.len() && spec_first_match(
                        self.recipes@,
                        old(input).slots@,
                        s,
                        i,
                    ) && spec_craft_effect(
                        #[trigger] self.recipes@[i],
                        old(input).slots@,
                        final(input).slots@,
                        amount,
                        r,
                    )
                ||| (r is None && final(input).slots@ == old(input).slots@ && forall|s: int, j: int|
                    0 <= s && #[trigger] (s * s) == old(input).slots@.len() && 0 <= j
                        < self.recipes@.len() ==> !((#[trigger] self.recipes@[j]).pattern.view2()
                        =~~= spec_normalize(grid_cells(old(input).slots@, s), s)))
            }),
    {
        let idx = match self.get_recipe_index(input) {
            Some(i) => i,
            None => return None,
        };
        self.recipes[idx].craft(input, amount)
    }

    /// What the matched recipe could craft from the grid: a stack whose size
    /// is the full craftable amount and whose capacity is the per-craft
    /// output size (widened to the size when larger). `None` exactly when no
    /// recipe matches or nothing can be crafted.
    pub fn get_output(&self, input: &CraftingGrid) -> (r: Option<ItemStack>)
        requires
            self.wf(),
        ensures
            match r {
                Some(stack) => {
                    &&& stack.wf() && !stack.spec_is_empty()
                    &&& exists|s: int, i: int|
                        #[trigger] (s * s) == input.slots@.len() && spec_first_match(
                            self.recipes@,
                            input.slots@,
                            s,
                            i,
                        ) && ({
                            let recipe = #[trigger] self.recipes@[i];
                            let craftable = recipe.spec_craftable(input.slots@);
                            &&& craftable > 0
                            &&& stack.item == recipe.output.item
                            &&& stack.size == craftable
                            &&& stack.capacity == if craftable >= recipe.output.size {
                                craftable
                            } else {
                                recipe.output.size as int
                            }
                        })
                },
                None => forall|s: int, i: int|
                    #[trigger] (s * s) == input.slots@.len() && spec_first_match(
                        self.recipes@,
                        input.slots@,
                        s,
                        i,
                    ) ==> #[trigger] self.recipes@[i].spec_craftable(input.slots@) == 0,
            },
    {
        let idx = match self.get_recipe_index(input) {
            Some(i) => i,
            None => {
                return None;
            },
        };
        let ghost s = choose|s: int|
            #[trigger] (s * s) == input.slots@.len() && spec_first_match(
                self.recipes@,
                input.slots@,
                s,
                idx as int,
            );
        let recipe = &self.recipes[idx];
        let max_craft = recipe.get_craftable_amount(input);
        if max_craft == 0 {
            proof {
                assert forall|s2: int, i2: int|
                    #[trigger] (s2 * s2) == input.slots@.len() && spec_first_match(
                        self.recipes@,
                        input.slots@,
                        s2,
                        i2,
                    ) implies #[trigger] self.recipes@[i2].spec_craftable(input.slots@) == 0 by {
                    lemma_first_match_unique(
                        self.recipes@,
                        input.slots@,
                        s,
                        idx as int,
                        s2,
                        i2,
                    );
                }
            }
            return None;
        }
        let capacity = if max_craft >= recipe.output.size {
            max_craft
        } else {
            recipe.output.size
        };
        Some(ItemStack { item: recipe.output.item, size: max_craft, capacity })
    }
}

/// The first matching recipe is one of a kind: any two first matches agree.
proof fn lemma_first_match_unique(
    recipes: Seq<Recipe>,
    slots: Seq<ItemStack>,
    s1: int,
    i1: int,
    s2: int,
    i2: int,
)
    requires
        spec_first_match(recipes, slots, s1, i1),
        spec_first_match(recipes, slots, s2, i2),
    ensures
        s1 == s2,
        i1 == i2,
{
    lemma_square_root_unique(s1, slots.len() as int);
    assert(s2 == s1);
    if i1 < i2 {
        assert(!(recipes[i1].pattern.view2() =~~= spec_normalize(grid_cells(slots, s2), s2)));
    } else if i2 < i1 {
        assert(!(recipes[i2].pattern.view2() =~~= spec_normalize(grid_cells(slots, s1), s1)));
    }
}

/// Whether some recipe of the collection matches the grid first and can
/// craft at least one item from it.
pub open spec fn spec_collection_craftable(recipes: Seq<Recipe>, slots: Seq<ItemStack>) -> bool {
    exists|s: int, i: int|
        #[trigger] (s * s) == slots.len() && spec_first_match(recipes, slots, s, i)
            && #[trigger] recipes[i].spec_craftable(slots) > 0
}

/// Non-negative square roots are unique.
proof fn lemma_square_root_unique(s: int, len: int)
    requires
        0 <= s,
        s * s == len,
    ensures
        forall|t: int| 0 <= t && #[trigger] (t * t) == len ==> t == s,
{
    assert forall|t: int| 0 <= t && #[trigger] (t * t) == len implies t == s by {
        if t < s {
            assert(t * t < s * s) by (nonlinear_arith)
                requires
                    0 <= t < s,
            ;
        } else if t > s {
            assert(s * s < t * t) by (nonlinear_arith)
                requires
                    0 <= s < t,
            ;
        }
    }
}

/// Every recipe collection of the game, keyed by the station that uses it
/// ("crafting", "smelting", ...).
#[derive(Clone, Debug)]
pub struct Recipes {
    pub collections: Vec<(String, RecipeCollection)>,
}

impl Recipes {
    pub open spec fn wf(self) -> bool {
        forall|i: int| 0 <= i < self.collections@.len() ==> (#[trigger] self.collections@[i]).1.wf()
    }

    /// An empty registry.
    pub fn new() -> (r: Recipes)
        ensures
            r.wf(),
            r.collections@.len() == 0,
    {
        Recipes { collections: Vec::new() }
    }

    /// Add a named collection.
    pub fn insert(&mut self, name: String, collection: RecipeCollection)
        requires
            old(self).wf(),
            collection.wf(),
        ensures
            final(self).wf(),
            final(self).collections@ == old(self).collections@.push((name, collection)),
    {
        self.collections.push((name, collection));
    }

    /// The collection registered under `name`. A missing name is a broken
    /// game configuration; the caller treats it as fatal.
    pub fn get(&self, name: &String) -> (r: Option<&RecipeCollection>)
        requires
            self.wf(),
        ensures
            match r {
                Some(c) => c.wf() && exists|i: int|
                    0 <= i < self.collections@.len() && (#[trigger] self.collections@[i]).0@
                        == name@ && self.collections@[i].1 == *c,
                None => forall|i: int|
                    0 <= i < self.collections@.len() ==> (#[trigger] self.collections@[i]).0@
                        != name@,
            },
    {
        let mut i: usize = 0;
        while i < self.collections.len()
            invariant
                self.wf(),
                i <= self.collections@.len(),
                forall|j: int|
                    0 <= j < i ==> (#[trigger] self.collections@[j]).0@ != name@,
            decreases self.collections@.len() - i,
        {
            if self.collections[i].0 == *name {
                return Some(&self.collections[i].1);
            }
            i = i + 1;
        }
        None
    }
}

} // verus!
