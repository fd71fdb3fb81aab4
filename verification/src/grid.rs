//! Automatic grid partitioning of the available area into one rectangular
//! cell per pane.
//!
//! Horizontal mode lays the panes out as one row of equal-width columns,
//! Vertical mode as one column of equal-height rows. Auto mode chooses a
//! balanced rows-by-columns grid via a descending divisor scan; a prime pane
//! count greater than two gets a full-width remainder row above a balanced
//! sub-grid of the remaining panes. Cell lengths are integer percentage
//! shares of the available width and height.

use vstd::prelude::*;

verus! {

/// How the grid partitions panes.
#[derive(Clone, Copy, Debug, PartialEq, Eq, Structural)]
pub enum Layout {
    Horizontal,
    Vertical,
    Auto,
}

impl Default for Layout {
    /// Auto is the default layout mode.
    fn default() -> (l: Layout)
        ensures
            l == Layout::Auto,
    {
        Layout::Auto
    }
}

/// An axis-aligned rectangle assigned to exactly one pane.
#[derive(Clone, Copy, Debug, PartialEq, Eq, Structural)]
pub struct GridCell {
    pub x: u16,
    pub y: u16,
    pub width: u16,
    pub height: u16,
}

/// A cell built from mathematical coordinates that are known to fit `u16`.
pub open spec fn cell(x: int, y: int, w: int, h: int) -> GridCell {
    GridCell { x: x as u16, y: y as u16, width: w as u16, height: h as u16 }
}

/// A number with no divisor strictly between 1 and itself.
pub open spec fn spec_is_prime(n: int) -> bool {
    n >= 2 && forall|d: int| 2 <= d < n ==> #[trigger] (n % d) != 0
}

/// The first divisor of `n` found when scanning `i, i-1, ..., 2` in strictly
/// descending order, or 1 when the scan finds none.
pub open spec fn divisor_scan(n: int, i: int) -> int
    decreases i,
{
    if i < 2 {
        1
    } else if n % i == 0 {
        i
    } else {
        divisor_scan(n, i - 1)
    }
}

/// The row count the divisor scan picks for `n` panes.
pub open spec fn shape_rows(n: int) -> int {
    if n <= 2 {
        1
    } else {
        divisor_scan(n, n - 1)
    }
}

/// The column count that pairs with `shape_rows` to cover `n` panes.
pub open spec fn shape_cols(n: int) -> int {
    n / shape_rows(n)
}

/// One part's length when a total is split into equal integer-percentage
/// shares of `100 / k` percent.
pub open spec fn part_len(total: int, k: int) -> int
    recommends
        k >= 1,
{
    total * (100int / k) / 100
}

/// The divisor scan returns 1 or an actual divisor of `n`, within bounds.
proof fn lemma_divisor_scan(n: int, i: int)
    requires
        n >= 1,
    ensures
        1 <= divisor_scan(n, i),
        divisor_scan(n, i) <= (if i >= 2 { i } else { 1 }),
        divisor_scan(n, i) == 1 || n % divisor_scan(n, i) == 0,
    decreases i,
{
    if i >= 2 && n % i != 0 {
        lemma_divisor_scan(n, i - 1);
    }
}

/// The rows and columns the scan chooses for `n >= 1` panes multiply out to
/// exactly `n`: the grid has one cell per pane, none left over.
pub proof fn lemma_shape_partitions(n: int)
    requires
        n >= 1,
    ensures
        1 <= shape_rows(n) <= n,
        1 <= shape_cols(n) <= n,
        shape_rows(n) * shape_cols(n) == n,
{
    let r = shape_rows(n);
    let c = shape_cols(n);
    if n > 2 {
        lemma_divisor_scan(n, n - 1);
    }
    assert(1 <= r <= n);
    assert(n % 1 == 0) by (nonlinear_arith);
    assert(n % r == 0);
    vstd::arithmetic::div_mod::lemma_fundamental_div_mod(n, r);
    assert(n == r * c);
    assert(c >= 1) by (nonlinear_arith)
        requires
            n == r * c,
            n >= 1,
            r >= 1,
    ;
    assert(c <= n) by (nonlinear_arith)
        requires
            n == r * c,
            r >= 1,
            c >= 1,
    ;
}

/// Splitting a nonnegative total into `k` parts of `100 / k` percent each
/// never exceeds the total.
proof fn lemma_parts_fit(total: int, k: int)
    requires
        total >= 0,
        k >= 1,
    ensures
        0 <= part_len(total, k),
        k * part_len(total, k) <= total,
        part_len(total, k) <= total,
{
    let p = 100int / k;
    vstd::arithmetic::div_mod::lemma_fundamental_div_mod(100, k);
    assert(k * p <= 100);
    assert(p >= 0) by {
        vstd::arithmetic::div_mod::lemma_div_pos_is_pos(100, k);
    }
    let w = part_len(total, k);
    vstd::arithmetic::div_mod::lemma_fundamental_div_mod(total * p, 100);
    assert(100 * w <= total * p);
    assert(w >= 0) by {
        assert(total * p >= 0) by (nonlinear_arith)
            requires
                total >= 0,
                p >= 0,
        ;
        vstd::arithmetic::div_mod::lemma_div_pos_is_pos(total * p, 100);
    }
    assert(k * w <= total) by (nonlinear_arith)
        requires
            100 * w <= total * p,
            k * p <= 100,
            total >= 0,
            k >= 1,
            p >= 0,
            w >= 0,
    ;
    assert(k * w >= w) by (nonlinear_arith)
        requires
            k >= 1,
            w >= 0,
    ;
}

/// Trial division: whether `n` is prime.
pub fn is_prime(n: usize) -> (r: bool)
    ensures
        r == spec_is_prime(n as int),
{
    if n < 2 {
        return false;
    }
    let mut d: usize = 2;
    while d < n
        invariant
            2 <= d <= n,
            forall|e: int| 2 <= e < d ==> #[trigger] ((n as int) % e) != 0,
        decreases n - d,
    {
        if n % d == 0 {
            return false;
        }
        d = d + 1;
    }
    true
}

/// The length of one part when `total` is split into `parts` equal
/// integer-percentage shares.
fn split_len(total: u16, parts: usize) -> (w: u16)
    requires
        parts >= 1,
    ensures
        w as int == part_len(total as int, parts as int),
        w <= total,
{
    let pct: usize = 100 / parts;
    proof {
        lemma_parts_fit(total as int, parts as int);
    }
    ((total as u64) * (pct as u64) / 100) as u16
}

/// The row count for `n` panes: the first divisor in the descending scan.
fn pick_rows(n: usize) -> (r: usize)
    requires
        n >= 1,
    ensures
        r as int == shape_rows(n as int),
{
    if n <= 2 {
        return 1;
    }
    let mut i: usize = n - 1;
    while i >= 2
        invariant
            n >= 3,
            1 <= i <= n - 1,
            divisor_scan(n as int, n as int - 1) == divisor_scan(n as int, i as int),
        decreases i,
    {
        if n % i == 0 {
            return i;
        }
        i = i - 1;
    }
    1
}

/// The cell at flat index `k` of a row-major rows-by-columns block whose
/// top-left corner is `(x0, y0)`: row `k / cols`, column `k % cols`.
pub open spec fn block_cell(x0: int, y0: int, cw: int, rh: int, cols: int, k: int) -> GridCell
    recommends
        cols >= 1,
{
    cell(x0 + (k % cols) * cw, y0 + (k / cols) * rh, cw, rh)
}

/// Appends `rows * cols` cells of one rows-by-columns block, row-major,
/// with the block's top-left corner at `(x0, y0)`.
fn push_block(
    out: &mut Vec<GridCell>,
    x0: u16,
    y0: u16,
    rows: usize,
    cols: usize,
    cw: u16,
    rh: u16,
)
    requires
        rows >= 1,
        cols >= 1,
        (cols as int) * (cw as int) + x0 as int <= 0xffff,
        (rows as int) * (rh as int) + y0 as int <= 0xffff,
        old(out)@.len() + rows * cols <= usize::MAX,
    ensures
        final(out)@.len() == old(out)@.len() + rows * cols,
        forall|k: int|
            0 <= k < rows * cols ==> final(out)@[old(out)@.len() + k] == #[trigger] block_cell(
                x0 as int,
                y0 as int,
                cw as int,
                rh as int,
                cols as int,
                k,
            ),
        forall|k: int| 0 <= k < old(out)@.len() ==> final(out)@[k] == old(out)@[k],
{
    let base: usize = out.len();
    let total: usize = rows * cols;
    let mut k: usize = 0;
    while k < total
        invariant
            total == rows * cols,
            rows >= 1,
            cols >= 1,
            base + total <= usize::MAX,
            (cols as int) * (cw as int) + x0 as int <= 0xffff,
            (rows as int) * (rh as int) + y0 as int <= 0xffff,
            base == old(out)@.len(),
            out@.len() == base + k,
            k <= total,
            forall|t: int|
                0 <= t < k ==> out@[base + t] == #[trigger] block_cell(
                    x0 as int,
                    y0 as int,
                    cw as int,
                    rh as int,
                    cols as int,
                    t,
                ),
            forall|t: int| 0 <= t < base ==> out@[t] == old(out)@[t],
        decreases total - k,
    {
        let i: usize = k / cols;
        let j: usize = k % cols;
        proof {
            vstd::arithmetic::div_mod::lemma_fundamental_div_mod(k as int, cols as int);
            vstd::arithmetic::div_mod::lemma_mod_division_less_than_divisor(k as int, cols as int);
            assert(k as int == (cols as int) * (i as int) + j as int);
            assert(i < rows) by (nonlinear_arith)
                requires
                    k as int == (cols as int) * (i as int) + j as int,
                    0 <= j < cols,
                    k < rows * cols,
                    rows >= 1,
                    cols >= 1,
            ;
            assert((j as int + 1) * cw as int <= (cols as int) * (cw as int)) by (nonlinear_arith)
                requires
                    0 <= j as int + 1 <= cols as int,
                    cw as int >= 0,
            ;
            assert((i as int + 1) * rh as int <= (rows as int) * (rh as int)) by (nonlinear_arith)
                requires
                    0 <= i as int + 1 <= rows as int,
                    rh as int >= 0,
            ;
            assert((j as int) * cw as int <= (j as int + 1) * cw as int) by (nonlinear_arith)
                requires
                    cw as int >= 0,
                    j as int >= 0,
            ;
            assert((i as int) * rh as int <= (i as int + 1) * rh as int) by (nonlinear_arith)
                requires
                    rh as int >= 0,
                    i as int >= 0,
            ;
            assert(x0 as int + (j as int) * cw as int <= 0xffff);
            assert(y0 as int + (i as int) * rh as int <= 0xffff);
        }
        let cx: u16 = ((x0 as u64) + (j as u64) * (cw as u64)) as u16;
        let cy: u16 = ((y0 as u64) + (i as u64) * (rh as u64)) as u16;
        out.push(GridCell { x: cx, y: cy, width: cw, height: rh });
        k = k + 1;
    }
}

/// Lays `n` panes out in the available area.
///
/// The result has exactly one cell per pane, in pane order. Horizontal mode
/// yields one row of `n` equal-width columns; Vertical mode one column of
/// `n` equal-height rows. Auto mode yields a `shape_rows(n)` by
/// `shape_cols(n)` grid, except that a prime `n > 2` yields one full-width
/// remainder cell first and then a `shape_rows(n-1)` by `shape_cols(n-1)`
/// sub-grid of the remaining `n - 1` panes beneath it. Zero panes yield no
/// cells.
/// What the produced cells of `n` panes look like, by mode: one cell per
/// pane; one row of equal columns in Horizontal mode, one column of equal
/// rows in Vertical mode, a `shape_rows` by `shape_cols` grid in Auto mode —
/// with a full-width remainder row above a sub-grid of `n - 1` panes when
/// `n` is a prime greater than two.
pub open spec fn grid_layout_ok(r: Seq<GridCell>, n: int, mode: Layout, area: GridCell) -> bool {
    &&& r.len() == n
    &&& (mode == Layout::Horizontal ==> forall|k: int|
        0 <= k < n ==> r[k] == #[trigger] block_cell(
            area.x as int,
            area.y as int,
            part_len(area.width as int, n),
            area.height as int,
            n,
            k,
        ))
    &&& (mode == Layout::Vertical ==> forall|k: int|
        0 <= k < n ==> r[k] == #[trigger] block_cell(
            area.x as int,
            area.y as int,
            area.width as int,
            part_len(area.height as int, n),
            1,
            k,
        ))
    &&& (mode == Layout::Auto && n >= 1 && !(spec_is_prime(n) && n > 2) ==> {
        let rows = shape_rows(n);
        let cols = shape_cols(n);
        &&& rows * cols == n
        &&& forall|k: int|
            0 <= k < n ==> r[k] == #[trigger] block_cell(
                area.x as int,
                area.y as int,
                part_len(area.width as int, cols),
                part_len(area.height as int, rows),
                cols,
                k,
            )
    })
    &&& (mode == Layout::Auto && spec_is_prime(n) && n > 2 ==> {
        let rows = shape_rows(n - 1);
        let cols = shape_cols(n - 1);
        let rh = part_len(area.height as int, rows + 1);
        &&& rows * cols == n - 1
        &&& r[0] == cell(area.x as int, area.y as int, area.width as int, rh)
        &&& forall|k: int|
            0 <= k < n - 1 ==> r[1 + k] == #[trigger] block_cell(
                area.x as int,
                area.y + rh,
                part_len(area.width as int, cols),
                rh,
                cols,
                k,
            )
    })
}

pub fn grid_layout(n: usize, mode: Layout, area: GridCell) -> (r: Vec<GridCell>)
    requires
        area.x + area.width <= 0xffff,
        area.y + area.height <= 0xffff,
        n < usize::MAX,
    ensures
        grid_layout_ok(r@, n as int, mode, area),
        r@.len() == n,
{
    let mut out: Vec<GridCell> = Vec::new();
    if n == 0 {
        return out;
    }
    match mode {
        Layout::Horizontal => {
            let cw: u16 = split_len(area.width, n);
            proof {
                lemma_parts_fit(area.width as int, n as int);
            }
            push_block(&mut out, area.x, area.y, 1, n, cw, area.height);
        }
        Layout::Vertical => {
            let rh: u16 = split_len(area.height, n);
            proof {
                lemma_parts_fit(area.height as int, n as int);
            }
            push_block(&mut out, area.x, area.y, n, 1, area.width, rh);
        }
        Layout::Auto => {
            if is_prime(n) && n > 2 {
                let m: usize = n - 1;
                let rows: usize = pick_rows(m);
                proof {
                    lemma_shape_partitions(m as int);
                }
                let cols: usize = m / rows;
                let rh: u16 = split_len(area.height, rows + 1);
                let cw: u16 = split_len(area.width, cols);
                proof {
                    lemma_parts_fit(area.height as int, rows as int + 1);
                    lemma_parts_fit(area.width as int, cols as int);
                    assert((rows as int + 1) * rh as int <= area.height as int);
                    assert((rows as int + 1) * rh as int == (rows as int) * (rh as int)
                        + rh as int) by (nonlinear_arith);
                }
                out.push(GridCell { x: area.x, y: area.y, width: area.width, height: rh });
                let sub_y: u16 = ((area.y as u32) + (rh as u32)) as u16;
                push_block(&mut out, area.x, sub_y, rows, cols, cw, rh);
            } else {
                let rows: usize = pick_rows(n);
                proof {
                    lemma_shape_partitions(n as int);
                }
                let cols: usize = n / rows;
                let rh: u16 = split_len(area.height, rows);
                let cw: u16 = split_len(area.width, cols);
                proof {
                    lemma_parts_fit(area.height as int, rows as int);
                    lemma_parts_fit(area.width as int, cols as int);
                }
                push_block(&mut out, area.x, area.y, rows, cols, cw, rh);
            }
        }
    }
    out
}

} // verus!
