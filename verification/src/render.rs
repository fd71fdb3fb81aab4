//! Rendering of packed, quantized bars into a grid of glyph levels, and the
//! placement of bar labels, group labels and value texts.
//!
//! A glyph level is one of nine fill states of a terminal cell: 0 is empty,
//! 8 is full, and 1 through 7 are the eighth steps between them. The
//! application maps levels to the glyphs of its bar set and writes them into
//! the terminal buffer.

use crate::chart::views_of;
use vstd::prelude::*;

verus! {

/// The glyph level of one cell of a vertical bar: the bar's ticks, less
/// eight per cell below this one, clamped to the nine levels.
pub open spec fn level8(t: int, rows_below: int) -> int {
    if t - 8 * rows_below <= 0 {
        0
    } else if t - 8 * rows_below >= 8 {
        8
    } else {
        t - 8 * rows_below
    }
}

/// The ticks of the bar owning column `x`, walking the packed groups: each
/// bar spans `bw` columns plus a `bgap` gap, each group a trailing `ggap`
/// more; gap columns and columns past the last group carry no ticks.
pub open spec fn col_ticks(rows: Seq<Seq<u64>>, bw: int, bgap: int, ggap: int, x: int) -> int
    recommends
        bw >= 1,
    decreases rows.len(),
{
    if rows.len() == 0 || x < 0 {
        0
    } else {
        let g = rows[0];
        let span = g.len() * (bw + bgap);
        if x < span {
            if x % (bw + bgap) < bw {
                g[x / (bw + bgap)] as int
            } else {
                0
            }
        } else {
            col_ticks(rows.drop_first(), bw, bgap, ggap, x - span - ggap)
        }
    }
}

/// The level of flat cell `k` of a row-major vertical-bar grid of width `w`
/// and height `h`.
pub open spec fn vertical_cell(
    rows: Seq<Seq<u64>>,
    bw: int,
    bgap: int,
    ggap: int,
    w: int,
    h: int,
    k: int,
) -> int {
    level8(col_ticks(rows, bw, bgap, ggap, k % w), h - 1 - k / w)
}

/// The level of flat cell `k` of a row-major horizontal-bar grid: full up
/// to the bar's length in whole cells, empty beyond it.
pub open spec fn horizontal_cell(
    rows: Seq<Seq<u64>>,
    bw: int,
    bgap: int,
    ggap: int,
    w: int,
    k: int,
) -> int {
    if k % w < col_ticks(rows, bw, bgap, ggap, k / w) / 8 {
        8
    } else {
        0
    }
}

/// A grid of glyph levels, row-major from the top-left corner.
pub struct GlyphGrid {
    width: u16,
    height: u16,
    cells: Vec<u8>,
}

impl GlyphGrid {
    /// The grid's width in cells.
    pub closed spec fn spec_width(&self) -> int {
        self.width as int
    }

    /// The grid's height in cells.
    pub closed spec fn spec_height(&self) -> int {
        self.height as int
    }

    /// The level of the cell at column `x` of row `y`.
    pub closed spec fn level_at(&self, x: int, y: int) -> int {
        self.cells@[y * (self.width as int) + x] as int
    }

    /// Well-formedness: one level per cell, each one of the nine states.
    pub closed spec fn wf(&self) -> bool {
        &&& self.cells@.len() == (self.width as int) * (self.height as int)
        &&& forall|k: int| 0 <= k < self.cells@.len() ==> #[trigger] self.cells@[k] <= 8
    }

    /// The grid's width in cells.
    pub fn width(&self) -> (w: u16)
        ensures
            w as int == self.spec_width(),
    {
        self.width
    }

    /// The grid's height in cells.
    pub fn height(&self) -> (h: u16)
        ensures
            h as int == self.spec_height(),
    {
        self.height
    }

    /// The level of the cell at column `x` of row `y`.
    pub fn level(&self, x: u16, y: u16) -> (l: u8)
        requires
            self.wf(),
            x < self.spec_width(),
            y < self.spec_height(),
        ensures
            l as int == self.level_at(x as int, y as int),
            l <= 8,
    {
        proof {
            assert((y as int) * (self.width as int) + x < (self.width as int) * (
            self.height as int)) by (nonlinear_arith)
                requires
                    0 <= x < self.width as int,
                    0 <= y < self.height as int,
            ;
            assert((y as int) * (self.width as int) + x <= 0xffff_fffe) by (nonlinear_arith)
                requires
                    0 <= x < self.width as int <= 0xffff,
                    0 <= y < self.height as int <= 0xffff,
            ;
        }
        self.cells[(y as usize) * (self.width as usize) + (x as usize)]
    }
}

/// The glyph level of one cell of a vertical bar.
fn level8_exec(t: u64, rows_below: u16) -> (l: u8)
    ensures
        l as int == level8(t as int, rows_below as int),
        l <= 8,
{
    let base: u64 = (rows_below as u64) * 8;
    if t <= base {
        0
    } else if t - base >= 8 {
        8
    } else {
        (t - base) as u8
    }
}

/// The ticks of the bar owning column `x` of the packed layout.
fn col_ticks_at(rows: &Vec<Vec<u64>>, bw: u16, bgap: u16, ggap: u16, x: u16) -> (t: u64)
    requires
        bw >= 1,
    ensures
        t as int == col_ticks(views_of(rows@), bw as int, bgap as int, ggap as int, x as int),
{
    let ghost full = views_of(rows@);
    let mut gi: usize = 0;
    let mut cur: u64 = x as u64;
    proof {
        assert(views_of(rows@).skip(0) =~= full);
    }
    while gi < rows.len()
        invariant
            bw >= 1,
            gi <= rows@.len(),
            full == views_of(rows@),
            col_ticks(full, bw as int, bgap as int, ggap as int, x as int) == col_ticks(
                views_of(rows@).skip(gi as int),
                bw as int,
                bgap as int,
                ggap as int,
                cur as int,
            ),
        decreases rows@.len() - gi,
    {
        let ghost rest = views_of(rows@).skip(gi as int);
        proof {
            assert(rest[0] == views_of(rows@)[gi as int]);
            assert(views_of(rows@)[gi as int] == rows@[gi as int]@);
            assert(rest.drop_first() =~= views_of(rows@).skip(gi as int + 1));
        }
        let glen: usize = rows[gi].len();
        proof {
            assert((glen as int) * ((bw as int) + (bgap as int)) <= usize::MAX as int * 0x1ffff)
                by (nonlinear_arith)
                requires
                    0 <= glen as int <= usize::MAX as int,
                    0 <= (bw as int) + (bgap as int) <= 0x1ffff,
            ;
            assert((glen as int) * ((bw as int) + (bgap as int)) >= 0) by (nonlinear_arith)
                requires
                    0 <= glen as int,
                    0 <= (bw as int) + (bgap as int),
            ;
        }
        let span: u128 = (glen as u128) * ((bw as u128) + (bgap as u128));
        if (cur as u128) < span {
            let step: u64 = (bw as u64) + (bgap as u64);
            let bi: u64 = cur / step;
            let off: u64 = cur % step;
            proof {
                assert((glen as int) * (step as int) == (step as int) * (glen as int))
                    by (nonlinear_arith);
                vstd::arithmetic::div_mod::lemma_multiply_divide_lt(
                    cur as int,
                    step as int,
                    glen as int,
                );
            }
            if off < bw as u64 {
                return rows[gi][bi as usize];
            } else {
                return 0;
            }
        } else {
            let need: u128 = span + (ggap as u128);
            if (cur as u128) >= need {
                cur = ((cur as u128) - need) as u64;
                gi = gi + 1;
            } else {
                proof {
                    assert(cur as int - rest[0].len() * ((bw as int) + (bgap as int)) - (
                    ggap as int) < 0);
                    assert(col_ticks(
                        rest.drop_first(),
                        bw as int,
                        bgap as int,
                        ggap as int,
                        cur as int - rest[0].len() * ((bw as int) + (bgap as int)) - (ggap as int),
                    ) == 0);
                }
                return 0;
            }
        }
    }
    proof {
        assert(views_of(rows@).skip(gi as int) =~= Seq::<Seq<u64>>::empty());
    }
    0
}

/// Renders packed vertical bars into a glyph grid: each bar's column gets
/// its level per row, counted from the bottom; gap columns stay empty.
pub fn render_vertical_bars(
    rows: &Vec<Vec<u64>>,
    bar_width: u16,
    bar_gap: u16,
    group_gap: u16,
    width: u16,
    height: u16,
) -> (g: GlyphGrid)
    requires
        bar_width >= 1,
    ensures
        g.wf(),
        g.spec_width() == width,
        g.spec_height() == height,
        forall|x: int, y: int|
            0 <= x < width && 0 <= y < height ==> #[trigger] g.level_at(x, y) == level8(
                col_ticks(
                    views_of(rows@),
                    bar_width as int,
                    bar_gap as int,
                    group_gap as int,
                    x,
                ),
                height - 1 - y,
            ),
{
    let ghost tv = views_of(rows@);
    let mut cells: Vec<u8> = Vec::new();
    let mut y: u16 = 0;
    while y < height
        invariant
            bar_width >= 1,
            tv == views_of(rows@),
            y <= height,
            cells@.len() == (y as int) * (width as int),
            forall|k: int|
                0 <= k < cells@.len() ==> (#[trigger] cells@[k]) as int == vertical_cell(
                    tv,
                    bar_width as int,
                    bar_gap as int,
                    group_gap as int,
                    width as int,
                    height as int,
                    k,
                ) && cells@[k] <= 8,
        decreases height - y,
    {
        let mut x: u16 = 0;
        while x < width
            invariant
                bar_width >= 1,
                tv == views_of(rows@),
                y < height,
                x <= width,
                cells@.len() == (y as int) * (width as int) + x as int,
                forall|k: int|
                    0 <= k < cells@.len() ==> (#[trigger] cells@[k]) as int == vertical_cell(
                        tv,
                        bar_width as int,
                        bar_gap as int,
                        group_gap as int,
                        width as int,
                        height as int,
                        k,
                    ) && cells@[k] <= 8,
            decreases width - x,
        {
            let t: u64 = col_ticks_at(rows, bar_width, bar_gap, group_gap, x);
            let l: u8 = level8_exec(t, height - 1 - y);
            proof {
                vstd::arithmetic::div_mod::lemma_fundamental_div_mod_converse(
                    (y as int) * (width as int) + x as int,
                    width as int,
                    y as int,
                    x as int,
                );
            }
            cells.push(l);
            x = x + 1;
        }
        y = y + 1;
        proof {
            assert((y as int) * (width as int) == (y as int - 1) * (width as int) + width as int)
                by (nonlinear_arith);
        }
    }
    proof {
        assert((height as int) * (width as int) == (width as int) * (height as int))
            by (nonlinear_arith);
    }
    let g = GlyphGrid { width, height, cells };
    proof {
        assert forall|x: int, yy: int| 0 <= x < width && 0 <= yy < height implies #[trigger] g.level_at(
            x,
            yy,
        ) == level8(
            col_ticks(tv, bar_width as int, bar_gap as int, group_gap as int, x),
            height - 1 - yy,
        ) by {
            let k = yy * (width as int) + x;
            vstd::arithmetic::div_mod::lemma_fundamental_div_mod_converse(
                k,
                width as int,
                yy,
                x,
            );
            assert(0 <= k < g.cells@.len()) by (nonlinear_arith)
                requires
                    0 <= x < width as int,
                    0 <= yy < height as int,
                    k == yy * (width as int) + x,
                    g.cells@.len() == (width as int) * (height as int),
            ;
        }
    }
    g
}

/// Renders packed horizontal bars into a glyph grid: each bar's rows are
/// full for the bar's length in whole cells and empty beyond it.
pub fn render_horizontal_bars(
    rows: &Vec<Vec<u64>>,
    bar_width: u16,
    bar_gap: u16,
    group_gap: u16,
    width: u16,
    height: u16,
) -> (g: GlyphGrid)
    requires
        bar_width >= 1,
    ensures
        g.wf(),
        g.spec_width() == width,
        g.spec_height() == height,
        forall|x: int, y: int|
            0 <= x < width && 0 <= y < height ==> #[trigger] g.level_at(x, y) == (if x < col_ticks(
                views_of(rows@),
                bar_width as int,
                bar_gap as int,
                group_gap as int,
                y,
            ) / 8 {
                8int
            } else {
                0int
            }),
{
    let ghost tv = views_of(rows@);
    let mut cells: Vec<u8> = Vec::new();
    let mut y: u16 = 0;
    while y < height
        invariant
            bar_width >= 1,
            tv == views_of(rows@),
            y <= height,
            cells@.len() == (y as int) * (width as int),
            forall|k: int|
                0 <= k < cells@.len() ==> (#[trigger] cells@[k]) as int == horizontal_cell(
                    tv,
                    bar_width as int,
                    bar_gap as int,
                    group_gap as int,
                    width as int,
                    k,
                ) && cells@[k] <= 8,
        decreases height - y,
    {
        let t: u64 = col_ticks_at(rows, bar_width, bar_gap, group_gap, y);
        let bar_len: u64 = t / 8;
        let mut x: u16 = 0;
        while x < width
            invariant
                bar_width >= 1,
                tv == views_of(rows@),
                y < height,
                x <= width,
                t as int == col_ticks(
                    tv,
                    bar_width as int,
                    bar_gap as int,
                    group_gap as int,
                    y as int,
                ),
                bar_len as int == t as int / 8,
                cells@.len() == (y as int) * (width as int) + x as int,
                forall|k: int|
                    0 <= k < cells@.len() ==> (#[trigger] cells@[k]) as int == horizontal_cell(
                        tv,
                        bar_width as int,
                        bar_gap as int,
                        group_gap as int,
                        width as int,
                        k,
                    ) && cells@[k] <= 8,
            decreases width - x,
        {
            let l: u8 = if (x as u64) < bar_len {
                8
            } else {
                0
            };
            proof {
                vstd::arithmetic::div_mod::lemma_fundamental_div_mod_converse(
                    (y as int) * (width as int) + x as int,
                    width as int,
                    y as int,
                    x as int,
                );
            }
            cells.push(l);
            x = x + 1;
        }
        y = y + 1;
        proof {
            assert((y as int) * (width as int) == (y as int - 1) * (width as int) + width as int)
                by (nonlinear_arith);
        }
    }
    proof {
        assert((height as int) * (width as int) == (width as int) * (height as int))
            by (nonlinear_arith);
    }
    let g = GlyphGrid { width, height, cells };
    proof {
        assert forall|x: int, yy: int| 0 <= x < width && 0 <= yy < height implies #[trigger] g.level_at(
            x,
            yy,
        ) == (if x < col_ticks(tv, bar_width as int, bar_gap as int, group_gap as int, yy) / 8 {
            8int
        } else {
            0int
        }) by {
            let k = yy * (width as int) + x;
            vstd::arithmetic::div_mod::lemma_fundamental_div_mod_converse(
                k,
                width as int,
                yy,
                x,
            );
            assert(0 <= k < g.cells@.len()) by (nonlinear_arith)
                requires
                    0 <= x < width as int,
                    0 <= yy < height as int,
                    k == yy * (width as int) + x,
                    g.cells@.len() == (width as int) * (height as int),
            ;
        }
    }
    g
}

/// A coordinate clamped to the addressable range: positions past the last
/// addressable cell collapse to the sentinel one past it.
pub open spec fn cap_pos(p: int) -> int {
    if p > 0xffff {
        0x10000
    } else {
        p
    }
}

/// The packing-axis offset of group `g`: every earlier group's bars with
/// their gaps, plus one group gap each.
pub open spec fn group_x(rows: Seq<Seq<u64>>, bw: int, bgap: int, ggap: int, g: int) -> int
    decreases g,
{
    if g <= 0 {
        0
    } else {
        group_x(rows, bw, bgap, ggap, g - 1) + rows[g - 1].len() * (bw + bgap) + ggap
    }
}

/// The packing-axis offset of bar `b` of group `g`.
pub open spec fn bar_x_of(rows: Seq<Seq<u64>>, bw: int, bgap: int, ggap: int, g: int, b: int) -> int {
    group_x(rows, bw, bgap, ggap, g) + b * (bw + bgap)
}

/// Clamping commutes with adding a nonnegative offset.
proof fn lemma_cap_pos_add(a: int, d: int)
    requires
        a >= 0,
        d >= 0,
    ensures
        cap_pos(cap_pos(a) + d) == cap_pos(a + d),
{
}

/// Adds a nonnegative offset to a clamped coordinate, clamping the result.
fn cap_add(a: u64, delta: u128) -> (r: u64)
    requires
        a <= 0x10000,
    ensures
        r as int == cap_pos(a as int + delta as int),
        r <= 0x10000,
{
    if delta >= 0x10000 {
        0x10000
    } else if a + (delta as u64) >= 0x10000 {
        0x10000
    } else {
        a + (delta as u64)
    }
}

/// The packing-axis position of every bar, clamped to the addressable
/// range, in the shape of the tick rows.
pub fn bar_positions(rows: &Vec<Vec<u64>>, bw: u16, bgap: u16, ggap: u16) -> (r: Vec<Vec<u64>>)
    ensures
        r@.len() == rows@.len(),
        forall|g: int| 0 <= g < r@.len() ==> (#[trigger] r@[g])@.len() == rows@[g]@.len(),
        forall|g: int, b: int|
            0 <= g < r@.len() && 0 <= b < r@[g]@.len() ==> (#[trigger] r@[g]@[b]) as int == cap_pos(
                bar_x_of(
                    views_of(rows@),
                    bw as int,
                    bgap as int,
                    ggap as int,
                    g,
                    b,
                ),
            ) && r@[g]@[b] <= 0x10000,
{
    let ghost tv = views_of(rows@);
    let mut out: Vec<Vec<u64>> = Vec::new();
    let mut gx: u64 = 0;
    let mut g: usize = 0;
    while g < rows.len()
        invariant
            tv == views_of(rows@),
            g <= rows@.len(),
            out@.len() == g,
            gx <= 0x10000,
            gx as int == cap_pos(group_x(tv, bw as int, bgap as int, ggap as int, g as int)),
            group_x(tv, bw as int, bgap as int, ggap as int, g as int) >= 0,
            forall|t: int| 0 <= t < g ==> (#[trigger] out@[t])@.len() == rows@[t]@.len(),
            forall|t: int, b: int|
                0 <= t < g && 0 <= b < out@[t]@.len() ==> (#[trigger] out@[t]@[b]) as int
                    == cap_pos(bar_x_of(tv, bw as int, bgap as int, ggap as int, t, b))
                    && out@[t]@[b] <= 0x10000,
        decreases rows@.len() - g,
    {
        proof {
            assert(tv[g as int] == rows@[g as int]@);
        }
        let glen: usize = rows[g].len();
        let step: u64 = (bw as u64) + (bgap as u64);
        let mut row: Vec<u64> = Vec::new();
        let mut bx: u64 = gx;
        let mut b: usize = 0;
        proof {
            assert(bar_x_of(tv, bw as int, bgap as int, ggap as int, g as int, 0) == group_x(
                tv,
                bw as int,
                bgap as int,
                ggap as int,
                g as int,
            )) by (nonlinear_arith);
        }
        while b < glen
            invariant
                tv == views_of(rows@),
                g < rows@.len(),
                glen == rows@[g as int]@.len(),
                step == bw as int + bgap as int,
                b <= glen,
                row@.len() == b,
                bx <= 0x10000,
                group_x(tv, bw as int, bgap as int, ggap as int, g as int) >= 0,
                bar_x_of(tv, bw as int, bgap as int, ggap as int, g as int, b as int) >= 0,
                bx as int == cap_pos(
                    bar_x_of(tv, bw as int, bgap as int, ggap as int, g as int, b as int),
                ),
                forall|t: int|
                    0 <= t < b ==> (#[trigger] row@[t]) as int == cap_pos(
                        bar_x_of(tv, bw as int, bgap as int, ggap as int, g as int, t),
                    ) && row@[t] <= 0x10000,
            decreases glen - b,
        {
            row.push(bx);
            proof {
                let before = bar_x_of(tv, bw as int, bgap as int, ggap as int, g as int, b as int);
                let after = bar_x_of(
                    tv,
                    bw as int,
                    bgap as int,
                    ggap as int,
                    g as int,
                    b as int + 1,
                );
                assert(after == before + step) by (nonlinear_arith)
                    requires
                        before == group_x(tv, bw as int, bgap as int, ggap as int, g as int) + (
                        b as int) * (bw as int + bgap as int),
                        after == group_x(tv, bw as int, bgap as int, ggap as int, g as int) + (
                        b as int + 1) * (bw as int + bgap as int),
                        step == bw as int + bgap as int,
                ;
                lemma_cap_pos_add(before, step as int);
            }
            bx = cap_add(bx, step as u128);
            b = b + 1;
        }
        out.push(row);
        proof {
            assert((glen as int) * (step as int) >= 0) by (nonlinear_arith)
                requires
                    glen as int >= 0,
                    step as int >= 0,
            ;
            assert((glen as int) * (step as int) <= usize::MAX as int * 0x1ffff)
                by (nonlinear_arith)
                requires
                    0 <= glen as int <= usize::MAX as int,
                    0 <= step as int <= 0x1ffff,
            ;
            lemma_cap_pos_add(
                group_x(tv, bw as int, bgap as int, ggap as int, g as int),
                (glen as int) * (step as int) + ggap as int,
            );
        }
        let delta: u128 = (glen as u128) * (step as u128) + (ggap as u128);
        gx = cap_add(gx, delta);
        g = g + 1;
    }
    out
}

/// One text placement inside a pane, in pane-local coordinates; invisible
/// placements carry empty fields.
pub struct TextWrite {
    pub visible: bool,
    pub x: u16,
    pub y: u16,
    pub width: u16,
    pub text: String,
}

/// The text shown for a bar's value: its value text if set, otherwise the
/// decimal rendering of the value.
pub open spec fn value_text(bar: crate::chart::Bar) -> Seq<char> {
    if bar.text_value is Some {
        bar.text_value->0@
    } else {
        crate::text::spec_digits(bar.value as int)
    }
}

/// Whether a vertical bar's value text is shown: a nonzero value whose text
/// fits the bar's width, or exactly fills it on a bar of at least one cell.
pub open spec fn value_visible(bar: crate::chart::Bar, bw: int, t: int) -> bool {
    bar.value != 0 && (value_text(bar).len() < bw || (value_text(bar).len() == bw && t >= 8))
}

/// The offset that centers a text of `len` cells in a slot of `bw` cells.
pub open spec fn center_off(bw: int, len: int) -> int {
    if len >= bw {
        0
    } else {
        (bw - len) / 2
    }
}

/// An invisible placement: all fields empty.
pub open spec fn blank_write(w: TextWrite) -> bool {
    !w.visible && w.x == 0 && w.y == 0 && w.width == 0 && w.text@ == Seq::<char>::empty()
}

/// The text shown for a bar's value.
fn value_text_of(bar: &crate::chart::Bar) -> (s: String)
    ensures
        s@ == value_text(*bar),
{
    match &bar.text_value {
        Some(t) => t.clone(),
        None => crate::text::u64_to_string(bar.value),
    }
}

/// The length of a text in characters.
fn char_len(s: &String) -> (l: usize)
    ensures
        l == s@.len(),
{
    s.as_str().unicode_len()
}

/// The placement of one vertical bar's value text: centered in the bar's
/// slot on the value row, shown for a nonzero value whose text fits.
pub open spec fn value_write_ok(
    w: TextWrite,
    bar: crate::chart::Bar,
    t: int,
    p: int,
    bw: int,
    y: int,
) -> bool {
    let vis = value_visible(bar, bw, t) && p + bw <= 0xffff;
    if vis {
        &&& w.visible
        &&& w.x as int == p + center_off(bw, value_text(bar).len() as int)
        &&& w.y as int == y
        &&& w.width as int == bw
        &&& w.text@ == value_text(bar)
    } else {
        blank_write(w)
    }
}

/// The placement of one vertical bar's label: centered under the bar, at
/// most as wide as the bar.
pub open spec fn bar_label_write_ok(
    w: TextWrite,
    bar: crate::chart::Bar,
    p: int,
    bw: int,
    enabled: bool,
    y: int,
) -> bool {
    let vis = enabled && bar.label is Some && p + bw <= 0xffff;
    if vis {
        let width = vstd::math::min(bar.label->0@.len() as int, bw);
        &&& w.visible
        &&& w.x as int == p + center_off(bw, width)
        &&& w.y as int == y
        &&& w.width as int == width
        &&& w.text@ == bar.label->0@
    } else {
        blank_write(w)
    }
}

/// The placement of one horizontal bar's label in the label column, and of
/// its value text at the start of the bar's rows.
pub open spec fn hside_write_ok(
    w: TextWrite,
    text: Seq<char>,
    has: bool,
    p: int,
    bw: int,
    x: int,
    width: int,
    y_mid: int,
) -> bool {
    let vis = has && p + bw <= 0xffff;
    if vis {
        &&& w.visible
        &&& w.x as int == x
        &&& w.y as int == y_mid
        &&& w.width as int == width
        &&& w.text@ == text
    } else {
        blank_write(w)
    }
}

/// Builds one blank placement.
fn blank() -> (w: TextWrite)
    ensures
        blank_write(w),
{
    TextWrite { visible: false, x: 0, y: 0, width: 0, text: String::new() }
}

/// The value texts of the visible vertical bars, one placement per bar, in
/// the shape of the tick rows.
pub fn value_writes(
    groups: &Vec<crate::chart::BarGroup>,
    ticks: &Vec<Vec<u64>>,
    pos: &Vec<Vec<u64>>,
    bar_width: u16,
    y: u16,
) -> (r: Vec<Vec<TextWrite>>)
    requires
        ticks@.len() <= groups@.len(),
        pos@.len() == ticks@.len(),
        forall|g: int|
            0 <= g < ticks@.len() ==> (#[trigger] ticks@[g])@.len() <= groups@[g].bars@.len()
                && pos@[g]@.len() == ticks@[g]@.len(),
        forall|g: int, b: int|
            0 <= g < pos@.len() && 0 <= b < pos@[g]@.len() ==> (#[trigger] pos@[g]@[b]) <= 0x10000,
    ensures
        r@.len() == ticks@.len(),
        forall|g: int| 0 <= g < r@.len() ==> (#[trigger] r@[g])@.len() == ticks@[g]@.len(),
        forall|g: int, b: int|
            0 <= g < r@.len() && 0 <= b < r@[g]@.len() ==> value_write_ok(
                #[trigger] r@[g]@[b],
                groups@[g].bars@[b],
                ticks@[g]@[b] as int,
                pos@[g]@[b] as int,
                bar_width as int,
                y as int,
            ),
{
    let mut r: Vec<Vec<TextWrite>> = Vec::new();
    let mut g: usize = 0;
    while g < ticks.len()
        invariant
            ticks@.len() <= groups@.len(),
            pos@.len() == ticks@.len(),
            forall|t: int|
                0 <= t < ticks@.len() ==> (#[trigger] ticks@[t])@.len() <= groups@[t].bars@.len()
                    && pos@[t]@.len() == ticks@[t]@.len(),
            forall|t: int, b: int|
                0 <= t < pos@.len() && 0 <= b < pos@[t]@.len() ==> (#[trigger] pos@[t]@[b])
                    <= 0x10000,
            g <= ticks@.len(),
            r@.len() == g,
            forall|t: int| 0 <= t < g ==> (#[trigger] r@[t])@.len() == ticks@[t]@.len(),
            forall|t: int, b: int|
                0 <= t < g && 0 <= b < r@[t]@.len() ==> value_write_ok(
                    #[trigger] r@[t]@[b],
                    groups@[t].bars@[b],
                    ticks@[t]@[b] as int,
                    pos@[t]@[b] as int,
                    bar_width as int,
                    y as int,
                ),
        decreases ticks@.len() - g,
    {
        let glen: usize = ticks[g].len();
        let mut row: Vec<TextWrite> = Vec::new();
        let mut b: usize = 0;
        while b < glen
            invariant
                ticks@.len() <= groups@.len(),
                pos@.len() == ticks@.len(),
                g < ticks@.len(),
                glen == ticks@[g as int]@.len(),
                glen <= groups@[g as int].bars@.len(),
                pos@[g as int]@.len() == glen,
                forall|bb: int|
                    0 <= bb < glen ==> (#[trigger] pos@[g as int]@[bb]) <= 0x10000,
                b <= glen,
                row@.len() == b,
                forall|t: int|
                    0 <= t < b ==> value_write_ok(
                        #[trigger] row@[t],
                        groups@[g as int].bars@[t],
                        ticks@[g as int]@[t] as int,
                        pos@[g as int]@[t] as int,
                        bar_width as int,
                        y as int,
                    ),
            decreases glen - b,
        {
            let bar = &groups[g].bars[b];
            let t: u64 = ticks[g][b];
            let p: u64 = pos[g][b];
            let s: String = value_text_of(bar);
            let len: usize = char_len(&s);
            let vis_text: bool = bar.value != 0 && (len < bar_width as usize || (len
                == bar_width as usize && t >= 8));
            if vis_text && p + (bar_width as u64) <= 0xffff {
                let off: u16 = if len >= bar_width as usize {
                    0
                } else {
                    (bar_width - len as u16) / 2
                };
                row.push(
                    TextWrite {
                        visible: true,
                        x: (p as u16) + off,
                        y,
                        width: bar_width,
                        text: s,
                    },
                );
            } else {
                row.push(blank());
            }
            b = b + 1;
        }
        r.push(row);
        g = g + 1;
    }
    r
}

/// The labels of the visible vertical bars, one placement per bar, in the
/// shape of the tick rows.
pub fn bar_label_writes(
    groups: &Vec<crate::chart::BarGroup>,
    ticks: &Vec<Vec<u64>>,
    pos: &Vec<Vec<u64>>,
    bar_width: u16,
    enabled: bool,
    y: u16,
) -> (r: Vec<Vec<TextWrite>>)
    requires
        ticks@.len() <= groups@.len(),
        pos@.len() == ticks@.len(),
        forall|g: int|
            0 <= g < ticks@.len() ==> (#[trigger] ticks@[g])@.len() <= groups@[g].bars@.len()
                && pos@[g]@.len() == ticks@[g]@.len(),
        forall|g: int, b: int|
            0 <= g < pos@.len() && 0 <= b < pos@[g]@.len() ==> (#[trigger] pos@[g]@[b]) <= 0x10000,
    ensures
        r@.len() == ticks@.len(),
        forall|g: int| 0 <= g < r@.len() ==> (#[trigger] r@[g])@.len() == ticks@[g]@.len(),
        forall|g: int, b: int|
            0 <= g < r@.len() && 0 <= b < r@[g]@.len() ==> bar_label_write_ok(
                #[trigger] r@[g]@[b],
                groups@[g].bars@[b],
                pos@[g]@[b] as int,
                bar_width as int,
                enabled,
                y as int,
            ),
{
    let mut r: Vec<Vec<TextWrite>> = Vec::new();
    let mut g: usize = 0;
    while g < ticks.len()
        invariant
            ticks@.len() <= groups@.len(),
            pos@.len() == ticks@.len(),
            forall|t: int|
                0 <= t < ticks@.len() ==> (#[trigger] ticks@[t])@.len() <= groups@[t].bars@.len()
                    && pos@[t]@.len() == ticks@[t]@.len(),
            forall|t: int, b: int|
                0 <= t < pos@.len() && 0 <= b < pos@[t]@.len() ==> (#[trigger] pos@[t]@[b])
                    <= 0x10000,
            g <= ticks@.len(),
            r@.len() == g,
            forall|t: int| 0 <= t < g ==> (#[trigger] r@[t])@.len() == ticks@[t]@.len(),
            forall|t: int, b: int|
                0 <= t < g && 0 <= b < r@[t]@.len() ==> bar_label_write_ok(
                    #[trigger] r@[t]@[b],
                    groups@[t].bars@[b],
                    pos@[t]@[b] as int,
                    bar_width as int,
                    enabled,
                    y as int,
                ),
        decreases ticks@.len() - g,
    {
        let glen: usize = ticks[g].len();
        let mut row: Vec<TextWrite> = Vec::new();
        let mut b: usize = 0;
        while b < glen
            invariant
                ticks@.len() <= groups@.len(),
                pos@.len() == ticks@.len(),
                g < ticks@.len(),
                glen == ticks@[g as int]@.len(),
                glen <= groups@[g as int].bars@.len(),
                pos@[g as int]@.len() == glen,
                forall|bb: int|
                    0 <= bb < glen ==> (#[trigger] pos@[g as int]@[bb]) <= 0x10000,
                b <= glen,
                row@.len() == b,
                forall|t: int|
                    0 <= t < b ==> bar_label_write_ok(
                        #[trigger] row@[t],
                        groups@[g as int].bars@[t],
                        pos@[g as int]@[t] as int,
                        bar_width as int,
                        enabled,
                        y as int,
                    ),
            decreases glen - b,
        {
            let bar = &groups[g].bars[b];
            let p: u64 = pos[g][b];
            let mut w: TextWrite = blank();
            if enabled && p + (bar_width as u64) <= 0xffff {
                match &bar.label {
                    Some(label) => {
                        let len: usize = char_len(label);
                        let width: u16 = if len >= bar_width as usize {
                            bar_width
                        } else {
                            len as u16
                        };
                        let off: u16 = if width >= bar_width {
                            0
                        } else {
                            (bar_width - width) / 2
                        };
                        w = TextWrite {
                            visible: true,
                            x: (p as u16) + off,
                            y,
                            width,
                            text: label.clone(),
                        };
                    },
                    None => {},
                }
            }
            row.push(w);
            b = b + 1;
        }
        r.push(row);
        g = g + 1;
    }
    r
}

/// The placement of one group's label on the group-label row: at the
/// group's first bar, as wide as the label.
pub open spec fn group_label_write_ok(
    w: TextWrite,
    group: crate::chart::BarGroup,
    row_len: int,
    p: int,
    enabled: bool,
    y: int,
) -> bool {
    let vis = enabled && group.label is Some && row_len > 0 && p <= 0xffff;
    if vis {
        &&& w.visible
        &&& w.x as int == p
        &&& w.y as int == y
        &&& w.width as int == vstd::math::min(group.label->0@.len() as int, 0xffff)
        &&& w.text@ == group.label->0@
    } else {
        blank_write(w)
    }
}

/// The group labels of the visible groups, one placement per group.
pub fn group_label_writes(
    groups: &Vec<crate::chart::BarGroup>,
    ticks: &Vec<Vec<u64>>,
    pos: &Vec<Vec<u64>>,
    enabled: bool,
    y: u16,
) -> (r: Vec<TextWrite>)
    requires
        ticks@.len() <= groups@.len(),
        pos@.len() == ticks@.len(),
        forall|g: int| 0 <= g < ticks@.len() ==> (#[trigger] pos@[g])@.len() == ticks@[g]@.len(),
    ensures
        r@.len() == ticks@.len(),
        forall|g: int|
            0 <= g < r@.len() ==> group_label_write_ok(
                #[trigger] r@[g],
                groups@[g],
                ticks@[g]@.len() as int,
                (if ticks@[g]@.len() > 0 {
                    pos@[g]@[0] as int
                } else {
                    0x10000
                }),
                enabled,
                y as int,
            ),
{
    let mut r: Vec<TextWrite> = Vec::new();
    let mut g: usize = 0;
    while g < ticks.len()
        invariant
            ticks@.len() <= groups@.len(),
            pos@.len() == ticks@.len(),
            forall|t: int|
                0 <= t < ticks@.len() ==> (#[trigger] pos@[t])@.len() == ticks@[t]@.len(),
            g <= ticks@.len(),
            r@.len() == g,
            forall|t: int|
                0 <= t < g ==> group_label_write_ok(
                    #[trigger] r@[t],
                    groups@[t],
                    ticks@[t]@.len() as int,
                    (if ticks@[t]@.len() > 0 {
                        pos@[t]@[0] as int
                    } else {
                        0x10000
                    }),
                    enabled,
                    y as int,
                ),
        decreases ticks@.len() - g,
    {
        let row_len: usize = ticks[g].len();
        let mut w: TextWrite = blank();
        if enabled && row_len > 0 {
            let p: u64 = pos[g][0];
            if p <= 0xffff {
                match &groups[g].label {
                    Some(label) => {
                        let len: usize = char_len(label);
                        let width: u16 = if len >= 0xffff {
                            0xffff
                        } else {
                            len as u16
                        };
                        w = TextWrite {
                            visible: true,
                            x: p as u16,
                            y,
                            width,
                            text: label.clone(),
                        };
                    },
                    None => {},
                }
            }
        }
        r.push(w);
        g = g + 1;
    }
    r
}

/// The side texts of the visible horizontal bars — the label in the label
/// column and the value text on the bar — one placement per bar each, in
/// the shape of the tick rows. A bar's texts sit on the middle row of the
/// bar; the label column starts at the left edge, the value text at `x0`.
#[verifier::spinoff_prover]
#[verifier::rlimit(50)]
pub fn hside_writes(
    groups: &Vec<crate::chart::BarGroup>,
    ticks: &Vec<Vec<u64>>,
    pos: &Vec<Vec<u64>>,
    bar_width: u16,
    label_width: u16,
    x0: u16,
    value_width: u16,
) -> (r: (Vec<Vec<TextWrite>>, Vec<Vec<TextWrite>>))
    requires
        bar_width >= 1,
        ticks@.len() <= groups@.len(),
        pos@.len() == ticks@.len(),
        forall|g: int|
            0 <= g < ticks@.len() ==> (#[trigger] ticks@[g])@.len() <= groups@[g].bars@.len()
                && pos@[g]@.len() == ticks@[g]@.len(),
        forall|g: int, b: int|
            0 <= g < pos@.len() && 0 <= b < pos@[g]@.len() ==> (#[trigger] pos@[g]@[b]) <= 0x10000,
    ensures
        r.0@.len() == ticks@.len(),
        r.1@.len() == ticks@.len(),
        forall|g: int|
            0 <= g < ticks@.len() ==> (#[trigger] r.0@[g])@.len() == ticks@[g]@.len()
                && r.1@[g]@.len() == ticks@[g]@.len(),
        forall|g: int, b: int|
            0 <= g < ticks@.len() && 0 <= b < ticks@[g]@.len() ==> hside_write_ok(
                #[trigger] r.0@[g]@[b],
                (if groups@[g].bars@[b].label is Some {
                    groups@[g].bars@[b].label->0@
                } else {
                    Seq::<char>::empty()
                }),
                groups@[g].bars@[b].label is Some && label_width > 0,
                pos@[g]@[b] as int,
                bar_width as int,
                0,
                label_width as int,
                pos@[g]@[b] + (bar_width as int) / 2,
            ),
        forall|g: int, b: int|
            0 <= g < ticks@.len() && 0 <= b < ticks@[g]@.len() ==> hside_write_ok(
                #[trigger] r.1@[g]@[b],
                value_text(groups@[g].bars@[b]),
                value_text(groups@[g].bars@[b]).len() > 0,
                pos@[g]@[b] as int,
                bar_width as int,
                x0 as int,
                value_width as int,
                pos@[g]@[b] + (bar_width as int) / 2,
            ),
{
    let mut labels: Vec<Vec<TextWrite>> = Vec::new();
    let mut values: Vec<Vec<TextWrite>> = Vec::new();
    let mut g: usize = 0;
    while g < ticks.len()
        invariant
            bar_width >= 1,
            ticks@.len() <= groups@.len(),
            pos@.len() == ticks@.len(),
            forall|t: int|
                0 <= t < ticks@.len() ==> (#[trigger] ticks@[t])@.len() <= groups@[t].bars@.len()
                    && pos@[t]@.len() == ticks@[t]@.len(),
            forall|t: int, b: int|
                0 <= t < pos@.len() && 0 <= b < pos@[t]@.len() ==> (#[trigger] pos@[t]@[b])
                    <= 0x10000,
            g <= ticks@.len(),
            labels@.len() == g,
            values@.len() == g,
            forall|t: int|
                0 <= t < g ==> (#[trigger] labels@[t])@.len() == ticks@[t]@.len()
                    && values@[t]@.len() == ticks@[t]@.len(),
            forall|t: int, b: int|
                0 <= t < g && 0 <= b < ticks@[t]@.len() ==> hside_write_ok(
                    #[trigger] labels@[t]@[b],
                    (if groups@[t].bars@[b].label is Some {
                        groups@[t].bars@[b].label->0@
                    } else {
                        Seq::<char>::empty()
                    }),
                    groups@[t].bars@[b].label is Some && label_width > 0,
                    pos@[t]@[b] as int,
                    bar_width as int,
                    0,
                    label_width as int,
                    pos@[t]@[b] + (bar_width as int) / 2,
                ),
            forall|t: int, b: int|
                0 <= t < g && 0 <= b < ticks@[t]@.len() ==> hside_write_ok(
                    #[trigger] values@[t]@[b],
                    value_text(groups@[t].bars@[b]),
                    value_text(groups@[t].bars@[b]).len() > 0,
                    pos@[t]@[b] as int,
                    bar_width as int,
                    x0 as int,
                    value_width as int,
                    pos@[t]@[b] + (bar_width as int) / 2,
                ),
        decreases ticks@.len() - g,
    {
        let glen: usize = ticks[g].len();
        let mut lrow: Vec<TextWrite> = Vec::new();
        let mut vrow: Vec<TextWrite> = Vec::new();
        let mut b: usize = 0;
        while b < glen
            invariant
                bar_width >= 1,
                ticks@.len() <= groups@.len(),
                pos@.len() == ticks@.len(),
                g < ticks@.len(),
                glen == ticks@[g as int]@.len(),
                glen <= groups@[g as int].bars@.len(),
                pos@[g as int]@.len() == glen,
                forall|bb: int|
                    0 <= bb < glen ==> (#[trigger] pos@[g as int]@[bb]) <= 0x10000,
                b <= glen,
                lrow@.len() == b,
                vrow@.len() == b,
                forall|t: int|
                    0 <= t < b ==> hside_write_ok(
                        #[trigger] lrow@[t],
                        (if groups@[g as int].bars@[t].label is Some {
                            groups@[g as int].bars@[t].label->0@
                        } else {
                            Seq::<char>::empty()
                        }),
                        groups@[g as int].bars@[t].label is Some && label_width > 0,
                        pos@[g as int]@[t] as int,
                        bar_width as int,
                        0,
                        label_width as int,
                        pos@[g as int]@[t] + (bar_width as int) / 2,
                    ),
                forall|t: int|
                    0 <= t < b ==> hside_write_ok(
                        #[trigger] vrow@[t],
                        value_text(groups@[g as int].bars@[t]),
                        value_text(groups@[g as int].bars@[t]).len() > 0,
                        pos@[g as int]@[t] as int,
                        bar_width as int,
                        x0 as int,
                        value_width as int,
                        pos@[g as int]@[t] + (bar_width as int) / 2,
                    ),
            decreases glen - b,
        {
            let bar = &groups[g].bars[b];
            let p: u64 = pos[g][b];
            let y_ok: bool = p + (bar_width as u64) <= 0xffff;
            let y_mid: u16 = if y_ok {
                (p as u16) + bar_width / 2
            } else {
                0
            };
            let mut lw: TextWrite = blank();
            if y_ok && label_width > 0 {
                match &bar.label {
                    Some(label) => {
                        lw = TextWrite {
                            visible: true,
                            x: 0,
                            y: y_mid,
                            width: label_width,
                            text: label.clone(),
                        };
                    },
                    None => {},
                }
            }
            lrow.push(lw);
            let s: String = value_text_of(bar);
            let slen: usize = char_len(&s);
            let mut vw: TextWrite = blank();
            if y_ok && slen > 0 {
                vw = TextWrite { visible: true, x: x0, y: y_mid, width: value_width, text: s };
            }
            vrow.push(vw);
            b = b + 1;
        }
        labels.push(lrow);
        values.push(vrow);
        g = g + 1;
    }
    (labels, values)
}

/// The placement of one group's label in the gap row after its bars on a
/// horizontal chart.
pub open spec fn hgroup_write_ok(
    w: TextWrite,
    group: crate::chart::BarGroup,
    rowlen: int,
    p: int,
    bw: int,
    bgap: int,
    ggap: int,
    x0: int,
    height: int,
) -> bool {
    let top = cap_pos(p + rowlen * (bw + bgap));
    let vis = ggap > 0 && group.label is Some && rowlen > 0 && p <= 0xffff && top <= 0xffff && top
        - bgap < height;
    if vis {
        &&& w.visible
        &&& w.x as int == x0
        &&& w.y as int == top - bgap
        &&& w.width as int == vstd::math::min(group.label->0@.len() as int, 0xffff)
        &&& w.text@ == group.label->0@
    } else {
        blank_write(w)
    }
}

/// The group labels of a horizontal chart, one placement per group, in the
/// gap row after the group's bars.
pub fn hgroup_label_writes(
    groups: &Vec<crate::chart::BarGroup>,
    ticks: &Vec<Vec<u64>>,
    pos: &Vec<Vec<u64>>,
    bar_width: u16,
    bar_gap: u16,
    group_gap: u16,
    x0: u16,
    height: u16,
) -> (r: Vec<TextWrite>)
    requires
        bar_width >= 1,
        ticks@.len() <= groups@.len(),
        pos@.len() == ticks@.len(),
        forall|g: int| 0 <= g < ticks@.len() ==> (#[trigger] pos@[g])@.len() == ticks@[g]@.len(),
        forall|g: int, b: int|
            0 <= g < pos@.len() && 0 <= b < pos@[g]@.len() ==> (#[trigger] pos@[g]@[b]) <= 0x10000,
    ensures
        r@.len() == ticks@.len(),
        forall|g: int|
            0 <= g < r@.len() ==> hgroup_write_ok(
                #[trigger] r@[g],
                groups@[g],
                ticks@[g]@.len() as int,
                (if ticks@[g]@.len() > 0 {
                    pos@[g]@[0] as int
                } else {
                    0x10000
                }),
                bar_width as int,
                bar_gap as int,
                group_gap as int,
                x0 as int,
                height as int,
            ),
{
    let mut r: Vec<TextWrite> = Vec::new();
    let mut g: usize = 0;
    while g < ticks.len()
        invariant
            bar_width >= 1,
            ticks@.len() <= groups@.len(),
            pos@.len() == ticks@.len(),
            forall|t: int|
                0 <= t < ticks@.len() ==> (#[trigger] pos@[t])@.len() == ticks@[t]@.len(),
            forall|t: int, b: int|
                0 <= t < pos@.len() && 0 <= b < pos@[t]@.len() ==> (#[trigger] pos@[t]@[b])
                    <= 0x10000,
            g <= ticks@.len(),
            r@.len() == g,
            forall|t: int|
                0 <= t < g ==> hgroup_write_ok(
                    #[trigger] r@[t],
                    groups@[t],
                    ticks@[t]@.len() as int,
                    (if ticks@[t]@.len() > 0 {
                        pos@[t]@[0] as int
                    } else {
                        0x10000
                    }),
                    bar_width as int,
                    bar_gap as int,
                    group_gap as int,
                    x0 as int,
                    height as int,
                ),
        decreases ticks@.len() - g,
    {
        let rowlen: usize = ticks[g].len();
        let mut w: TextWrite = blank();
        if group_gap > 0 && rowlen > 0 {
            let p: u64 = pos[g][0];
            if p <= 0xffff {
                let step: u64 = (bar_width as u64) + (bar_gap as u64);
                proof {
                    assert((rowlen as int) * (step as int) >= 0) by (nonlinear_arith)
                        requires
                            rowlen as int >= 0,
                            step as int >= 0,
                    ;
                    assert((rowlen as int) * (step as int) >= step as int) by (nonlinear_arith)
                        requires
                            rowlen as int >= 1,
                            step as int >= 0,
                    ;
                    assert((rowlen as int) * (step as int) <= usize::MAX as int * 0x1ffff)
                        by (nonlinear_arith)
                        requires
                            0 <= rowlen as int <= usize::MAX as int,
                            0 <= step as int <= 0x1ffff,
                    ;
                }
                let top: u64 = cap_add(p, (rowlen as u128) * (step as u128));
                if top <= 0xffff && (top as u16) - bar_gap < height {
                    match &groups[g].label {
                        Some(label) => {
                            let len: usize = char_len(label);
                            let width: u16 = if len >= 0xffff {
                                0xffff
                            } else {
                                len as u16
                            };
                            w = TextWrite {
                                visible: true,
                                x: x0,
                                y: (top as u16) - bar_gap,
                                width,
                                text: label.clone(),
                            };
                        },
                        None => {},
                    }
                }
            }
        }
        r.push(w);
        g = g + 1;
    }
    r
}

/// The longest bar label of any group, in characters.
pub open spec fn spec_max_label_len(groups: Seq<crate::chart::BarGroup>) -> int
    decreases groups.len(),
{
    if groups.len() == 0 {
        0
    } else {
        let m = spec_max_label_len(groups.drop_last());
        let l = spec_group_label_max(groups.last().bars@);
        if l > m {
            l
        } else {
            m
        }
    }
}

/// The longest label of a row of bars, in characters.
pub open spec fn spec_group_label_max(bars: Seq<crate::chart::Bar>) -> int
    decreases bars.len(),
{
    if bars.len() == 0 {
        0
    } else {
        let m = spec_group_label_max(bars.drop_last());
        let l = if bars.last().label is Some {
            bars.last().label->0@.len() as int
        } else {
            0
        };
        if l > m {
            l
        } else {
            m
        }
    }
}

/// The longest bar label of any group, saturated at the widest cell count.
fn max_label_len(groups: &Vec<crate::chart::BarGroup>) -> (r: u16)
    ensures
        r as int == vstd::math::min(spec_max_label_len(groups@), 0xffff),
{
    let mut best: usize = 0;
    let mut g: usize = 0;
    while g < groups.len()
        invariant
            g <= groups@.len(),
            best as int == spec_max_label_len(groups@.take(g as int)),
        decreases groups@.len() - g,
    {
        proof {
            assert(groups@.take(g + 1).drop_last() =~= groups@.take(g as int));
            assert(groups@.take(g + 1).last() == groups@[g as int]);
        }
        let bars: &Vec<crate::chart::Bar> = &groups[g].bars;
        let mut b: usize = 0;
        let mut gbest: usize = 0;
        while b < bars.len()
            invariant
                bars@ == groups@[g as int].bars@,
                b <= bars@.len(),
                gbest as int == spec_group_label_max(bars@.take(b as int)),
            decreases bars@.len() - b,
        {
            proof {
                assert(bars@.take(b + 1).drop_last() =~= bars@.take(b as int));
                assert(bars@.take(b + 1).last() == bars@[b as int]);
            }
            match &bars[b].label {
                Some(label) => {
                    let len: usize = char_len(label);
                    if len > gbest {
                        gbest = len;
                    }
                },
                None => {},
            }
            b = b + 1;
        }
        proof {
            assert(bars@.take(bars@.len() as int) =~= bars@);
        }
        if gbest > best {
            best = gbest;
        }
        g = g + 1;
    }
    proof {
        assert(groups@.take(groups@.len() as int) =~= groups@);
    }
    if best >= 0xffff {
        0xffff
    } else {
        best as u16
    }
}

/// Everything a vertical chart draws: the reserved label rows, the packed
/// tick rows, the bar positions, the glyph grid, and the text placements of
/// values, bar labels and group labels.
pub struct VerticalRender {
    pub info: crate::chart::LabelInfo,
    pub ticks: Vec<Vec<u64>>,
    pub positions: Vec<Vec<u64>>,
    pub grid: GlyphGrid,
    pub values: Vec<Vec<TextWrite>>,
    pub bar_labels: Vec<Vec<TextWrite>>,
    pub group_labels: Vec<TextWrite>,
}

/// What a vertical render of a chart into a `width` by `height` pane holds.
pub open spec fn vertical_render_ok(
    r: VerticalRender,
    chart: crate::chart::BarChart,
    width: int,
    height: int,
) -> bool {
    let info = crate::chart::spec_label_info(chart.data@, height - 1);
    let bars_h = height - info.height;
    let m = crate::chart::spec_ref_max(&chart);
    let tv = views_of(r.ticks@);
    let bw = chart.bar_width as int;
    let bgap = chart.bar_gap as int;
    let ggap = chart.group_gap as int;
    &&& r.info == info
    &&& tv == crate::chart::spec_group_ticks(chart.data@, width, bw, bgap, ggap, bars_h, m)
    &&& r.positions@.len() == r.ticks@.len()
    &&& (forall|g: int|
        0 <= g < r.positions@.len() ==> (#[trigger] r.positions@[g])@.len() == r.ticks@[g]@.len())
    &&& (forall|g: int, b: int|
        0 <= g < r.positions@.len() && 0 <= b < r.positions@[g]@.len()
            ==> (#[trigger] r.positions@[g]@[b]) as int == cap_pos(
            bar_x_of(tv, bw, bgap, ggap, g, b),
        ))
    &&& r.grid.wf()
    &&& r.grid.spec_width() == width
    &&& r.grid.spec_height() == bars_h
    &&& (forall|x: int, y: int|
        0 <= x < width && 0 <= y < bars_h ==> #[trigger] r.grid.level_at(x, y) == level8(
            col_ticks(tv, bw, bgap, ggap, x),
            bars_h - 1 - y,
        ))
    &&& r.values@.len() == r.ticks@.len()
    &&& (forall|g: int|
        0 <= g < r.values@.len() ==> (#[trigger] r.values@[g])@.len() == r.ticks@[g]@.len())
    &&& (forall|g: int, b: int|
        0 <= g < r.values@.len() && 0 <= b < r.values@[g]@.len() ==> value_write_ok(
            #[trigger] r.values@[g]@[b],
            chart.data@[g].bars@[b],
            tv[g][b] as int,
            r.positions@[g]@[b] as int,
            bw,
            bars_h - 1,
        ))
    &&& r.bar_labels@.len() == r.ticks@.len()
    &&& (forall|g: int|
        0 <= g < r.bar_labels@.len() ==> (#[trigger] r.bar_labels@[g])@.len()
            == r.ticks@[g]@.len())
    &&& (forall|g: int, b: int|
        0 <= g < r.bar_labels@.len() && 0 <= b < r.bar_labels@[g]@.len() ==> bar_label_write_ok(
            #[trigger] r.bar_labels@[g]@[b],
            chart.data@[g].bars@[b],
            r.positions@[g]@[b] as int,
            bw,
            info.bar_label_visible,
            bars_h,
        ))
    &&& r.group_labels@.len() == r.ticks@.len()
    &&& (forall|g: int|
        0 <= g < r.group_labels@.len() ==> group_label_write_ok(
            #[trigger] r.group_labels@[g],
            chart.data@[g],
            r.ticks@[g]@.len() as int,
            (if r.ticks@[g]@.len() > 0 {
                r.positions@[g]@[0] as int
            } else {
                0x10000
            }),
            info.group_label_visible,
            height - 1,
        ))
}

/// Everything a horizontal chart draws: the label column width, the packed
/// tick rows, the bar positions along the vertical axis, the glyph grid of
/// the bars area, and the text placements.
pub struct HorizontalRender {
    pub label_width: u16,
    pub ticks: Vec<Vec<u64>>,
    pub positions: Vec<Vec<u64>>,
    pub grid: GlyphGrid,
    pub labels: Vec<Vec<TextWrite>>,
    pub values: Vec<Vec<TextWrite>>,
    pub group_labels: Vec<TextWrite>,
}

/// What a horizontal render of a chart into a `width` by `height` pane
/// holds: a label column on the left, then the bars area.
pub open spec fn horizontal_render_ok(
    r: HorizontalRender,
    chart: crate::chart::BarChart,
    width: int,
    height: int,
) -> bool {
    let lw = vstd::math::min(spec_max_label_len(chart.data@), 0xffff);
    let margin = if lw != 0 {
        1int
    } else {
        0int
    };
    let x0 = vstd::math::min(lw + margin, 0xffff);
    let bars_w = crate::chart::sat_sub(width, x0);
    let m = crate::chart::spec_ref_max(&chart);
    let tv = views_of(r.ticks@);
    let bw = chart.bar_width as int;
    let bgap = chart.bar_gap as int;
    let ggap = chart.group_gap as int;
    &&& r.label_width as int == lw
    &&& tv == crate::chart::spec_group_ticks(chart.data@, height, bw, bgap, ggap, bars_w, m)
    &&& r.positions@.len() == r.ticks@.len()
    &&& (forall|g: int|
        0 <= g < r.positions@.len() ==> (#[trigger] r.positions@[g])@.len() == r.ticks@[g]@.len())
    &&& (forall|g: int, b: int|
        0 <= g < r.positions@.len() && 0 <= b < r.positions@[g]@.len()
            ==> (#[trigger] r.positions@[g]@[b]) as int == cap_pos(
            bar_x_of(tv, bw, bgap, ggap, g, b),
        ))
    &&& r.grid.wf()
    &&& r.grid.spec_width() == bars_w
    &&& r.grid.spec_height() == height
    &&& (forall|x: int, y: int|
        0 <= x < bars_w && 0 <= y < height ==> #[trigger] r.grid.level_at(x, y) == (if x
            < col_ticks(tv, bw, bgap, ggap, y) / 8 {
            8int
        } else {
            0int
        }))
    &&& r.labels@.len() == r.ticks@.len()
    &&& r.values@.len() == r.ticks@.len()
    &&& (forall|g: int|
        0 <= g < r.ticks@.len() ==> (#[trigger] r.labels@[g])@.len() == r.ticks@[g]@.len()
            && r.values@[g]@.len() == r.ticks@[g]@.len())
    &&& (forall|g: int, b: int|
        0 <= g < r.ticks@.len() && 0 <= b < r.ticks@[g]@.len() ==> hside_write_ok(
            #[trigger] r.labels@[g]@[b],
            (if chart.data@[g].bars@[b].label is Some {
                chart.data@[g].bars@[b].label->0@
            } else {
                Seq::<char>::empty()
            }),
            chart.data@[g].bars@[b].label is Some && lw > 0,
            r.positions@[g]@[b] as int,
            bw,
            0,
            lw,
            r.positions@[g]@[b] + bw / 2,
        ))
    &&& (forall|g: int, b: int|
        0 <= g < r.ticks@.len() && 0 <= b < r.ticks@[g]@.len() ==> hside_write_ok(
            #[trigger] r.values@[g]@[b],
            value_text(chart.data@[g].bars@[b]),
            value_text(chart.data@[g].bars@[b]).len() > 0,
            r.positions@[g]@[b] as int,
            bw,
            x0,
            bars_w,
            r.positions@[g]@[b] + bw / 2,
        ))
    &&& r.group_labels@.len() == r.ticks@.len()
    &&& (forall|g: int|
        0 <= g < r.group_labels@.len() ==> hgroup_write_ok(
            #[trigger] r.group_labels@[g],
            chart.data@[g],
            r.ticks@[g]@.len() as int,
            (if r.ticks@[g]@.len() > 0 {
                r.positions@[g]@[0] as int
            } else {
                0x10000
            }),
            bw,
            bgap,
            ggap,
            x0,
            height,
        ))
}

/// One rendered chart, by direction.
pub enum ChartRender {
    Horizontal(HorizontalRender),
    Vertical(VerticalRender),
}

impl crate::chart::BarChart {
    /// Renders the chart as vertical bars into a `width` by `height` pane:
    /// reserves the label rows, packs and quantizes the bars, builds the
    /// glyph grid and places every text.
    pub fn render_vertical(&self, width: u16, height: u16) -> (r: VerticalRender)
        requires
            self.bar_width >= 1,
            height >= 1,
        ensures
            vertical_render_ok(r, *self, width as int, height as int),
    {
        let info = self.label_info(height - 1);
        let bars_h: u16 = height - info.height;
        let ticks: Vec<Vec<u64>> = self.group_ticks(width, bars_h);
        proof {
            crate::chart::lemma_group_ticks_shape(
                self.data@,
                width as int,
                self.bar_width as int,
                self.bar_gap as int,
                self.group_gap as int,
                bars_h as int,
                crate::chart::spec_ref_max(self),
            );
        }
        let positions: Vec<Vec<u64>> = bar_positions(
            &ticks,
            self.bar_width,
            self.bar_gap,
            self.group_gap,
        );
        proof {
            assert forall|g: int| 0 <= g < ticks@.len() implies (#[trigger] ticks@[g])@.len()
                <= self.data@[g].bars@.len() by {
                assert(views_of(ticks@)[g] == ticks@[g]@);
            }
        }
        let grid: GlyphGrid = render_vertical_bars(
            &ticks,
            self.bar_width,
            self.bar_gap,
            self.group_gap,
            width,
            bars_h,
        );
        let values: Vec<Vec<TextWrite>> = value_writes(
            &self.data,
            &ticks,
            &positions,
            self.bar_width,
            bars_h - 1,
        );
        let bar_labels: Vec<Vec<TextWrite>> = bar_label_writes(
            &self.data,
            &ticks,
            &positions,
            self.bar_width,
            info.bar_label_visible,
            bars_h,
        );
        let group_labels: Vec<TextWrite> = group_label_writes(
            &self.data,
            &ticks,
            &positions,
            info.group_label_visible,
            height - 1,
        );
        VerticalRender { info, ticks, positions, grid, values, bar_labels, group_labels }
    }

    /// Renders the chart as horizontal bars into a `width` by `height`
    /// pane: a label column on the left, then the packed bars with their
    /// value texts and group labels.
    pub fn render_horizontal(&self, width: u16, height: u16) -> (r: HorizontalRender)
        requires
            self.bar_width >= 1,
        ensures
            horizontal_render_ok(r, *self, width as int, height as int),
    {
        let label_width: u16 = max_label_len(&self.data);
        let margin: u16 = if label_width != 0 {
            1
        } else {
            0
        };
        let x0: u16 = if label_width >= 0xffff {
            0xffff
        } else {
            label_width + margin
        };
        let bars_w: u16 = if width > x0 {
            width - x0
        } else {
            0
        };
        let ticks: Vec<Vec<u64>> = self.group_ticks(height, bars_w);
        proof {
            crate::chart::lemma_group_ticks_shape(
                self.data@,
                height as int,
                self.bar_width as int,
                self.bar_gap as int,
                self.group_gap as int,
                bars_w as int,
                crate::chart::spec_ref_max(self),
            );
        }
        let positions: Vec<Vec<u64>> = bar_positions(
            &ticks,
            self.bar_width,
            self.bar_gap,
            self.group_gap,
        );
        proof {
            assert forall|g: int| 0 <= g < ticks@.len() implies (#[trigger] ticks@[g])@.len()
                <= self.data@[g].bars@.len() by {
                assert(views_of(ticks@)[g] == ticks@[g]@);
            }
        }
        let grid: GlyphGrid = render_horizontal_bars(
            &ticks,
            self.bar_width,
            self.bar_gap,
            self.group_gap,
            bars_w,
            height,
        );
        let pair = hside_writes(
            &self.data,
            &ticks,
            &positions,
            self.bar_width,
            label_width,
            x0,
            bars_w,
        );
        let labels: Vec<Vec<TextWrite>> = pair.0;
        let values: Vec<Vec<TextWrite>> = pair.1;
        let group_labels: Vec<TextWrite> = hgroup_label_writes(
            &self.data,
            &ticks,
            &positions,
            self.bar_width,
            self.bar_gap,
            self.group_gap,
            x0,
            height,
        );
        HorizontalRender { label_width, ticks, positions, grid, labels, values, group_labels }
    }

    /// Renders the chart in its configured direction. A pane with no room,
    /// a chart with no data, or a zero bar width yields no output.
    pub fn render(&self, width: u16, height: u16) -> (out: Option<ChartRender>)
        ensures
            out is None <==> (width == 0 || height == 0 || self.data@.len() == 0 || self.bar_width
                == 0),
            out is Some && self.direction == crate::chart::Direction::Vertical ==> (out->0 matches
            ChartRender::Vertical(v) && vertical_render_ok(v, *self, width as int, height as int)),
            out is Some && self.direction == crate::chart::Direction::Horizontal ==> (out->0 matches
            ChartRender::Horizontal(h) && horizontal_render_ok(
                h,
                *self,
                width as int,
                height as int,
            )),
    {
        if width == 0 || height == 0 || self.data.len() == 0 || self.bar_width == 0 {
            return None;
        }
        match self.direction {
            crate::chart::Direction::Horizontal => Some(
                ChartRender::Horizontal(self.render_horizontal(width, height)),
            ),
            crate::chart::Direction::Vertical => Some(
                ChartRender::Vertical(self.render_vertical(width, height)),
            ),
        }
    }
}

} // verus!
