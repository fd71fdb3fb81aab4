//! The bar chart model: bars, groups of bars, chart configuration, the
//! reference maximum, eighth-of-cell tick quantization, and the packing scan
//! that decides how many bars of each group fit into the available space.

use vstd::prelude::*;

verus! {

/// Direction along which the bars of a chart grow.
#[derive(Clone, Copy, Debug, PartialEq, Eq, Structural)]
pub enum Direction {
    Horizontal,
    Vertical,
}

/// A single bar: a non-negative value with optional label and value text.
#[derive(Clone, Debug)]
pub struct Bar {
    pub value: u64,
    pub label: Option<String>,
    pub text_value: Option<String>,
}

impl Default for Bar {
    /// A bar of value zero with no label and no value text.
    fn default() -> (b: Bar)
        ensures
            b.value == 0,
            b.label is None,
            b.text_value is None,
    {
        Bar { value: 0, label: None, text_value: None }
    }
}

impl Bar {
    /// Sets the bar's value.
    pub fn value(self, value: u64) -> (b: Bar)
        ensures
            b.value == value,
            b.label == self.label,
            b.text_value == self.text_value,
    {
        Bar { value, ..self }
    }

    /// Sets the label shown under the bar.
    pub fn label(self, label: String) -> (b: Bar)
        ensures
            b.value == self.value,
            b.label == Some(label),
            b.text_value == self.text_value,
    {
        Bar { label: Some(label), ..self }
    }

    /// Sets the text shown in place of the numeric value.
    pub fn text_value(self, text_value: String) -> (b: Bar)
        ensures
            b.value == self.value,
            b.label == self.label,
            b.text_value == Some(text_value),
    {
        Bar { text_value: Some(text_value), ..self }
    }
}

/// An ordered cluster of bars sharing one group-level label.
#[derive(Clone, Debug)]
pub struct BarGroup {
    pub label: Option<String>,
    pub bars: Vec<Bar>,
}

impl Default for BarGroup {
    /// A group with no label and no bars.
    fn default() -> (g: BarGroup)
        ensures
            g.label is None,
            g.bars@.len() == 0,
    {
        BarGroup { label: None, bars: Vec::new() }
    }
}

impl BarGroup {
    /// Sets the bars of the group.
    pub fn bars(self, bars: Vec<Bar>) -> (g: BarGroup)
        ensures
            g.label == self.label,
            g.bars == bars,
    {
        BarGroup { bars, ..self }
    }

    /// Sets the group-level label.
    pub fn label(self, label: String) -> (g: BarGroup)
        ensures
            g.label == Some(label),
            g.bars == self.bars,
    {
        BarGroup { label: Some(label), ..self }
    }
}

/// Which label rows a vertical chart reserves under the bars.
#[derive(Clone, Copy, Debug, PartialEq, Eq, Structural)]
pub struct LabelInfo {
    pub group_label_visible: bool,
    pub bar_label_visible: bool,
    pub height: u16,
}

/// The label rows that fit: none in zero height; only bar labels in a
/// single row when any bar is labelled; otherwise one row per label kind
/// that occurs.
pub open spec fn spec_label_info(groups: Seq<BarGroup>, available_height: int) -> LabelInfo {
    if available_height == 0 {
        LabelInfo { group_label_visible: false, bar_label_visible: false, height: 0u16 }
    } else if available_height == 1 && spec_any_bar_label(groups) {
        LabelInfo { group_label_visible: false, bar_label_visible: true, height: 1u16 }
    } else {
        LabelInfo {
            group_label_visible: spec_any_group_label(groups),
            bar_label_visible: spec_any_bar_label(groups),
            height: ((if spec_any_group_label(groups) {
                1int
            } else {
                0int
            }) + (if spec_any_bar_label(groups) {
                1int
            } else {
                0int
            })) as u16,
        }
    }
}

/// The largest bar value of a group, or 0 for an empty group.
pub open spec fn spec_group_max(bars: Seq<Bar>) -> int
    decreases bars.len(),
{
    if bars.len() == 0 {
        0
    } else {
        let m = spec_group_max(bars.drop_last());
        if bars.last().value > m {
            bars.last().value as int
        } else {
            m
        }
    }
}

/// The largest bar value across all groups, or 0 without any bar.
pub open spec fn spec_data_max(groups: Seq<BarGroup>) -> int
    decreases groups.len(),
{
    if groups.len() == 0 {
        0
    } else {
        let m = spec_data_max(groups.drop_last());
        let g = spec_group_max(groups.last().bars@);
        if g > m {
            g
        } else {
            m
        }
    }
}

/// Whether any bar of any group carries a label.
pub open spec fn spec_any_bar_label(groups: Seq<BarGroup>) -> bool {
    exists|i: int, j: int|
        0 <= i < groups.len() && 0 <= j < groups[i].bars@.len() && (#[trigger] groups[i].bars@[j].label)
            is Some
}

/// Whether any group carries a group-level label.
pub open spec fn spec_any_group_label(groups: Seq<BarGroup>) -> bool {
    exists|i: int| 0 <= i < groups.len() && (#[trigger] groups[i].label) is Some
}

/// A bar's drawable length in ticks (one cell renders 8 ticks):
/// `value * cells * 8 / reference_max`, saturated at the available range.
pub open spec fn spec_ticks(value: int, cells: int, m: int) -> int
    recommends
        m >= 1,
{
    let q = value * cells * 8 / m;
    if q > cells * 8 {
        cells * 8
    } else {
        q
    }
}

/// Subtraction that stops at zero.
pub open spec fn sat_sub(a: int, b: int) -> int {
    if a >= b {
        a - b
    } else {
        0
    }
}

/// The cells a group occupies along the packing axis: each bar is
/// `bar_width` wide and all but the last are followed by a `bar_gap`.
pub open spec fn spec_group_width(nb: int, bw: int, bgap: int) -> int {
    if nb == 0 {
        0
    } else {
        nb * bw + (nb - 1) * bgap
    }
}

/// The quantized ticks of the first `count` bars of a group.
pub open spec fn spec_ticks_row(bars: Seq<Bar>, count: int, cells: int, m: int) -> Seq<u64>
    recommends
        0 <= count <= bars.len(),
        m >= 1,
{
    Seq::new(count as nat, |i: int| spec_ticks(bars[i].value as int, cells, m) as u64)
}

/// The packing scan: groups are placed in order while space remains. A group
/// that fits whole consumes its width plus the trailing group and bar gaps;
/// the first group that does not fit whole is truncated to the bars that do
/// fit and ends the scan; a group for which not even one bar fits is dropped
/// and ends the scan.
pub open spec fn spec_group_ticks(
    groups: Seq<BarGroup>,
    space: int,
    bw: int,
    bgap: int,
    ggap: int,
    cells: int,
    m: int,
) -> Seq<Seq<u64>>
    recommends
        bw >= 1,
        m >= 1,
    decreases groups.len(),
{
    if groups.len() == 0 || space <= 0 {
        Seq::empty()
    } else {
        let bars = groups[0].bars@;
        let nb = bars.len() as int;
        let gw = spec_group_width(nb, bw, bgap);
        if space > gw {
            seq![spec_ticks_row(bars, nb, cells, m)] + spec_group_ticks(
                groups.drop_first(),
                sat_sub(space, gw + ggap + bgap),
                bw,
                bgap,
                ggap,
                cells,
                m,
            )
        } else {
            let mb = (space + bgap) / (bw + bgap);
            if mb > 0 {
                seq![spec_ticks_row(bars, vstd::math::min(mb, nb), cells, m)]
            } else {
                Seq::empty()
            }
        }
    }
}

/// The packing scan keeps the group order: row `g` of the result belongs
/// to group `g`, and never holds more ticks than the group has bars.
pub proof fn lemma_group_ticks_shape(
    groups: Seq<BarGroup>,
    space: int,
    bw: int,
    bgap: int,
    ggap: int,
    cells: int,
    m: int,
)
    requires
        bw >= 1,
    ensures
        spec_group_ticks(groups, space, bw, bgap, ggap, cells, m).len() <= groups.len(),
        forall|g: int|
            0 <= g < spec_group_ticks(groups, space, bw, bgap, ggap, cells, m).len()
                ==> (#[trigger] spec_group_ticks(groups, space, bw, bgap, ggap, cells, m)[g]).len()
                <= groups[g].bars@.len(),
    decreases groups.len(),
{
    if groups.len() > 0 && space > 0 {
        let bars = groups[0].bars@;
        let nb = bars.len() as int;
        let gw = spec_group_width(nb, bw, bgap);
        if space > gw {
            lemma_group_ticks_shape(
                groups.drop_first(),
                sat_sub(space, gw + ggap + bgap),
                bw,
                bgap,
                ggap,
                cells,
                m,
            );
        }
    }
}

/// The window views of a sequence of tick rows.
pub open spec fn views_of(rows: Seq<Vec<u64>>) -> Seq<Seq<u64>> {
    rows.map(|i: int, row: Vec<u64>| row@)
}

/// A chart configuration: ordered groups of bars, sizing, an optional
/// explicit reference maximum, and the direction of growth.
#[derive(Clone, Debug)]
pub struct BarChart {
    pub bar_width: u16,
    pub bar_gap: u16,
    pub group_gap: u16,
    pub max: Option<u64>,
    pub direction: Direction,
    pub data: Vec<BarGroup>,
}

/// The value mapped to a bar's full available length: the explicit maximum
/// if given, otherwise the greatest bar value, floored at 1.
pub open spec fn spec_ref_max(c: &BarChart) -> int {
    let m = if c.max is Some {
        c.max->0 as int
    } else {
        spec_data_max(c.data@)
    };
    if m >= 1 {
        m
    } else {
        1
    }
}

impl Default for BarChart {
    /// An empty chart: bar width 1, bar gap 1, no group gap, no explicit
    /// maximum, vertical bars.
    fn default() -> (c: BarChart)
        ensures
            c.bar_width == 1,
            c.bar_gap == 1,
            c.group_gap == 0,
            c.max is None,
            c.direction == Direction::Vertical,
            c.data@.len() == 0,
    {
        BarChart {
            bar_width: 1,
            bar_gap: 1,
            group_gap: 0,
            max: None,
            direction: Direction::Vertical,
            data: Vec::new(),
        }
    }
}

impl BarChart {
    /// Adds a group of bars; a group with no bars is never materialized.
    pub fn data(self, group: BarGroup) -> (c: BarChart)
        ensures
            group.bars@.len() == 0 ==> c.data@ == self.data@,
            group.bars@.len() > 0 ==> c.data@ == self.data@.push(group),
            c.bar_width == self.bar_width,
            c.bar_gap == self.bar_gap,
            c.group_gap == self.group_gap,
            c.max == self.max,
            c.direction == self.direction,
    {
        let mut c = self;
        if group.bars.len() != 0 {
            c.data.push(group);
        }
        c
    }

    /// Sets the value necessary for a bar to reach the maximum length.
    pub fn max(self, max: u64) -> (c: BarChart)
        ensures
            c == (BarChart { max: Some(max), ..self }),
    {
        BarChart { max: Some(max), ..self }
    }

    /// Sets the width of each bar.
    pub fn bar_width(self, width: u16) -> (c: BarChart)
        ensures
            c == (BarChart { bar_width: width, ..self }),
    {
        BarChart { bar_width: width, ..self }
    }

    /// Sets the gap between bars of one group.
    pub fn bar_gap(self, gap: u16) -> (c: BarChart)
        ensures
            c == (BarChart { bar_gap: gap, ..self }),
    {
        BarChart { bar_gap: gap, ..self }
    }

    /// Sets the gap between groups.
    pub fn group_gap(self, gap: u16) -> (c: BarChart)
        ensures
            c == (BarChart { group_gap: gap, ..self }),
    {
        BarChart { group_gap: gap, ..self }
    }

    /// Sets the direction of the bars.
    pub fn direction(self, direction: Direction) -> (c: BarChart)
        ensures
            c == (BarChart { direction, ..self }),
    {
        BarChart { direction, ..self }
    }

    /// The reference maximum: the explicit maximum if set, otherwise the
    /// greatest bar value in the data, floored at 1.
    pub fn maximum_data_value(&self) -> (m: u64)
        ensures
            m as int == spec_ref_max(self),
            m >= 1,
    {
        let base: u64 = match self.max {
            Some(m) => m,
            None => {
                let mut best: u64 = 0;
                let mut i: usize = 0;
                while i < self.data.len()
                    invariant
                        i <= self.data@.len(),
                        best as int == spec_data_max(self.data@.take(i as int)),
                    decreases self.data@.len() - i,
                {
                    let g: u64 = Self::group_max(&self.data[i].bars);
                    proof {
                        assert(self.data@.take(i + 1).drop_last() =~= self.data@.take(i as int));
                        assert(self.data@.take(i + 1).last() == self.data@[i as int]);
                    }
                    if g > best {
                        best = g;
                    }
                    i = i + 1;
                }
                proof {
                    assert(self.data@.take(self.data@.len() as int) =~= self.data@);
                }
                best
            },
        };
        if base >= 1 {
            base
        } else {
            1
        }
    }

    /// The largest bar value of one group, or 0 for an empty group.
    fn group_max(bars: &Vec<Bar>) -> (m: u64)
        ensures
            m as int == spec_group_max(bars@),
    {
        let mut best: u64 = 0;
        let mut i: usize = 0;
        while i < bars.len()
            invariant
                i <= bars@.len(),
                best as int == spec_group_max(bars@.take(i as int)),
            decreases bars@.len() - i,
        {
            proof {
                assert(bars@.take(i + 1).drop_last() =~= bars@.take(i as int));
                assert(bars@.take(i + 1).last() == bars@[i as int]);
            }
            if bars[i].value > best {
                best = bars[i].value;
            }
            i = i + 1;
        }
        proof {
            assert(bars@.take(bars@.len() as int) =~= bars@);
        }
        best
    }

    /// Which label rows fit under the bars: none in zero height; only bar
    /// labels in a single row when any bar is labelled; otherwise one row
    /// per label kind that occurs.
    pub fn label_info(&self, available_height: u16) -> (li: LabelInfo)
        ensures
            li == spec_label_info(self.data@, available_height as int),
            li.height <= 2,
            li.height <= available_height,
    {
        if available_height == 0 {
            return LabelInfo { group_label_visible: false, bar_label_visible: false, height: 0 };
        }
        let bar_label_visible: bool = self.any_bar_label();
        if available_height == 1 && bar_label_visible {
            return LabelInfo { group_label_visible: false, bar_label_visible: true, height: 1 };
        }
        let group_label_visible: bool = self.any_group_label();
        let height: u16 = (if group_label_visible {
            1
        } else {
            0
        }) + (if bar_label_visible {
            1
        } else {
            0
        });
        LabelInfo { group_label_visible, bar_label_visible, height }
    }

    /// Whether any bar of any group carries a label.
    fn any_bar_label(&self) -> (r: bool)
        ensures
            r == spec_any_bar_label(self.data@),
    {
        let mut i: usize = 0;
        while i < self.data.len()
            invariant
                i <= self.data@.len(),
                forall|a: int, b: int|
                    0 <= a < i && 0 <= b < self.data@[a].bars@.len() ==> !((
                    #[trigger] self.data@[a].bars@[b].label) is Some),
            decreases self.data@.len() - i,
        {
            let bars: &Vec<Bar> = &self.data[i].bars;
            let mut j: usize = 0;
            while j < bars.len()
                invariant
                    i < self.data@.len(),
                    bars@ == self.data@[i as int].bars@,
                    j <= bars@.len(),
                    forall|a: int, b: int|
                        0 <= a < i && 0 <= b < self.data@[a].bars@.len() ==> !((
                        #[trigger] self.data@[a].bars@[b].label) is Some),
                    forall|b: int| 0 <= b < j ==> !((#[trigger] bars@[b].label) is Some),
                decreases bars@.len() - j,
            {
                if bars[j].label.is_some() {
                    return true;
                }
                j = j + 1;
            }
            i = i + 1;
        }
        false
    }

    /// Whether any group carries a group-level label.
    fn any_group_label(&self) -> (r: bool)
        ensures
            r == spec_any_group_label(self.data@),
    {
        let mut i: usize = 0;
        while i < self.data.len()
            invariant
                i <= self.data@.len(),
                forall|a: int| 0 <= a < i ==> !((#[trigger] self.data@[a].label) is Some),
            decreases self.data@.len() - i,
        {
            if self.data[i].label.is_some() {
                return true;
            }
            i = i + 1;
        }
        false
    }
}

impl BarChart {
    /// The visible bars' lengths in ticks, one row per group that still
    /// fits: the packing scan of `spec_group_ticks` with every visible bar
    /// quantized against the reference maximum over `bar_max_length` cells.
    pub fn group_ticks(&self, available_space: u16, bar_max_length: u16) -> (r: Vec<Vec<u64>>)
        requires
            self.bar_width >= 1,
        ensures
            views_of(r@) == spec_group_ticks(
                self.data@,
                available_space as int,
                self.bar_width as int,
                self.bar_gap as int,
                self.group_gap as int,
                bar_max_length as int,
                spec_ref_max(self),
            ),
    {
        let m: u64 = self.maximum_data_value();
        let ghost goal = spec_group_ticks(
            self.data@,
            available_space as int,
            self.bar_width as int,
            self.bar_gap as int,
            self.group_gap as int,
            bar_max_length as int,
            spec_ref_max(self),
        );
        let mut out: Vec<Vec<u64>> = Vec::new();
        let mut space: u16 = available_space;
        let mut gi: usize = 0;
        proof {
            assert(self.data@.skip(0) =~= self.data@);
            assert(views_of(out@) =~= Seq::<Seq<u64>>::empty());
            assert(Seq::<Seq<u64>>::empty() + goal =~= goal);
        }
        while gi < self.data.len() && space > 0
            invariant
                self.bar_width >= 1,
                m >= 1,
                m as int == spec_ref_max(self),
                gi <= self.data@.len(),
                goal == views_of(out@) + spec_group_ticks(
                    self.data@.skip(gi as int),
                    space as int,
                    self.bar_width as int,
                    self.bar_gap as int,
                    self.group_gap as int,
                    bar_max_length as int,
                    m as int,
                ),
            decreases self.data@.len() - gi,
        {
            let ghost rest = self.data@.skip(gi as int);
            let bars: &Vec<Bar> = &self.data[gi].bars;
            let nb: usize = bars.len();
            proof {
                assert(rest[0] == self.data@[gi as int]);
                assert(rest.drop_first() =~= self.data@.skip(gi as int + 1));
                assert((nb as int) * (self.bar_width as int) <= usize::MAX as int * 0xffff)
                    by (nonlinear_arith)
                    requires
                        0 <= nb as int <= usize::MAX as int,
                        0 <= self.bar_width as int <= 0xffff,
                ;
                assert((nb as int) * (self.bar_gap as int) <= usize::MAX as int * 0xffff)
                    by (nonlinear_arith)
                    requires
                        0 <= nb as int <= usize::MAX as int,
                        0 <= self.bar_gap as int <= 0xffff,
                ;
                assert(nb > 0 ==> (nb as int - 1) * (self.bar_gap as int) <= (nb as int) * (
                self.bar_gap as int)) by (nonlinear_arith)
                    requires
                        0 <= self.bar_gap as int,
                ;
                assert(nb > 0 ==> (nb as int - 1) * (self.bar_gap as int) >= 0)
                    by (nonlinear_arith)
                    requires
                        0 <= self.bar_gap as int,
                ;
                assert((nb as int) * (self.bar_width as int) >= 0) by (nonlinear_arith)
                    requires
                        0 <= nb as int,
                        0 <= self.bar_width as int,
                ;
            }
            let gw: u128 = if nb == 0 {
                0
            } else {
                (nb as u128) * (self.bar_width as u128) + ((nb - 1) as u128) * (
                self.bar_gap as u128)
            };
            proof {
                assert(gw as int == spec_group_width(
                    nb as int,
                    self.bar_width as int,
                    self.bar_gap as int,
                ));
            }
            if (space as u128) > gw {
                let row: Vec<u64> = Self::ticks_row(bars, nb, bar_max_length, m);
                let need: u128 = gw + (self.group_gap as u128) + (self.bar_gap as u128);
                let new_space: u16 = if (space as u128) > need {
                    ((space as u128) - need) as u16
                } else {
                    0
                };
                proof {
                    assert(new_space as int == sat_sub(
                        space as int,
                        gw as int + self.group_gap as int + self.bar_gap as int,
                    ));
                    assert(views_of(out@.push(row)) =~= views_of(out@).push(row@));
                    assert(views_of(out@) + (seq![row@] + spec_group_ticks(
                        self.data@.skip(gi as int + 1),
                        new_space as int,
                        self.bar_width as int,
                        self.bar_gap as int,
                        self.group_gap as int,
                        bar_max_length as int,
                        m as int,
                    )) =~= views_of(out@).push(row@) + spec_group_ticks(
                        self.data@.skip(gi as int + 1),
                        new_space as int,
                        self.bar_width as int,
                        self.bar_gap as int,
                        self.group_gap as int,
                        bar_max_length as int,
                        m as int,
                    ));
                }
                out.push(row);
                space = new_space;
            } else {
                let mb: u32 = ((space as u32) + (self.bar_gap as u32)) / ((self.bar_width as u32)
                    + (self.bar_gap as u32));
                if mb > 0 {
                    let count: usize = if (mb as usize) < nb {
                        mb as usize
                    } else {
                        nb
                    };
                    let row: Vec<u64> = Self::ticks_row(bars, count, bar_max_length, m);
                    proof {
                        assert(views_of(out@.push(row)) =~= views_of(out@).push(row@));
                        assert(views_of(out@) + seq![row@] =~= views_of(out@).push(row@));
                    }
                    out.push(row);
                }
                space = 0;
            }
            gi = gi + 1;
        }
        proof {
            if gi >= self.data@.len() {
                assert(self.data@.skip(gi as int) =~= Seq::<BarGroup>::empty());
            }
            assert(views_of(out@) + Seq::<Seq<u64>>::empty() =~= views_of(out@));
        }
        out
    }

    /// The quantized tick lengths of the first `count` bars of one group.
    fn ticks_row(bars: &Vec<Bar>, count: usize, cells: u16, m: u64) -> (row: Vec<u64>)
        requires
            m >= 1,
            count <= bars@.len(),
        ensures
            row@ == spec_ticks_row(bars@, count as int, cells as int, m as int),
    {
        let mut row: Vec<u64> = Vec::new();
        let mut i: usize = 0;
        while i < count
            invariant
                m >= 1,
                count <= bars@.len(),
                i <= count,
                row@.len() == i,
                forall|t: int|
                    0 <= t < i ==> row@[t] == spec_ticks(
                        bars@[t].value as int,
                        cells as int,
                        m as int,
                    ) as u64,
            decreases count - i,
        {
            row.push(bar_ticks(bars[i].value, cells, m));
            i = i + 1;
        }
        proof {
            assert(row@ =~= spec_ticks_row(bars@, count as int, cells as int, m as int));
        }
        row
    }
}

/// One bar's drawable length in ticks, saturated at the available range.
pub fn bar_ticks(value: u64, available_cells: u16, ref_max: u64) -> (t: u64)
    requires
        ref_max >= 1,
    ensures
        t as int == spec_ticks(value as int, available_cells as int, ref_max as int),
{
    let cap: u64 = (available_cells as u64) * 8;
    proof {
        assert((value as int) * (available_cells as int) <= 0xffff_ffff_ffff_ffff * 0xffff)
            by (nonlinear_arith)
            requires
                0 <= value as int <= 0xffff_ffff_ffff_ffff,
                0 <= available_cells as int <= 0xffff,
        ;
        assert((value as int) * (available_cells as int) >= 0) by (nonlinear_arith)
            requires
                0 <= value as int,
                0 <= available_cells as int,
        ;
    }
    let q: u128 = (value as u128) * (available_cells as u128) * 8 / (ref_max as u128);
    if q > cap as u128 {
        cap
    } else {
        q as u64
    }
}

/// Quantized ticks lie between 0 and `available_cells * 8`, and reach
/// `available_cells * 8` exactly when the value reaches the reference
/// maximum.
pub proof fn lemma_ticks_range(value: int, cells: int, m: int)
    requires
        value >= 0,
        cells >= 1,
        m >= 1,
    ensures
        0 <= spec_ticks(value, cells, m) <= cells * 8,
        spec_ticks(value, cells, m) == cells * 8 <==> value >= m,
{
    assert(value * cells * 8 >= 0) by (nonlinear_arith)
        requires
            value >= 0,
            cells >= 1,
    ;
    vstd::arithmetic::div_mod::lemma_div_pos_is_pos(value * cells * 8, m);
    if value >= m {
        assert(value * cells * 8 >= m * (cells * 8)) by (nonlinear_arith)
            requires
                value >= m,
                cells >= 1,
        ;
        vstd::arithmetic::div_mod::lemma_div_is_ordered(m * (cells * 8), value * cells * 8, m);
        vstd::arithmetic::div_mod::lemma_div_multiples_vanish(cells * 8, m);
        assert(value * cells * 8 / m >= cells * 8);
    } else {
        assert(value * cells * 8 < m * (cells * 8)) by (nonlinear_arith)
            requires
                value < m,
                cells >= 1,
                value >= 0,
        ;
        vstd::arithmetic::div_mod::lemma_multiply_divide_lt(value * cells * 8, m, cells * 8);
        assert(value * cells * 8 / m < cells * 8);
    }
}

} // verus!
