//! The dashboard orchestrator: it owns the series pool, routes each input
//! line to it in the configured ingestion mode, and, per redraw, turns a
//! snapshot of the pool into one pane description per series — the grid
//! cell, the chart, the time markers and the statistics line are all
//! derived here; the application only performs the terminal writes.

use crate::chart::Bar;
use crate::chart::BarChart;
use crate::chart::BarGroup;
use crate::chart::Direction;
use crate::grid::grid_layout;
use crate::grid::GridCell;
use crate::grid::Layout;
use crate::markers::generate_time_markers;
use crate::markers::marker_count;
use crate::markers::marker_label;
use crate::markers::marker_spacing;
use crate::markers::TimeMarker;
use crate::parse::copy_range;
use crate::router::SeriesPool;
use crate::series::seq_max;
use crate::series::seq_min;
use crate::series::seq_sum;
use crate::series::Series;
use crate::text::spec_digits;
use crate::text::u64_to_string;
use vstd::prelude::*;

verus! {

/// The already-parsed, immutable configuration the core consumes.
pub struct DashConfig {
    pub capacity: usize,
    pub update_frequency: u64,
    pub group: bool,
    pub layout: Layout,
    pub titles: Option<Vec<String>>,
    pub units: Vec<Vec<u8>>,
    pub indices: Option<Vec<usize>>,
}

/// The statistics of one pane's series over its current window.
pub struct PaneStats {
    pub len: usize,
    pub sum: i128,
    pub min: Option<i64>,
    pub max: Option<i64>,
    pub unit: Vec<u8>,
}

/// Everything one pane draws besides the glyphs: its title, its chart, its
/// time markers and its statistics line.
pub struct PaneView {
    pub title: String,
    pub chart: BarChart,
    pub markers: Vec<TimeMarker>,
    pub stats: PaneStats,
}

/// A sample in milli-units as a bar value: whole units, negatives clamped
/// to zero.
pub open spec fn sample_to_bar(v: int) -> int {
    if v < 0 {
        0
    } else {
        v / 1000
    }
}

/// The dashboard: the configuration and the series pool it routes into.
pub struct Dash {
    config: DashConfig,
    pool: SeriesPool,
}

impl Dash {
    /// The pool behind the dashboard.
    pub closed spec fn spec_pool(&self) -> SeriesPool {
        self.pool
    }

    /// The configuration the dashboard was created with.
    pub closed spec fn spec_config(&self) -> DashConfig {
        self.config
    }

    /// Well-formedness of the pool.
    pub open spec fn wf(&self) -> bool {
        self.spec_pool().wf()
    }

    /// A dashboard over a fresh pool of one empty series.
    pub fn new(config: DashConfig) -> (d: Dash)
        ensures
            d.wf(),
            d.spec_config() == config,
            d.spec_pool().slots().len() == 1,
            d.spec_pool().spec_capacity() == config.capacity,
            d.spec_pool().slots()[0].pushed() == Seq::<i64>::empty(),
    {
        let pool = SeriesPool::new(config.capacity);
        Dash { config, pool }
    }

    /// The configuration.
    pub fn config(&self) -> (c: &DashConfig)
        ensures
            *c == self.spec_config(),
    {
        &self.config
    }

    /// The number of panes: one per series.
    pub fn pane_count(&self) -> (n: usize)
        ensures
            n == self.spec_pool().slots().len(),
    {
        self.pool.len()
    }

    /// Read-only access to one series of the pool.
    pub fn series(&self, i: usize) -> (s: &Series)
        requires
            i < self.spec_pool().slots().len(),
        ensures
            *s == self.spec_pool().slots()[i as int],
    {
        self.pool.get(i)
    }

    /// Routes one input line into the pool in the configured mode: unit-tag
    /// matching when unit labels are configured, otherwise column selection
    /// when indices are configured, otherwise plain positional routing.
    pub fn ingest_line(&mut self, line: &Vec<u8>)
        requires
            old(self).wf(),
        ensures
            final(self).wf(),
            final(self).spec_config() == old(self).spec_config(),
            final(self).spec_pool().spec_capacity() == old(self).spec_pool().spec_capacity(),
            old(self).spec_config().units@.len() > 0 ==> pool_after_units(
                old(self).spec_pool(),
                final(self).spec_pool(),
                line@,
                old(self).spec_config().units@,
            ),
            old(self).spec_config().units@.len() == 0 && old(self).spec_config().indices is Some
                ==> pool_after_selected(
                old(self).spec_pool(),
                final(self).spec_pool(),
                crate::router::spec_selected(
                    crate::parse::spec_line_values(crate::parse::spec_tokens_from(line@, 0)),
                    old(self).spec_config().indices->0@,
                ),
            ),
            old(self).spec_config().units@.len() == 0 && old(self).spec_config().indices is None
                ==> pool_after_selected(
                old(self).spec_pool(),
                final(self).spec_pool(),
                crate::parse::spec_line_values(crate::parse::spec_tokens_from(line@, 0)),
            ),
    {
        if self.config.units.len() > 0 {
            self.pool.ingest_units(line, &self.config.units);
        } else {
            match &self.config.indices {
                Some(indices) => {
                    self.pool.ingest_indexed(line, indices);
                },
                None => {
                    self.pool.ingest_positional(line);
                },
            }
        }
    }

    /// The grid cells of the current panes, one per series, in the
    /// configured layout mode.
    pub fn panes(&self, area: GridCell) -> (r: Vec<GridCell>)
        requires
            area.x + area.width <= 0xffff,
            area.y + area.height <= 0xffff,
            self.spec_pool().slots().len() < usize::MAX,
        ensures
            r@.len() == self.spec_pool().slots().len(),
            crate::grid::grid_layout_ok(
                r@,
                self.spec_pool().slots().len() as int,
                self.spec_config().layout,
                area,
            ),
    {
        grid_layout(self.pool.len(), self.config.layout, area)
    }

    /// The pane description of series `i` for a cell of the given width:
    /// its title, a vertical chart of the most recent samples that fit —
    /// one single-width bar each, no gaps — its time markers, and its
    /// statistics.
    pub fn chart_for_pane(&self, i: usize, cell_width: u16) -> (v: PaneView)
        requires
            self.wf(),
            i < self.spec_pool().slots().len(),
        ensures
            pane_title_ok(v.title@, self.spec_config(), i as int),
            pane_chart_ok(v.chart, self.spec_pool().slots()[i as int]@, cell_width as int),
            pane_markers_ok(v.markers@, cell_width as int),
            pane_stats_ok(v.stats, self.spec_pool().slots()[i as int]),
    {
        let nslots: usize = self.pool.len();
        let series: &Series = self.pool.get(i);
        let title: String = self.pane_title(i);
        let width: u16 = if cell_width == 0 {
            0
        } else {
            cell_width - 1
        };
        let samples: &Vec<i64> = series.samples();
        let n: usize = samples.len();
        let start: usize = if n > width as usize {
            n - width as usize
        } else {
            0
        };
        let mut bars: Vec<Bar> = Vec::new();
        let mut k: usize = start;
        while k < n
            invariant
                n == samples@.len(),
                start <= k <= n,
                bars@.len() == k - start,
                forall|t: int|
                    0 <= t < bars@.len() ==> bar_of_sample(
                        #[trigger] bars@[t],
                        samples@[start + t] as int,
                    ),
            decreases n - k,
        {
            let v: i64 = samples[k];
            let value: u64 = if v < 0 {
                0
            } else {
                (v / 1000) as u64
            };
            let text: String = String::new();
            bars.push(Bar { value, label: None, text_value: Some(text) });
            k = k + 1;
        }
        let group = BarGroup { label: None, bars };
        let chart = BarChart {
            bar_width: 1,
            bar_gap: 0,
            group_gap: 0,
            max: None,
            direction: Direction::Vertical,
            data: Vec::new(),
        };
        let chart = chart.data(group);
        let markers: Vec<TimeMarker> = generate_time_markers(width, 1);
        let stats = PaneStats {
            len: series.len(),
            sum: series.sum(),
            min: series.min(),
            max: series.max(),
            unit: copy_range(series.unit(), 0, series.unit().len()),
        };
        proof {
            assert(self.spec_pool().slots()[i as int].spec_unit().subrange(
                0,
                self.spec_pool().slots()[i as int].spec_unit().len() as int,
            ) =~= self.spec_pool().slots()[i as int].spec_unit());
        }
        PaneView { title, chart, markers, stats }
    }

    /// The title of pane `i`: the configured title when one exists, else
    /// `Chart` and the 1-based pane number.
    fn pane_title(&self, i: usize) -> (t: String)
        requires
            i < usize::MAX,
        ensures
            pane_title_ok(t@, self.spec_config(), i as int),
    {
        match &self.config.titles {
            Some(titles) => {
                if i < titles.len() {
                    return titles[i].clone();
                }
            },
            None => {},
        }
        let mut t: String = "Chart ".to_owned();
        let num: String = u64_to_string((i as u64) + 1);
        t.append(num.as_str());
        t
    }

    /// The grouped chart of a cell: one group per time slot, left to right
    /// from the oldest, each holding one single-width bar per series with
    /// the sample of that slot, newest slot at the right edge.
    pub fn grouped_chart(&self, cell_width: u16) -> (c: BarChart)
        requires
            self.wf(),
            self.spec_pool().slots().len() >= 1,
        ensures
            c.bar_width == 1,
            c.bar_gap == 0,
            c.group_gap == 0,
            c.max is None,
            c.direction == Direction::Vertical,
            c.data@.len() == grouped_window(cell_width as int, self.spec_pool().slots().len() as int),
            forall|k: int|
                0 <= k < c.data@.len() ==> (#[trigger] c.data@[k]).bars@.len() == self.spec_pool().slots().len()
                    && c.data@[k].label is None,
            forall|k: int, s: int|
                0 <= k < c.data@.len() && 0 <= s < self.spec_pool().slots().len()
                    ==> bar_of_grouped(
                    #[trigger] c.data@[k].bars@[s],
                    self.spec_pool().slots()[s]@,
                    grouped_window(cell_width as int, self.spec_pool().slots().len() as int) - 1
                        - k,
                ),
    {
        let n: usize = self.pool.len();
        let window: u16 = if cell_width == 0 {
            0
        } else {
            ((cell_width - 1) as usize / n) as u16
        };
        proof {
            if cell_width >= 1 {
                vstd::arithmetic::div_mod::lemma_div_nonincreasing(cell_width as int - 1, n as int);
                vstd::arithmetic::div_mod::lemma_div_pos_is_pos(cell_width as int - 1, n as int);
            }
        }
        let mut chart = BarChart {
            bar_width: 1,
            bar_gap: 0,
            group_gap: 0,
            max: None,
            direction: Direction::Vertical,
            data: Vec::new(),
        };
        let mut k: u16 = 0;
        while k < window
            invariant
                self.wf(),
                n == self.spec_pool().slots().len(),
                n >= 1,
                window as int == grouped_window(cell_width as int, n as int),
                k <= window,
                chart.bar_width == 1,
                chart.bar_gap == 0,
                chart.group_gap == 0,
                chart.max is None,
                chart.direction == Direction::Vertical,
                chart.data@.len() == k,
                forall|t: int|
                    0 <= t < k ==> (#[trigger] chart.data@[t]).bars@.len() == n
                        && chart.data@[t].label is None,
                forall|t: int, s: int|
                    0 <= t < k && 0 <= s < n ==> bar_of_grouped(
                        #[trigger] chart.data@[t].bars@[s],
                        self.spec_pool().slots()[s]@,
                        window as int - 1 - t,
                    ),
            decreases window - k,
        {
            let age: u16 = window - 1 - k;
            let mut bars: Vec<Bar> = Vec::new();
            let mut s: usize = 0;
            while s < n
                invariant
                    self.wf(),
                    n == self.spec_pool().slots().len(),
                    s <= n,
                    bars@.len() == s,
                    forall|t: int|
                        0 <= t < s ==> bar_of_grouped(
                            #[trigger] bars@[t],
                            self.spec_pool().slots()[t]@,
                            age as int,
                        ),
                decreases n - s,
            {
                let series: &Series = self.pool.get(s);
                let samples: &Vec<i64> = series.samples();
                let len: usize = samples.len();
                let value: u64 = if (age as usize) < len {
                    let v: i64 = samples[len - 1 - age as usize];
                    if v < 0 {
                        0
                    } else {
                        (v / 1000) as u64
                    }
                } else {
                    0
                };
                let text: String = String::new();
                bars.push(Bar { value, label: None, text_value: Some(text) });
                s = s + 1;
            }
            chart = chart.data(BarGroup { label: None, bars });
            k = k + 1;
        }
        chart
    }
}

/// The title a pane shows: the configured one when present, else `Chart`
/// and the 1-based pane number.
pub open spec fn pane_title_ok(t: Seq<char>, config: DashConfig, i: int) -> bool {
    if config.titles is Some && 0 <= i < config.titles->0@.len() {
        t == config.titles->0@[i]@
    } else {
        t == "Chart "@ + spec_digits(i + 1)
    }
}

/// One pane bar stands for one sample: the sample in whole units, no
/// label, an empty value text.
pub open spec fn bar_of_sample(bar: Bar, v: int) -> bool {
    &&& bar.value as int == sample_to_bar(v)
    &&& bar.label is None
    &&& bar.text_value is Some
    &&& bar.text_value->0@ == Seq::<char>::empty()
}

/// A pane chart holds the most recent samples that fit beside the left
/// border — one bar each, single width, no gaps, vertical.
pub open spec fn pane_chart_ok(chart: BarChart, window: Seq<i64>, cell_width: int) -> bool {
    let width = if cell_width == 0 {
        0int
    } else {
        cell_width - 1
    };
    let count = vstd::math::min(window.len() as int, width);
    let start = window.len() - count;
    &&& chart.bar_width == 1
    &&& chart.bar_gap == 0
    &&& chart.group_gap == 0
    &&& chart.max is None
    &&& chart.direction == Direction::Vertical
    &&& chart.data@.len() == (if count > 0 {
        1int
    } else {
        0int
    })
    &&& count > 0 ==> chart.data@[0].label is None && chart.data@[0].bars@.len() == count
        && forall|t: int|
        0 <= t < count ==> bar_of_grouped(
            #[trigger] chart.data@[0].bars@[t],
            window,
            count - 1 - t,
        )
}

/// One grouped-chart bar stands for the sample `age` slots before the
/// newest one of its series, or zero where the series is too short.
pub open spec fn bar_of_grouped(bar: Bar, window: Seq<i64>, age: int) -> bool {
    &&& bar.value as int == (if 0 <= age < window.len() {
        sample_to_bar(window[window.len() - 1 - age] as int)
    } else {
        0
    })
    &&& bar.label is None
    &&& bar.text_value is Some
    &&& bar.text_value->0@ == Seq::<char>::empty()
}

/// How many time slots a grouped chart of `n` series shows in a cell.
pub open spec fn grouped_window(cell_width: int, n: int) -> int {
    if cell_width == 0 {
        0
    } else {
        (cell_width - 1) / n
    }
}

/// The markers of a pane are those of its sample window.
pub open spec fn pane_markers_ok(ms: Seq<TimeMarker>, cell_width: int) -> bool {
    let width = if cell_width == 0 {
        0int
    } else {
        cell_width - 1
    };
    &&& ms.len() == marker_count(width)
    &&& forall|i: int|
        0 <= i < ms.len() ==> (#[trigger] ms[i]).label@ == marker_label(marker_count(width) - 1 - i)
            && ms[i].spacing == marker_spacing(marker_count(width) - 1 - i, 1)
}

/// The statistics line of a pane reports the exact window statistics: the
/// window's length, its sum — the average is `sum / len` — and its true
/// extrema, with the series' unit.
pub open spec fn pane_stats_ok(st: PaneStats, series: Series) -> bool {
    &&& st.len == series@.len()
    &&& st.sum as int == seq_sum(series@)
    &&& (series@.len() == 0 ==> st.min is None && st.max is None)
    &&& (series@.len() > 0 ==> st.min is Some && st.min->0 as int == seq_min(series@)
        && st.max is Some && st.max->0 as int == seq_max(series@))
    &&& st.unit@ == series.spec_unit()
}

/// The pool relation of unit-tag ingestion, as `ingest_units` leaves it.
pub open spec fn pool_after_units(
    before: SeriesPool,
    after: SeriesPool,
    line: Seq<u8>,
    units: Seq<Vec<u8>>,
) -> bool {
    &&& after.slots().len() >= before.slots().len()
    &&& forall|i: int|
        0 <= i < units.len() && crate::router::unit_matched(line, (#[trigger] units[i])@)
            ==> after.slots().len() > i && after.slots()[i].spec_unit() == units[i]@
            && exists|p: int|
            #[trigger] crate::parse::is_first_match(line, units[i]@, p) && after.slots()[i].pushed()
                == (if i < before.slots().len() {
                before.slots()[i].pushed()
            } else {
                Seq::<i64>::empty()
            }).push((crate::parse::match_value(line, units[i]@, p)) as i64)
    &&& forall|j: int|
        0 <= j < after.slots().len() && !(j < units.len() && crate::router::unit_matched(
            line,
            units[j]@,
        )) ==> (if j < before.slots().len() {
            (#[trigger] after.slots()[j]) == before.slots()[j]
        } else {
            after.slots()[j].pushed() == Seq::<i64>::empty()
        })
}

/// The pool relation of positional ingestion: the selected values go to
/// successive slots, the rest stay as they were.
pub open spec fn pool_after_selected(before: SeriesPool, after: SeriesPool, vs: Seq<int>) -> bool {
    &&& after.slots().len() == vstd::math::max(before.slots().len() as int, vs.len() as int)
    &&& forall|k: int|
        0 <= k < vs.len() ==> (#[trigger] after.slots()[k]).pushed() == (if k
            < before.slots().len() {
            before.slots()[k].pushed()
        } else {
            Seq::<i64>::empty()
        }).push(vs[k] as i64)
    &&& forall|j: int|
        vs.len() <= j < after.slots().len() ==> (#[trigger] after.slots()[j]) == before.slots()[j]
}

} // verus!
