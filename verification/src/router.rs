//! The series pool and the router: an ordered, growable collection of
//! series, and the two mutually exclusive ingestion modes that feed samples
//! from input lines into its slots.

use crate::parse::copy_range;
use crate::parse::find_unit_value;
use crate::parse::is_first_match;
use crate::parse::line_values;
use crate::parse::match_at;
use crate::parse::match_value;
use crate::parse::spec_line_values;
use crate::parse::spec_tokens_from;
use crate::series::Series;
use vstd::prelude::*;

verus! {

/// Whether a line yields a sample for one unit label.
pub open spec fn unit_matched(line: Seq<u8>, unit: Seq<u8>) -> bool {
    exists|p: int| match_at(line, unit, p)
}

/// The samples selected by 1-based column indices, in index-list order;
/// out-of-range indices are skipped and do not advance the slot.
pub open spec fn spec_selected(vs: Seq<int>, idx: Seq<usize>) -> Seq<int>
    decreases idx.len(),
{
    if idx.len() == 0 {
        Seq::empty()
    } else {
        let rest = spec_selected(vs, idx.drop_last());
        let j = idx.last() as int;
        if 1 <= j <= vs.len() {
            rest.push(vs[j - 1])
        } else {
            rest
        }
    }
}

/// An ordered collection of series sharing one capacity, growing — never
/// shrinking — to accommodate the highest slot a line refers to.
pub struct SeriesPool {
    series: Vec<Series>,
    capacity: usize,
}

impl SeriesPool {
    /// The slots of the pool, in order.
    pub closed spec fn slots(&self) -> Seq<Series> {
        self.series@
    }

    /// The capacity every slot is created with.
    pub closed spec fn spec_capacity(&self) -> nat {
        self.capacity as nat
    }

    /// Well-formedness: every slot is well-formed with the pool's capacity.
    pub open spec fn wf(&self) -> bool {
        forall|i: int|
            0 <= i < self.slots().len() ==> (#[trigger] self.slots()[i]).wf()
                && self.slots()[i].spec_capacity() == self.spec_capacity()
    }

    /// A pool with one empty series of the given capacity.
    pub fn new(capacity: usize) -> (p: SeriesPool)
        ensures
            p.wf(),
            p.spec_capacity() == capacity,
            p.slots().len() == 1,
            p.slots()[0].pushed() == Seq::<i64>::empty(),
            p.slots()[0].spec_unit() == Seq::<u8>::empty(),
    {
        let mut series: Vec<Series> = Vec::new();
        series.push(Series::new(capacity));
        SeriesPool { series, capacity }
    }

    /// The number of slots.
    pub fn len(&self) -> (n: usize)
        ensures
            n == self.slots().len(),
    {
        self.series.len()
    }

    /// The capacity every slot is created with.
    pub fn capacity(&self) -> (c: usize)
        ensures
            c == self.spec_capacity(),
    {
        self.capacity
    }

    /// Read-only access to one slot.
    pub fn get(&self, i: usize) -> (s: &Series)
        requires
            i < self.slots().len(),
        ensures
            *s == self.slots()[i as int],
    {
        &self.series[i]
    }

    /// Grows the pool with fresh empty series until it holds at least `n`
    /// slots; it never shrinks.
    pub fn ensure_len(&mut self, n: usize)
        requires
            old(self).wf(),
        ensures
            final(self).wf(),
            final(self).spec_capacity() == old(self).spec_capacity(),
            final(self).slots().len() == vstd::math::max(
                old(self).slots().len() as int,
                n as int,
            ),
            forall|j: int|
                0 <= j < old(self).slots().len() ==> final(self).slots()[j] == old(self).slots()[j],
            forall|j: int|
                old(self).slots().len() <= j < final(self).slots().len() ==> (#[trigger] final(self).slots()[j]).pushed() == Seq::<i64>::empty() && final(self).slots()[j].spec_unit()
                    == Seq::<u8>::empty(),
    {
        while self.series.len() < n
            invariant
                self.wf(),
                self.capacity == old(self).capacity,
                self.series@.len() >= old(self).series@.len(),
                self.series@.len() <= vstd::math::max(old(self).slots().len() as int, n as int),
                forall|j: int|
                    0 <= j < old(self).slots().len() ==> self.series@[j] == old(self).slots()[j],
                forall|j: int|
                    old(self).slots().len() <= j < self.series@.len() ==> (#[trigger] self.series@[j]).pushed()
                        == Seq::<i64>::empty() && self.series@[j].spec_unit()
                        == Seq::<u8>::empty(),
            decreases n - self.series@.len(),
        {
            let ghost prev = self.slots();
            let fresh: Series = Series::new(self.capacity);
            self.series.push(fresh);
            proof {
                assert forall|j: int|
                    0 <= j < self.slots().len() implies (#[trigger] self.slots()[j]).wf()
                    && self.slots()[j].spec_capacity() == self.spec_capacity() by {
                    if j < prev.len() {
                        assert(self.slots()[j] == prev[j]);
                    } else {
                        assert(self.slots()[j] == fresh);
                    }
                }
            }
        }
    }

    /// Unit-tag ingestion: for each configured unit label, in order, the
    /// first place in the line where a number is followed by that unit as a
    /// whole word yields a sample for the slot of that unit, growing the
    /// pool as needed and recording the unit on the slot. Units without a
    /// match leave their slot alone; a line without any match changes
    /// nothing.
    pub fn ingest_units(&mut self, line: &Vec<u8>, units: &Vec<Vec<u8>>)
        requires
            old(self).wf(),
        ensures
            final(self).wf(),
            final(self).spec_capacity() == old(self).spec_capacity(),
            final(self).slots().len() >= old(self).slots().len(),
            forall|i: int|
                0 <= i < units@.len() && unit_matched(line@, (#[trigger] units@[i])@) ==> final(self).slots().len() > i,
            final(self).slots().len() == old(self).slots().len() || (final(self).slots().len() - 1
                < units@.len() && unit_matched(
                line@,
                units@[final(self).slots().len() - 1]@,
            )),
            forall|i: int|
                0 <= i < units@.len() && unit_matched(line@, (#[trigger] units@[i])@) ==> {
                    let before = if i < old(self).slots().len() {
                        old(self).slots()[i].pushed()
                    } else {
                        Seq::<i64>::empty()
                    };
                    &&& final(self).slots()[i].spec_unit() == units@[i]@
                    &&& exists|p: int|
                        #[trigger] is_first_match(line@, units@[i]@, p) && final(self).slots()[i].pushed() == before.push((match_value(line@, units@[i]@, p)) as i64)
                },
            forall|j: int|
                0 <= j < final(self).slots().len() && !(j < units@.len() && unit_matched(
                    line@,
                    units@[j]@,
                )) ==> (if j < old(self).slots().len() {
                    (#[trigger] final(self).slots()[j]) == old(self).slots()[j]
                } else {
                    final(self).slots()[j].pushed() == Seq::<i64>::empty() && final(self).slots()[j].spec_unit() == Seq::<u8>::empty()
                }),
    {
        let mut i: usize = 0;
        while i < units.len()
            invariant
                self.wf(),
                self.spec_capacity() == old(self).spec_capacity(),
                i <= units@.len(),
                self.slots().len() >= old(self).slots().len(),
                forall|t: int|
                    0 <= t < i && unit_matched(line@, (#[trigger] units@[t])@) ==> self.slots().len()
                        > t,
                self.slots().len() == old(self).slots().len() || (self.slots().len() - 1 < i
                    && unit_matched(line@, units@[self.slots().len() - 1]@)),
                forall|t: int|
                    0 <= t < i && unit_matched(line@, (#[trigger] units@[t])@) ==> {
                        let before = if t < old(self).slots().len() {
                            old(self).slots()[t].pushed()
                        } else {
                            Seq::<i64>::empty()
                        };
                        &&& self.slots()[t].spec_unit() == units@[t]@
                        &&& exists|p: int|
                            #[trigger] is_first_match(line@, units@[t]@, p)
                                && self.slots()[t].pushed() == before.push(
                                (match_value(line@, units@[t]@, p)) as i64,
                            )
                    },
                forall|j: int|
                    0 <= j < self.slots().len() && !(j < i && unit_matched(line@, units@[j]@))
                        ==> (if j < old(self).slots().len() {
                        (#[trigger] self.slots()[j]) == old(self).slots()[j]
                    } else {
                        self.slots()[j].pushed() == Seq::<i64>::empty() && self.slots()[j].spec_unit()
                            == Seq::<u8>::empty()
                    }),
            decreases units@.len() - i,
        {
            match find_unit_value(line, &units[i]) {
                Some(v) => {
                    self.ensure_len(i + 1);
                    let tag: Vec<u8> = copy_range(&units[i], 0, units[i].len());
                    self.series[i].push(v);
                    self.series[i].set_unit(tag);
                    proof {
                        assert(units@[i as int]@.subrange(0, units@[i as int]@.len() as int)
                            =~= units@[i as int]@);
                    }
                },
                None => {},
            }
            i = i + 1;
        }
    }

    /// Positional ingestion without indices: every numeric token of the
    /// line, in order, yields a sample for the slot of the same position,
    /// growing the pool when the line holds more values than slots. A line
    /// without numeric tokens changes nothing.
    pub fn ingest_positional(&mut self, line: &Vec<u8>)
        requires
            old(self).wf(),
        ensures
            final(self).wf(),
            final(self).spec_capacity() == old(self).spec_capacity(),
            final(self).slots().len() == vstd::math::max(
                old(self).slots().len() as int,
                spec_line_values(spec_tokens_from(line@, 0)).len() as int,
            ),
            forall|k: int|
                0 <= k < spec_line_values(spec_tokens_from(line@, 0)).len() ==> {
                    let before = if k < old(self).slots().len() {
                        old(self).slots()[k].pushed()
                    } else {
                        Seq::<i64>::empty()
                    };
                    (#[trigger] final(self).slots()[k]).pushed() == before.push(
                        (spec_line_values(spec_tokens_from(line@, 0))[k]) as i64,
                    )
                },
            forall|j: int|
                spec_line_values(spec_tokens_from(line@, 0)).len() <= j < final(self).slots().len() ==> (#[trigger] final(self).slots()[j]) == old(self).slots()[j],
    {
        let values: Vec<i64> = line_values(line);
        self.push_values(&values);
        proof {
            let vs = spec_line_values(spec_tokens_from(line@, 0));
            assert(forall|k: int|
                0 <= k < vs.len() ==> values@[k] == (#[trigger] vs[k]) as i64);
        }
    }

    /// Positional ingestion with 1-based column indices: the values at the
    /// configured columns, in index-list order, go to successive slots; an
    /// index with no value in the line is skipped and does not advance the
    /// slot.
    pub fn ingest_indexed(&mut self, line: &Vec<u8>, indices: &Vec<usize>)
        requires
            old(self).wf(),
        ensures
            final(self).wf(),
            final(self).spec_capacity() == old(self).spec_capacity(),
            final(self).slots().len() == vstd::math::max(
                old(self).slots().len() as int,
                spec_selected(spec_line_values(spec_tokens_from(line@, 0)), indices@).len() as int,
            ),
            forall|k: int|
                0 <= k < spec_selected(
                    spec_line_values(spec_tokens_from(line@, 0)),
                    indices@,
                ).len() ==> {
                    let before = if k < old(self).slots().len() {
                        old(self).slots()[k].pushed()
                    } else {
                        Seq::<i64>::empty()
                    };
                    (#[trigger] final(self).slots()[k]).pushed() == before.push(
                        (spec_selected(spec_line_values(spec_tokens_from(line@, 0)), indices@)[k]) as i64,
                    )
                },
            forall|j: int|
                spec_selected(spec_line_values(spec_tokens_from(line@, 0)), indices@).len() <= j
                    < final(self).slots().len() ==> (#[trigger] final(self).slots()[j]) == old(self).slots()[j],
    {
        let values: Vec<i64> = line_values(line);
        let ghost vs = spec_line_values(spec_tokens_from(line@, 0));
        let mut selected: Vec<i64> = Vec::new();
        let mut t: usize = 0;
        while t < indices.len()
            invariant
                values@.len() == vs.len(),
                forall|k: int| 0 <= k < vs.len() ==> values@[k] as int == (#[trigger] vs[k]),
                t <= indices@.len(),
                selected@.len() == spec_selected(vs, indices@.take(t as int)).len(),
                forall|k: int|
                    0 <= k < selected@.len() ==> (#[trigger] selected@[k]) as int == spec_selected(
                        vs,
                        indices@.take(t as int),
                    )[k],
            decreases indices@.len() - t,
        {
            proof {
                assert(indices@.take(t + 1).drop_last() =~= indices@.take(t as int));
                assert(indices@.take(t + 1).last() == indices@[t as int]);
            }
            let j: usize = indices[t];
            if j >= 1 && j <= values.len() {
                selected.push(values[j - 1]);
            }
            t = t + 1;
        }
        proof {
            assert(indices@.take(indices@.len() as int) =~= indices@);
            let sel = spec_selected(vs, indices@);
            assert(forall|k: int|
                0 <= k < sel.len() ==> selected@[k] == (#[trigger] sel[k]) as i64);
        }
        self.push_values(&selected);
    }

    /// Routes one value per slot, growing the pool to fit them all.
    fn push_values(&mut self, values: &Vec<i64>)
        requires
            old(self).wf(),
        ensures
            final(self).wf(),
            final(self).spec_capacity() == old(self).spec_capacity(),
            final(self).slots().len() == vstd::math::max(
                old(self).slots().len() as int,
                values@.len() as int,
            ),
            forall|k: int|
                0 <= k < values@.len() ==> {
                    let before = if k < old(self).slots().len() {
                        old(self).slots()[k].pushed()
                    } else {
                        Seq::<i64>::empty()
                    };
                    (#[trigger] final(self).slots()[k]).pushed() == before.push(values@[k])
                },
            forall|j: int|
                values@.len() <= j < final(self).slots().len() ==> (#[trigger] final(self).slots()[j]) == old(self).slots()[j],
    {
        self.ensure_len(values.len());
        let ghost grown = self.slots();
        let mut k: usize = 0;
        while k < values.len()
            invariant
                self.wf(),
                self.spec_capacity() == old(self).spec_capacity(),
                k <= values@.len(),
                self.slots().len() == grown.len(),
                values@.len() <= grown.len(),
                forall|j: int| k <= j < grown.len() ==> (#[trigger] self.slots()[j]) == grown[j],
                forall|t: int|
                    0 <= t < k ==> (#[trigger] self.slots()[t]).pushed() == grown[t].pushed().push(
                        values@[t],
                    ),
                forall|j: int|
                    0 <= j < old(self).slots().len() ==> grown[j] == old(self).slots()[j],
                forall|j: int|
                    old(self).slots().len() <= j < grown.len() ==> (#[trigger] grown[j]).pushed()
                        == Seq::<i64>::empty(),
            decreases values@.len() - k,
        {
            self.series[k].push(values[k]);
            k = k + 1;
        }
    }
}

} // verus!
