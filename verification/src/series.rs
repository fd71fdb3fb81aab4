//! A fixed-capacity rolling window of numeric samples with cached statistics.
//!
//! Samples are fixed-point integers in milli-units (thousandths), so the sum
//! and the extrema of the window are exact; the average of a window is the
//! rational `sum / length`.

use vstd::prelude::*;

verus! {

/// Sum of a window of samples, as a mathematical integer.
pub open spec fn seq_sum(s: Seq<i64>) -> int
    decreases s.len(),
{
    if s.len() == 0 {
        0
    } else {
        seq_sum(s.drop_last()) + s.last()
    }
}

/// Minimum of a non-empty window of samples.
pub open spec fn seq_min(s: Seq<i64>) -> int
    recommends
        s.len() > 0,
    decreases s.len(),
{
    if s.len() <= 1 {
        if s.len() == 1 {
            s[0] as int
        } else {
            0
        }
    } else {
        let m = seq_min(s.drop_last());
        if s.last() < m {
            s.last() as int
        } else {
            m
        }
    }
}

/// Maximum of a non-empty window of samples.
pub open spec fn seq_max(s: Seq<i64>) -> int
    recommends
        s.len() > 0,
    decreases s.len(),
{
    if s.len() <= 1 {
        if s.len() == 1 {
            s[0] as int
        } else {
            0
        }
    } else {
        let m = seq_max(s.drop_last());
        if s.last() > m {
            s.last() as int
        } else {
            m
        }
    }
}

/// The rolling window that a history of pushes leaves behind: the whole
/// history while it still fits, and its `cap` most recent entries afterwards.
pub open spec fn window_of(history: Seq<i64>, cap: nat) -> Seq<i64> {
    if history.len() <= cap {
        history
    } else {
        history.subrange(history.len() - cap, history.len() as int)
    }
}

/// Every element of a window lies within the `i64` range scaled by the
/// window's length, so the running sum of any window fits in an `i128`.
pub proof fn lemma_seq_sum_bound(s: Seq<i64>)
    ensures
        -(s.len() as int) * 0x8000_0000_0000_0000 <= seq_sum(s),
        seq_sum(s) <= (s.len() as int) * 0x7fff_ffff_ffff_ffff,
    decreases s.len(),
{
    if s.len() > 0 {
        lemma_seq_sum_bound(s.drop_last());
    }
}

/// A rolling window of samples with cached statistics.
///
/// Pushing beyond the capacity evicts exactly the oldest sample; the cached
/// sum and extrema always describe the current window, which in turn holds
/// exactly the most recent pushes.
pub struct Series {
    data: Vec<i64>,
    capacity: usize,
    unit: Vec<u8>,
    sum: i128,
    min_value: i64,
    max_value: i64,
    history: Ghost<Seq<i64>>,
}

impl View for Series {
    type V = Seq<i64>;

    closed spec fn view(&self) -> Seq<i64> {
        self.data@
    }
}

impl Series {
    /// The full sequence of samples ever pushed, in arrival order.
    pub closed spec fn pushed(&self) -> Seq<i64> {
        self.history@
    }

    /// The capacity the series was created with.
    pub closed spec fn spec_capacity(&self) -> nat {
        self.capacity as nat
    }

    /// The cached sum of the window.
    pub closed spec fn spec_sum(&self) -> int {
        self.sum as int
    }

    /// The unit label recorded on this series.
    pub closed spec fn spec_unit(&self) -> Seq<u8> {
        self.unit@
    }

    /// Well-formedness: the window is exactly the most recent pushes, and the
    /// cached statistics are the true sum and extrema of that window.
    pub closed spec fn wf(&self) -> bool {
        &&& self.data@ == window_of(self.history@, self.capacity as nat)
        &&& self.sum as int == seq_sum(self.data@)
        &&& self.data@.len() > 0 ==> self.min_value as int == seq_min(self.data@)
        &&& self.data@.len() > 0 ==> self.max_value as int == seq_max(self.data@)
    }

    /// Creates an empty series of the given capacity and no unit label.
    pub fn new(capacity: usize) -> (s: Series)
        ensures
            s.wf(),
            s@ == Seq::<i64>::empty(),
            s.pushed() == Seq::<i64>::empty(),
            s.spec_capacity() == capacity,
            s.spec_unit() == Seq::<u8>::empty(),
    {
        Series {
            data: Vec::new(),
            capacity,
            unit: Vec::new(),
            sum: 0,
            min_value: 0,
            max_value: 0,
            history: Ghost(Seq::empty()),
        }
    }

    /// Number of valid samples in the window.
    pub fn len(&self) -> (n: usize)
        ensures
            n == self@.len(),
    {
        self.data.len()
    }

    /// The capacity the series was created with.
    pub fn capacity(&self) -> (c: usize)
        ensures
            c == self.spec_capacity(),
    {
        self.capacity
    }

    /// Read-only access to the window, oldest sample first.
    pub fn samples(&self) -> (v: &Vec<i64>)
        ensures
            v@ == self@,
    {
        &self.data
    }

    /// The unit label recorded on this series.
    pub fn unit(&self) -> (u: &Vec<u8>)
        ensures
            u@ == self.spec_unit(),
    {
        &self.unit
    }

    /// Records the unit label, leaving the samples and statistics alone.
    pub fn set_unit(&mut self, unit: Vec<u8>)
        requires
            old(self).wf(),
        ensures
            final(self).wf(),
            final(self).spec_unit() == unit@,
            final(self)@ == old(self)@,
            final(self).pushed() == old(self).pushed(),
            final(self).spec_capacity() == old(self).spec_capacity(),
            final(self).spec_sum() == old(self).spec_sum(),
    {
        self.unit = unit;
    }

    /// The cached sum of the window; the window's average is `sum / length`.
    pub fn sum(&self) -> (s: i128)
        requires
            self.wf(),
        ensures
            s as int == seq_sum(self@),
    {
        self.sum
    }

    /// The smallest sample of the window, or `None` while the window is empty.
    pub fn min(&self) -> (m: Option<i64>)
        requires
            self.wf(),
        ensures
            self@.len() == 0 ==> m == None::<i64>,
            self@.len() > 0 ==> m is Some && m->0 as int == seq_min(self@),
    {
        if self.data.len() == 0 {
            None
        } else {
            Some(self.min_value)
        }
    }

    /// The largest sample of the window, or `None` while the window is empty.
    pub fn max(&self) -> (m: Option<i64>)
        requires
            self.wf(),
        ensures
            self@.len() == 0 ==> m == None::<i64>,
            self@.len() > 0 ==> m is Some && m->0 as int == seq_max(self@),
    {
        if self.data.len() == 0 {
            None
        } else {
            Some(self.max_value)
        }
    }

    /// Appends the newest sample, evicting the oldest once at capacity, and
    /// recomputes the cached statistics over the new window.
    ///
    /// The length after a push is `min(previous_length + 1, capacity)`, and
    /// the window afterwards holds exactly the most recent pushes.
    pub fn push(&mut self, value: i64)
        requires
            old(self).wf(),
        ensures
            final(self).wf(),
            final(self).pushed() == old(self).pushed().push(value),
            final(self)@ == window_of(final(self).pushed(), final(self).spec_capacity()),
            final(self)@.len() == vstd::math::min(old(self)@.len() as int + 1, old(self).spec_capacity() as int),
            final(self).spec_capacity() == old(self).spec_capacity(),
            final(self).spec_unit() == old(self).spec_unit(),
    {
        self.history = Ghost(self.history@.push(value));
        if self.capacity == 0 {
            proof {
                assert(window_of(self.history@, 0) =~= self.data@);
            }
            return;
        }
        if self.data.len() == self.capacity {
            self.data.remove(0);
        }
        self.data.push(value);
        proof {
            assert(self.data@ =~= window_of(self.history@, self.capacity as nat));
        }
        self.recompute_stats();
    }

    /// Full rescan of the window, refreshing the cached statistics.
    fn recompute_stats(&mut self)
        requires
            old(self).data@.len() > 0,
        ensures
            final(self).data == old(self).data,
            final(self).capacity == old(self).capacity,
            final(self).unit == old(self).unit,
            final(self).history == old(self).history,
            final(self).sum as int == seq_sum(final(self).data@),
            final(self).min_value as int == seq_min(final(self).data@),
            final(self).max_value as int == seq_max(final(self).data@),
    {
        let n: usize = self.data.len();
        let mut sum: i128 = 0;
        let mut min_value: i64 = self.data[0];
        let mut max_value: i64 = self.data[0];
        let mut i: usize = 0;
        while i < n
            invariant
                n == self.data@.len(),
                0 < n,
                i <= n,
                sum as int == seq_sum(self.data@.take(i as int)),
                i > 0 ==> min_value as int == seq_min(self.data@.take(i as int)),
                i > 0 ==> max_value as int == seq_max(self.data@.take(i as int)),
                i == 0 ==> min_value == self.data@[0] && max_value == self.data@[0],
            decreases n - i,
        {
            proof {
                lemma_seq_sum_bound(self.data@.take(i as int));
                assert(self.data@.take(i + 1).drop_last() =~= self.data@.take(i as int));
                assert(self.data@.take(i + 1).last() == self.data@[i as int]);
            }
            sum = sum + self.data[i] as i128;
            let x: i64 = self.data[i];
            if x < min_value {
                min_value = x;
            }
            if x > max_value {
                max_value = x;
            }
            i = i + 1;
        }
        proof {
            assert(self.data@.take(n as int) =~= self.data@);
        }
        self.sum = sum;
        self.min_value = min_value;
        self.max_value = max_value;
    }
}

impl Default for Series {
    /// An empty series with the default capacity of 200 samples.
    fn default() -> (s: Series)
        ensures
            s.wf(),
            s@ == Seq::<i64>::empty(),
            s.pushed() == Seq::<i64>::empty(),
            s.spec_capacity() == 200,
            s.spec_unit() == Seq::<u8>::empty(),
    {
        Series::new(200)
    }
}

/// Every well-formed series shows exactly the rolling window its push
/// history leaves behind, so its statistics — the sum behind the average,
/// and the extrema — always describe the most recent pushes and nothing
/// else.
pub proof fn lemma_wf_window(s: &Series)
    requires
        s.wf(),
    ensures
        s@ == window_of(s.pushed(), s.spec_capacity()),
        s.spec_sum() == seq_sum(s@),
{
}

/// The rolling window holds exactly the `min(pushes, capacity)` most recent
/// samples: its length is `min(pushes, capacity)` and its entries are the
/// trailing entries of the push history, in order.
pub proof fn lemma_window_is_recent(history: Seq<i64>, cap: nat)
    ensures
        window_of(history, cap).len() == vstd::math::min(history.len() as int, cap as int),
        forall|i: int|
            0 <= i < window_of(history, cap).len() ==> window_of(history, cap)[i] == history[history.len()
                - window_of(history, cap).len() + i],
{
}

} // verus!
