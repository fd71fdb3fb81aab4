//! Time-axis markers for the bottom border of a chart: one marker per 30
//! time units, counted backward from the most recent sample at the right
//! edge, stopping before the marker would fall within five cells of the left
//! edge. Markers are generated oldest-first and handed out reversed, for
//! right-to-left chronological placement.

use crate::text::digit_count;
use crate::text::spec_digits;
use crate::text::u64_to_string;
use vstd::prelude::*;

verus! {

/// One marker: a horizontal rule segment of `spacing` cells, then a branch
/// glyph, then the label text.
pub struct TimeMarker {
    pub spacing: usize,
    pub label: String,
}

/// How many markers fit: times `30, 60, ...` while the marker stays at
/// least five cells away from the left edge.
pub open spec fn marker_count(window: int) -> int {
    if window >= 5 {
        (window - 5) / 30
    } else {
        0
    }
}

/// The label of the marker at time `30 * (i + 1)`: the decimal digits with
/// an `s` suffix.
pub open spec fn marker_label(i: int) -> Seq<char> {
    spec_digits(30 * (i + 1)) + seq!['s']
}

/// The rule segment before marker `i`: thirty cells per series, shortened by
/// the room the previous marker's label already took.
pub open spec fn marker_spacing(i: int, slen: int) -> int {
    30 * slen - (if i == 0 {
        0int
    } else {
        marker_label(i - 1).len() as int + 1
    })
}

/// The time markers of a window, most recent (rightmost) first.
pub fn generate_time_markers(window_size: u16, state_len: usize) -> (r: Vec<TimeMarker>)
    requires
        1 <= state_len <= 0xffff,
    ensures
        r@.len() == marker_count(window_size as int),
        forall|i: int|
            0 <= i < r@.len() ==> (#[trigger] r@[i]).label@ == marker_label(
                marker_count(window_size as int) - 1 - i,
            ) && r@[i].spacing == marker_spacing(
                marker_count(window_size as int) - 1 - i,
                state_len as int,
            ),
{
    let mut fwd: Vec<TimeMarker> = Vec::new();
    if window_size < 35 {
        return fwd;
    }
    let count: usize = ((window_size - 5) / 30) as usize;
    let mut last_len: usize = 0;
    let mut i: usize = 0;
    while i < count
        invariant
            1 <= state_len <= 0xffff,
            count == marker_count(window_size as int),
            count <= 2184,
            i <= count,
            fwd@.len() == i,
            last_len == (if i == 0 {
                0int
            } else {
                marker_label(i as int - 1).len() as int + 1
            }),
            last_len <= 22,
            forall|j: int|
                0 <= j < i ==> (#[trigger] fwd@[j]).label@ == marker_label(j) && fwd@[j].spacing
                    == marker_spacing(j, state_len as int),
        decreases count - i,
    {
        let t: u64 = 30 * ((i as u64) + 1);
        let mut label: String = u64_to_string(t);
        let digits: usize = digit_count(t);
        label.append("s");
        proof {
            reveal_strlit("s");
            assert("s"@ =~= seq!['s']);
            assert(label@ == marker_label(i as int));
        }
        let spacing: usize = 30 * state_len - last_len;
        fwd.push(TimeMarker { spacing, label });
        last_len = digits + 2;
        i = i + 1;
    }
    let mut out: Vec<TimeMarker> = Vec::new();
    let ghost full = fwd@;
    while fwd.len() > 0
        invariant
            out@.len() + fwd@.len() == count,
            fwd@ == full.take(fwd@.len() as int),
            full.len() == count,
            forall|j: int|
                0 <= j < count ==> (#[trigger] full[j]).label@ == marker_label(j) && full[j].spacing
                    == marker_spacing(j, state_len as int),
            forall|k: int| 0 <= k < out@.len() ==> #[trigger] out@[k] == full[count - 1 - k],
            count == marker_count(window_size as int),
        decreases fwd@.len(),
    {
        proof {
            assert(fwd@.last() == full[fwd@.len() - 1]);
            assert(fwd@.drop_last() =~= full.take(fwd@.len() - 1));
        }
        let mk: TimeMarker = fwd.pop().unwrap();
        out.push(mk);
    }
    out
}

} // verus!
