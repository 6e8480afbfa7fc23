use vstd::prelude::*;

verus! {

/// The horizontal heading of one segment of a stroke: backwards (x falls),
/// flat (x moves less than the threshold) or forwards (x grows).
#[derive(Clone, Copy, Debug, PartialEq, Eq, Structural)]
pub enum XStep {
    Backward,
    Flat,
    Forward,
}

/// The last non-flat step among the first `i` steps, `Flat` when there is none.
pub open spec fn heading_before(steps: Seq<XStep>, i: int) -> XStep
    decreases i,
{
    if i <= 0 {
        XStep::Flat
    } else if steps[i - 1] != XStep::Flat {
        steps[i - 1]
    } else {
        heading_before(steps, i - 1)
    }
}

/// How many non-flat steps from `start` on go in `heading` before the first
/// non-flat step that goes the other way.
pub open spec fn run_length(steps: Seq<XStep>, start: int, heading: XStep) -> nat
    decreases steps.len() - start,
{
    if start < 0 || start >= steps.len() {
        0
    } else if steps[start] == XStep::Flat {
        run_length(steps, start + 1, heading)
    } else if steps[start] != heading {
        0
    } else {
        1 + run_length(steps, start + 1, heading)
    }
}

/// Step `i` turns the stroke back in x: it is not flat, it goes against the
/// heading so far, and the new heading lasts for at least two segments.
pub open spec fn is_turn(steps: Seq<XStep>, i: int) -> bool {
    &&& 0 <= i < steps.len()
    &&& heading_before(steps, i) != XStep::Flat
    &&& steps[i] != XStep::Flat
    &&& steps[i] != heading_before(steps, i)
    &&& run_length(steps, i, steps[i]) >= 2
}

/// `ranges` cuts the points `0..=steps.len()` into consecutive inclusive index
/// ranges that share their end points, cut exactly at the turns.
pub open spec fn cut_at_turns(steps: Seq<XStep>, ranges: Seq<(usize, usize)>) -> bool {
    if steps.len() == 0 {
        ranges.len() == 0
    } else {
        &&& ranges.len() >= 1
        &&& ranges[0].0 == 0
        &&& ranges.last().1 == steps.len()
        &&& forall|j: int| 0 <= j < ranges.len() ==> #[trigger] ranges[j].0 < ranges[j].1
        &&& forall|j: int|
            0 <= j < ranges.len() - 1 ==> #[trigger] ranges[j].1 == ranges[j + 1].0
        &&& forall|j: int|
            0 <= j < ranges.len() - 1 ==> is_turn(steps, #[trigger] ranges[j].1 as int)
        &&& forall|j: int, i: int|
            0 <= j < ranges.len() && #[trigger] ranges[j].0 < i < ranges[j].1 ==> !#[trigger] is_turn(
                steps,
                i,
            )
    }
}

/// A run that meets a step against its heading after only flat steps has
/// length zero from there.
proof fn lemma_run_stops(steps: Seq<XStep>, start: int, end: int, heading: XStep)
    requires
        0 <= start <= end < steps.len(),
        forall|k: int| start <= k < end ==> #[trigger] steps[k] == XStep::Flat,
        steps[end] != XStep::Flat,
        steps[end] != heading,
    ensures
        run_length(steps, start, heading) == 0,
    decreases end - start,
{
    if start < end {
        lemma_run_stops(steps, start + 1, end, heading);
    }
}

/// A reversal that lasts one segment is no cut where it starts: when the
/// stroke goes back against its heading at step `i` and, after flat steps
/// only, resumes that heading at step `j`, step `i` is no turn.
pub proof fn lemma_one_segment_reversal_is_no_cut(steps: Seq<XStep>, i: int, j: int)
    requires
        0 <= i < j < steps.len(),
        steps[i] != XStep::Flat,
        forall|k: int| i < k < j ==> #[trigger] steps[k] == XStep::Flat,
        steps[j] == heading_before(steps, i),
    ensures
        !is_turn(steps, i),
{
    if heading_before(steps, i) != XStep::Flat && steps[i] != heading_before(steps, i) {
        lemma_run_stops(steps, i + 1, j, steps[i]);
    }
}

proof fn lemma_heading_from(steps: Seq<XStep>, k: int, i: int)
    requires
        0 <= k < i <= steps.len(),
        steps[k] != XStep::Flat,
        forall|t: int| k < t < i ==> #[trigger] steps[t] == XStep::Flat,
    ensures
        heading_before(steps, i) == steps[k],
    decreases i,
{
    if i - 1 > k {
        lemma_heading_from(steps, k, i - 1);
    }
}

proof fn lemma_heading_witness(steps: Seq<XStep>, i: int) -> (k: int)
    requires
        0 <= i <= steps.len(),
        heading_before(steps, i) != XStep::Flat,
    ensures
        0 <= k < i,
        steps[k] == heading_before(steps, i),
        forall|t: int| k < t < i ==> #[trigger] steps[t] == XStep::Flat,
    decreases i,
{
    if steps[i - 1] != XStep::Flat {
        i - 1
    } else {
        lemma_heading_witness(steps, i - 1)
    }
}

proof fn lemma_run_reaches(steps: Seq<XStep>, s: int, m: int, d: XStep)
    requires
        0 <= s <= m < steps.len(),
        d != XStep::Flat,
        steps[m] == d,
        forall|t: int| s <= t < m ==> #[trigger] steps[t] == XStep::Flat || steps[t] == d,
    ensures
        run_length(steps, s, d) >= 1,
    decreases m - s,
{
    if s < m {
        lemma_run_reaches(steps, s + 1, m, d);
    }
}

proof fn lemma_run_witness(steps: Seq<XStep>, s: int, d: XStep) -> (m: int)
    requires
        0 <= s,
        d != XStep::Flat,
        run_length(steps, s, d) >= 1,
    ensures
        s <= m < steps.len(),
        steps[m] == d,
        forall|t: int| s <= t < m ==> #[trigger] steps[t] == XStep::Flat || steps[t] == d,
    decreases steps.len() - s,
{
    if steps[s] == d {
        s
    } else {
        lemma_run_witness(steps, s + 1, d)
    }
}

proof fn lemma_locate(ranges: Seq<(usize, usize)>, j: int, i: int) -> (r: int)
    requires
        0 <= j < ranges.len(),
        ranges[j].0 <= i <= ranges.last().1,
        forall|q: int| 0 <= q < ranges.len() - 1 ==> #[trigger] ranges[q].1 == ranges[q + 1].0,
    ensures
        j <= r < ranges.len(),
        ranges[r].0 <= i <= ranges[r].1,
    decreases ranges.len() - j,
{
    if i <= ranges[j].1 || j == ranges.len() - 1 {
        j
    } else {
        assert(ranges[j].1 == ranges[j + 1].0);
        lemma_locate(ranges, j + 1, i)
    }
}

/// Every place where the stroke turns back in x ends a piece: a step `i` that
/// is not flat and goes against the last non-flat step `k` before it (only
/// flat steps in between), when a later step `m` goes the new way again with
/// nothing going the old way in between.
pub proof fn lemma_x_turns_are_cuts(steps: Seq<XStep>, ranges: Seq<(usize, usize)>, k: int, i: int, m: int)
    requires
        cut_at_turns(steps, ranges),
        0 <= k < i < m < steps.len(),
        steps[k] != XStep::Flat,
        steps[i] != XStep::Flat,
        steps[k] != steps[i],
        forall|t: int| k < t < i ==> #[trigger] steps[t] == XStep::Flat,
        steps[m] == steps[i],
        forall|t: int| i < t < m ==> #[trigger] steps[t] == XStep::Flat || steps[t] == steps[i],
    ensures
        exists|j: int| 0 <= j < ranges.len() - 1 && #[trigger] ranges[j].1 == i,
{
    lemma_heading_from(steps, k, i);
    lemma_run_reaches(steps, i + 1, m, steps[i]);
    assert(is_turn(steps, i));
    let r = lemma_locate(ranges, 0, i);
    if ranges[r].0 < i < ranges[r].1 {
        assert(!is_turn(steps, i));
    } else if i == ranges[r].0 {
        assert(r > 0);
        assert(ranges[r - 1].1 == ranges[r].0);
    } else {
        assert(r < ranges.len() - 1);
    }
}

/// Every place where a piece ends is a turn back in x: step `b` is not flat,
/// the last non-flat step before it went the other way, and a later step goes
/// the new way again with nothing going the old way in between.
pub proof fn lemma_cuts_are_x_turns(steps: Seq<XStep>, ranges: Seq<(usize, usize)>, j: int) -> (km: (int, int))
    requires
        cut_at_turns(steps, ranges),
        0 <= j < ranges.len() - 1,
    ensures
        ({
            let b = ranges[j].1 as int;
            let (k, m) = km;
            &&& 0 <= k < b < m < steps.len()
            &&& steps[b] != XStep::Flat
            &&& steps[k] != XStep::Flat
            &&& steps[k] != steps[b]
            &&& forall|t: int| k < t < b ==> #[trigger] steps[t] == XStep::Flat
            &&& steps[m] == steps[b]
            &&& forall|t: int| b < t < m ==> #[trigger] steps[t] == XStep::Flat || steps[t] == steps[b]
        }),
{
    let b = ranges[j].1 as int;
    assert(is_turn(steps, b));
    let k = lemma_heading_witness(steps, b);
    let m = lemma_run_witness(steps, b + 1, steps[b]);
    (k, m)
}

/// The pieces run from the first point to the last, each non-empty and
/// starting where the one before ends; a stroke of fewer than two points has
/// none.
pub proof fn lemma_pieces_cover_stroke(steps: Seq<XStep>, ranges: Seq<(usize, usize)>)
    requires
        cut_at_turns(steps, ranges),
    ensures
        steps.len() == 0 ==> ranges.len() == 0,
        steps.len() > 0 ==> {
            &&& ranges.len() >= 1
            &&& ranges[0].0 == 0
            &&& ranges.last().1 == steps.len()
            &&& forall|j: int| 0 <= j < ranges.len() ==> #[trigger] ranges[j].0 < ranges[j].1
            &&& forall|j: int|
                0 <= j < ranges.len() - 1 ==> #[trigger] ranges[j].1 == ranges[j + 1].0
        },
{
}

/// Counts the segments from `start` on that keep going in `heading`, skipping
/// flat ones and stopping at the first one that goes the other way.
pub fn direction_run_len(steps: &Vec<XStep>, start: usize, heading: XStep) -> (count: usize)
    ensures
        count == run_length(steps@, start as int, heading),
{
    let n = steps.len();
    let mut count: usize = 0;
    let mut i: usize = start;
    while i < n
        invariant
            n == steps@.len(),
            start <= i <= n || start >= n,
            count + run_length(steps@, i as int, heading) == run_length(steps@, start as int, heading),
            count <= i - start || start >= n,
        ensures
            count == run_length(steps@, start as int, heading),
        decreases n - i,
    {
        let step = steps[i];
        if step == XStep::Flat {
        } else if step != heading {
            break;
        } else {
            count = count + 1;
        }
        i = i + 1;
    }
    count
}

/// Cuts a stroke with `steps.len() + 1` points into pieces along which x
/// moves one way only, as inclusive point-index ranges. A new piece starts
/// where the stroke turns back in x for at least two segments; a single
/// segment of jitter against the heading does not cut. Neighbouring pieces
/// share the point at the cut. A stroke of fewer than two points has no piece.
pub fn monotone_span_ranges(steps: &Vec<XStep>) -> (ranges: Vec<(usize, usize)>)
    ensures
        cut_at_turns(steps@, ranges@),
{
    let n = steps.len();
    let mut ranges: Vec<(usize, usize)> = Vec::new();
    if n == 0 {
        return ranges;
    }
    let mut start: usize = 0;
    let mut heading = XStep::Flat;
    let mut index: usize = 0;
    while index < n
        invariant
            n == steps@.len(),
            n > 0,
            start <= index <= n,
            index > 0 ==> start < index,
            heading == heading_before(steps@, index as int),
            ranges@.len() == 0 ==> start == 0,
            ranges@.len() > 0 ==> ranges@[0].0 == 0 && ranges@.last().1 == start,
            forall|j: int| 0 <= j < ranges@.len() ==> #[trigger] ranges@[j].0 < ranges@[j].1,
            forall|j: int|
                0 <= j < ranges@.len() - 1 ==> #[trigger] ranges@[j].1 == ranges@[j + 1].0,
            forall|j: int|
                0 <= j < ranges@.len() ==> is_turn(steps@, #[trigger] ranges@[j].1 as int),
            forall|j: int, i: int|
                0 <= j < ranges@.len() && #[trigger] ranges@[j].0 < i < ranges@[j].1
                    ==> !#[trigger] is_turn(steps@, i),
            forall|i: int| start < i < index ==> !#[trigger] is_turn(steps@, i),
        decreases n - index,
    {
        let step = steps[index];
        let turns = heading != XStep::Flat && step != XStep::Flat && step != heading
            && direction_run_len(steps, index, step) >= 2;
        assert(turns == is_turn(steps@, index as int));
        if turns {
            let ghost old_ranges = ranges@;
            ranges.push((start, index));
            assert forall|j: int, i: int|
                0 <= j < ranges@.len() && #[trigger] ranges@[j].0 < i < ranges@[j].1
                    implies !#[trigger] is_turn(steps@, i) by {
                if j < old_ranges.len() {
                    assert(ranges@[j] == old_ranges[j]);
                }
            }
            start = index;
        }
        if step != XStep::Flat {
            heading = step;
        }
        index = index + 1;
    }
    let ghost old_ranges = ranges@;
    ranges.push((start, n));
    assert forall|j: int, i: int|
        0 <= j < ranges@.len() && #[trigger] ranges@[j].0 < i < ranges@[j].1
            implies !#[trigger] is_turn(steps@, i) by {
        if j < old_ranges.len() {
            assert(ranges@[j] == old_ranges[j]);
        }
    }
    ranges
}

} // verus!
