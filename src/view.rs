//! Rules of the trace viewer: which traces are shown and how densely.
use std::ops::Range;
use vstd::prelude::*;

verus! {

/// Total number of points drawn at once, over all shown traces.
pub const MAX_NUMB_OF_POINTS: usize = 100_000;

/// One trace as the viewer draws it.
#[derive(Clone, Debug)]
pub struct TracePlot<S> {
    pub trace: Vec<S>,
}

impl<S> TracePlot<S> {
    pub fn new(trace: Vec<S>) -> (r: Self)
        ensures
            r.trace@ == trace@,
    {
        TracePlot { trace }
    }
}

/// The share of a budget of `max_total` points that each of `shown` traces
/// may draw (a range of no trace counts as one).
pub fn points_per_trace(max_total: usize, shown: usize) -> (r: usize)
    ensures
        r == max_total / (if shown == 0 { 1 } else { shown }),
{
    if shown == 0 {
        max_total
    } else {
        max_total / shown
    }
}

/// Every how many points one is kept so that `total` points come down to
/// about `max_per_trace`.
pub fn downsample_step(total: usize, max_per_trace: usize) -> (r: usize)
    requires
        max_per_trace > 0,
    ensures
        r == (if total > max_per_trace { total / max_per_trace } else { 1 }),
        r >= 1,
{
    if total > max_per_trace {
        assert(total / max_per_trace >= 1) by (nonlinear_arith)
            requires
                total > max_per_trace,
                max_per_trace > 0,
        ;
        total / max_per_trace
    } else {
        1
    }
}

/// A request to change which traces are shown.
#[derive(PartialEq, Eq, Structural, Clone, Copy, Debug)]
pub enum RangeInput {
    /// Move the whole range one trace up (arrow up, or scrolling up).
    StepUp,
    /// Move the whole range one trace down (arrow down, or scrolling down).
    StepDown,
    /// Show one more trace at the end (scrolling up with the command key).
    Grow,
    /// Show one trace less at the end (scrolling down with the command key).
    Shrink,
    /// Let the range start at the given trace.
    PickStart(usize),
    /// Let the range end (exclusive) at the given count.
    PickEnd(usize),
}

/// `start <= end <= trace_count`.
pub open spec fn range_fits(r: Range<usize>, trace_count: int) -> bool {
    r.start <= r.end <= trace_count
}

/// An input the viewer can produce: a picked start names a trace, a picked
/// end lies in `1..=trace_count`.
pub open spec fn input_fits(input: RangeInput, trace_count: int) -> bool {
    match input {
        RangeInput::PickStart(i) => i < trace_count,
        RangeInput::PickEnd(e) => 1 <= e <= trace_count,
        _ => true,
    }
}

/// The range shown after `input`, as `(start, end)`.
pub open spec fn next_range(start: int, end: int, trace_count: int, input: RangeInput) -> (int, int) {
    match input {
        RangeInput::StepUp => if end < trace_count {
            (start + 1, end + 1)
        } else {
            (start, end)
        },
        RangeInput::StepDown => if start > 0 {
            (start - 1, end - 1)
        } else {
            (start, end)
        },
        RangeInput::Grow => if end < trace_count {
            (start, end + 1)
        } else {
            (start, end)
        },
        RangeInput::Shrink => if end > start + 1 {
            (start, end - 1)
        } else {
            (start, end)
        },
        RangeInput::PickStart(i) => if i > end {
            (i as int, i + 1)
        } else {
            (i as int, end)
        },
        RangeInput::PickEnd(e) => if e < start {
            (e - 1, e as int)
        } else {
            (start, e as int)
        },
    }
}

/// Applies one input to the range of shown traces.
pub fn next_plot_range(range: Range<usize>, trace_count: usize, input: RangeInput) -> (r: Range<usize>)
    requires
        range_fits(range, trace_count as int),
        input_fits(input, trace_count as int),
    ensures
        (r.start as int, r.end as int) == next_range(range.start as int, range.end as int, trace_count as int, input),
        range_fits(r, trace_count as int),
{
    let start = range.start;
    let end = range.end;
    match input {
        RangeInput::StepUp => if end < trace_count {
            start + 1..end + 1
        } else {
            start..end
        },
        RangeInput::StepDown => if start > 0 {
            start - 1..end - 1
        } else {
            start..end
        },
        RangeInput::Grow => if end < trace_count {
            start..end + 1
        } else {
            start..end
        },
        RangeInput::Shrink => if end - start > 1 {
            start..end - 1
        } else {
            start..end
        },
        RangeInput::PickStart(i) => if i > end {
            i..i + 1
        } else {
            i..end
        },
        RangeInput::PickEnd(e) => if e < start {
            e - 1..e
        } else {
            start..e
        },
    }
}

} // verus!
