//! Geometry of an alignment search: which candidate windows are scored.
//!
//! A reference window `[start, end)` of the target trace is compared against
//! same-length windows of every other trace.  Candidate windows are addressed
//! by their centre `c`; the window of `c` starts at `c - half`, where `half` is
//! the reference length divided by two, rounded up, and holds as many samples
//! as the reference window (for an even length that is `[c - half, c + half)`).
//!
//! Centres run from `max(start - max_distance + half, half)` to the reference
//! centre `start + half`, whose window is the reference window itself: a
//! candidate window never starts before sample 0, never ends after the
//! reference window, and slides at most `max_distance` samples.  For an even
//! length the reference centre is `end - half`.
use std::ops::Range;
use vstd::prelude::*;

verus! {

/// Half the length of a reference window, rounded up.
pub open spec fn half_of(len: int) -> int {
    (len + 1) / 2
}

/// The first candidate centre: `max(start - max_distance + half, half)`.
pub open spec fn first_center_of(start: int, end: int, max_distance: int) -> int {
    let half = half_of(end - start);
    if start - max_distance + half < half {
        half
    } else {
        start - max_distance + half
    }
}

/// The last candidate centre: the centre `start + half` of the reference window.
pub open spec fn last_center_of(start: int, end: int) -> int {
    start + half_of(end - start)
}

/// Why a search request is refused before any window is scored.
#[derive(PartialEq, Eq, Structural, Clone, Copy, Debug)]
pub enum SearchError {
    /// The trace set holds no trace.
    EmptyTraceSet,
    /// The target index names no trace of the set.
    TargetOutOfRange,
    /// The reference range holds no sample (`end <= start`).
    EmptyRange,
    /// The reference range ends past the end of the target trace.
    RangePastTraceEnd,
    /// `max_distance` is not below the length of the target trace.
    MaxDistanceTooLarge,
    /// Some trace holds fewer samples than the end of the reference range.
    TraceTooShort,
}

/// The text of each error.
pub open spec fn message_text(e: SearchError) -> Seq<char> {
    match e {
        SearchError::EmptyTraceSet => "the trace set is empty"@,
        SearchError::TargetOutOfRange => "the target trace index is out of range"@,
        SearchError::EmptyRange => "the reference range is empty"@,
        SearchError::RangePastTraceEnd => "the reference range ends past the target trace"@,
        SearchError::MaxDistanceTooLarge => "the maximum distance is not below the trace length"@,
        SearchError::TraceTooShort => "a trace is shorter than the reference range end"@,
    }
}

impl SearchError {
    /// A sentence that names the precondition that failed.
    pub fn message(&self) -> (r: String)
        ensures
            r@ == message_text(*self),
    {
        match self {
            SearchError::EmptyTraceSet => "the trace set is empty".to_string(),
            SearchError::TargetOutOfRange => "the target trace index is out of range".to_string(),
            SearchError::EmptyRange => "the reference range is empty".to_string(),
            SearchError::RangePastTraceEnd => "the reference range ends past the target trace".to_string(),
            SearchError::MaxDistanceTooLarge => "the maximum distance is not below the trace length".to_string(),
            SearchError::TraceTooShort => "a trace is shorter than the reference range end".to_string(),
        }
    }
}

/// The outcome of validating a search request over traces of lengths `lens`.
pub open spec fn request_error(
    lens: Seq<usize>,
    target: int,
    start: int,
    end: int,
    max_distance: int,
) -> Option<SearchError> {
    if lens.len() == 0 {
        Some(SearchError::EmptyTraceSet)
    } else if target >= lens.len() {
        Some(SearchError::TargetOutOfRange)
    } else if end <= start {
        Some(SearchError::EmptyRange)
    } else if end > lens[target] {
        Some(SearchError::RangePastTraceEnd)
    } else if max_distance >= lens[target] {
        Some(SearchError::MaxDistanceTooLarge)
    } else if exists|i: int| 0 <= i < lens.len() && lens[i] < end {
        Some(SearchError::TraceTooShort)
    } else {
        None
    }
}

/// The candidate windows of one search.
///
/// Candidate `k` (for `k < candidate_count()`) has centre `first_center + k`
/// and covers `[first_center + k - half, first_center + k - half + window_len)`.
#[derive(PartialEq, Eq, Structural, Clone, Copy, Debug)]
pub struct SearchPlan {
    /// Index of the trace the reference window is taken from.
    pub target: usize,
    /// Number of traces in the set.
    pub trace_count: usize,
    /// First sample of the reference window.
    pub reference_start: usize,
    /// Number of samples in the reference window and in every candidate window.
    pub window_len: usize,
    /// `ceil(window_len / 2)`.
    pub half: usize,
    /// Centre of the first candidate window.
    pub first_center: usize,
    /// Centre of the last candidate window.
    pub last_center: usize,
}

impl SearchPlan {
    /// The plan's fields agree with each other and every candidate window fits
    /// in `[0, reference_start + window_len)`.
    pub open spec fn wf(&self) -> bool {
        &&& self.target < self.trace_count
        &&& self.window_len > 0
        &&& self.half == half_of(self.window_len as int)
        &&& self.half <= self.first_center <= self.last_center
        &&& self.last_center == self.reference_start + self.half
        &&& self.reference_start + self.window_len <= i64::MAX
        &&& self.reference_start + self.window_len <= usize::MAX
    }

    pub open spec fn spec_candidate_count(&self) -> int {
        self.last_center - self.first_center + 1
    }

    /// Centre of the reference window itself.
    pub open spec fn reference_center(&self) -> int {
        self.reference_start + self.half
    }

    pub open spec fn center_of(&self, k: int) -> int {
        self.first_center + k
    }

    pub open spec fn window_start_of(&self, k: int) -> int {
        self.first_center + k - self.half
    }

    /// Signed offset, in samples, of candidate `k` from the reference window.
    pub open spec fn shift_of(&self, k: int) -> int {
        self.center_of(k) - self.reference_center()
    }

    /// The plan that `plan_search` builds for a valid request.
    pub open spec fn planned(lens: Seq<usize>, target: int, start: int, end: int, max_distance: int) -> SearchPlan {
        SearchPlan {
            target: target as usize,
            trace_count: lens.len() as usize,
            reference_start: start as usize,
            window_len: (end - start) as usize,
            half: half_of(end - start) as usize,
            first_center: first_center_of(start, end, max_distance) as usize,
            last_center: last_center_of(start, end) as usize,
        }
    }

    /// Number of candidate windows.
    pub fn candidate_count(&self) -> (r: usize)
        requires
            self.wf(),
        ensures
            r == self.spec_candidate_count(),
    {
        self.last_center - self.first_center + 1
    }

    /// Sample range covered by candidate `k`.
    pub fn candidate_window(&self, k: usize) -> (r: Range<usize>)
        requires
            self.wf(),
            k < self.spec_candidate_count(),
        ensures
            r.start == self.window_start_of(k as int),
            r.end == self.window_start_of(k as int) + self.window_len,
            r.end <= self.reference_start + self.window_len,
    {
        assert(2 * self.half >= self.window_len);
        let start = self.first_center + k - self.half;
        start..start + self.window_len
    }

    /// Signed offset of candidate `k` from the reference window.
    pub fn candidate_shift(&self, k: usize) -> (r: i64)
        requires
            self.wf(),
            k < self.spec_candidate_count(),
        ensures
            r == self.shift_of(k as int),
    {
        assert(self.half <= self.window_len);
        let center = self.first_center + k;
        let reference_center = self.reference_start + self.half;
        if center >= reference_center {
            (center - reference_center) as i64
        } else {
            -((reference_center - center) as i64)
        }
    }
}

/// Computes `ceil(len / 2)`.
pub fn half_window(len: usize) -> (r: usize)
    ensures
        r == half_of(len as int),
{
    len / 2 + len % 2
}

/// Validates a search request and lays out its candidate windows.
///
/// `lens[i]` is the number of samples of trace `i`.  On success the plan's
/// candidate centres are exactly `first_center_of(..) ..= last_center_of(..)`.
pub fn plan_search(
    lens: &Vec<usize>,
    target: usize,
    reference_range: Range<usize>,
    max_distance: usize,
) -> (r: Result<SearchPlan, SearchError>)
    requires
        forall|i: int| 0 <= i < lens.len() ==> lens[i] <= i64::MAX,
    ensures
        match r {
            Ok(plan) => {
                &&& request_error(lens@, target as int, reference_range.start as int, reference_range.end as int, max_distance as int) is None
                &&& plan == SearchPlan::planned(lens@, target as int, reference_range.start as int, reference_range.end as int, max_distance as int)
                &&& plan.wf()
            },
            Err(e) => request_error(lens@, target as int, reference_range.start as int, reference_range.end as int, max_distance as int) == Some(e),
        },
{
    let start = reference_range.start;
    let end = reference_range.end;
    if lens.len() == 0 {
        return Err(SearchError::EmptyTraceSet);
    }
    if target >= lens.len() {
        return Err(SearchError::TargetOutOfRange);
    }
    if end <= start {
        return Err(SearchError::EmptyRange);
    }
    if end > lens[target] {
        return Err(SearchError::RangePastTraceEnd);
    }
    if max_distance >= lens[target] {
        return Err(SearchError::MaxDistanceTooLarge);
    }
    let len = end - start;
    let half = half_window(len);
    let mut i: usize = 0;
    while i < lens.len()
        invariant
            i <= lens.len(),
            target < lens.len(),
            start == reference_range.start,
            end == reference_range.end,
            start < end <= lens[target as int],
            max_distance < lens[target as int],
            len == end - start,
            half == half_of(len as int),
            forall|j: int| 0 <= j < i ==> lens[j] >= end,
        decreases lens.len() - i,
    {
        if lens[i] < end {
            assert(lens@[i as int] < end);
            return Err(SearchError::TraceTooShort);
        }
        i += 1;
    }
    let first = if start >= max_distance {
        start - max_distance + half
    } else {
        half
    };
    Ok(SearchPlan {
        target,
        trace_count: lens.len(),
        reference_start: start,
        window_len: len,
        half,
        first_center: first,
        last_center: start + half,
    })
}

} // verus!
