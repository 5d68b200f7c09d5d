//! Assembling the result of an alignment search.
//!
//! Once every candidate window of a [`SearchPlan`] has been scored against
//! every trace, `accepted[k][i]` tells whether trace `i` cleared the
//! correlation threshold at candidate `k`.  The result lists every such
//! `(trace, candidate)` pair except those of the target trace, ascending by
//! trace index and, within one trace, by candidate.
use crate::window::{request_error, SearchPlan};
use vstd::prelude::*;

verus! {

/// One reported match: trace `trace_index` cleared the threshold at candidate
/// `candidate`, whose centre lies `shift` samples from the reference centre.
#[derive(PartialEq, Eq, Structural, Clone, Copy, Debug)]
pub struct Alignment {
    pub trace_index: usize,
    pub shift: i64,
    pub candidate: usize,
}

/// The entry reported for trace `i` at candidate `k`.
pub open spec fn entry_of(plan: SearchPlan, i: int, k: int) -> Alignment {
    Alignment { trace_index: i as usize, shift: plan.shift_of(k) as i64, candidate: k as usize }
}

/// Entries of trace `i` among candidates `0..k`, in candidate order.
pub open spec fn trace_matches(plan: SearchPlan, accepted: Seq<Seq<bool>>, i: int, k: int) -> Seq<
    Alignment,
>
    decreases k,
{
    if k <= 0 {
        seq![]
    } else {
        let prev = trace_matches(plan, accepted, i, k - 1);
        if accepted[k - 1][i] {
            prev.push(entry_of(plan, i, k - 1))
        } else {
            prev
        }
    }
}

/// Entries of the traces `0..n` other than the target, ascending by trace.
pub open spec fn matches_upto(plan: SearchPlan, accepted: Seq<Seq<bool>>, n: int) -> Seq<Alignment>
    decreases n,
{
    if n <= 0 {
        seq![]
    } else {
        let prev = matches_upto(plan, accepted, n - 1);
        if n - 1 == plan.target {
            prev
        } else {
            prev + trace_matches(plan, accepted, n - 1, plan.spec_candidate_count())
        }
    }
}

/// The complete result of a search.
pub open spec fn alignments(plan: SearchPlan, accepted: Seq<Seq<bool>>) -> Seq<Alignment> {
    matches_upto(plan, accepted, plan.trace_count as int)
}

/// `accepted` holds one outcome per candidate of `plan` and per trace.
pub open spec fn outcomes_fit(plan: SearchPlan, accepted: Seq<Seq<bool>>) -> bool {
    &&& accepted.len() == plan.spec_candidate_count()
    &&& forall|k: int| 0 <= k < accepted.len() ==> #[trigger] accepted[k].len() == plan.trace_count
}

/// Lists the matches of a search, ascending by trace index and then by candidate.
pub fn collect_alignments(plan: &SearchPlan, accepted: &Vec<Vec<bool>>) -> (r: Vec<Alignment>)
    requires
        plan.wf(),
        outcomes_fit(*plan, accepted.deep_view()),
    ensures
        r@ == alignments(*plan, accepted.deep_view()),
{
    let ghost acc = accepted.deep_view();
    let count = plan.candidate_count();
    let mut out: Vec<Alignment> = Vec::new();
    let mut i: usize = 0;
    while i < plan.trace_count
        invariant
            plan.wf(),
            outcomes_fit(*plan, acc),
            acc == accepted.deep_view(),
            count == plan.spec_candidate_count(),
            i <= plan.trace_count,
            out@ == matches_upto(*plan, acc, i as int),
        decreases plan.trace_count - i,
    {
        if i != plan.target {
            let ghost before = out@;
            let mut k: usize = 0;
            while k < count
                invariant
                    plan.wf(),
                    outcomes_fit(*plan, acc),
                    acc == accepted.deep_view(),
                    count == plan.spec_candidate_count(),
                    i < plan.trace_count,
                    k <= count,
                    out@ == before + trace_matches(*plan, acc, i as int, k as int),
                decreases count - k,
            {
                assert(acc[k as int].len() == plan.trace_count);
                assert(acc[k as int] == accepted@[k as int]@);
                if accepted[k][i] {
                    let shift = plan.candidate_shift(k);
                    out.push(Alignment { trace_index: i, shift, candidate: k });
                    assert(out@ =~= before + trace_matches(*plan, acc, i as int, (k + 1) as int));
                }
                k += 1;
            }
        }
        i += 1;
    }
    out
}

/// `a` comes before `b`: by trace index, then by candidate.
pub open spec fn precedes(a: Alignment, b: Alignment) -> bool {
    a.trace_index < b.trace_index || (a.trace_index == b.trace_index && a.candidate < b.candidate)
}

proof fn lemma_trace_matches_shape(plan: SearchPlan, accepted: Seq<Seq<bool>>, i: int, k: int)
    requires
        plan.wf(),
        0 <= i < plan.trace_count,
        0 <= k <= plan.spec_candidate_count(),
    ensures
        forall|j: int|
            #![trigger trace_matches(plan, accepted, i, k)[j]]
            0 <= j < trace_matches(plan, accepted, i, k).len() ==> {
                &&& trace_matches(plan, accepted, i, k)[j].trace_index == i
                &&& trace_matches(plan, accepted, i, k)[j].candidate < k
            },
        forall|j1: int, j2: int|
            #![trigger trace_matches(plan, accepted, i, k)[j1], trace_matches(plan, accepted, i, k)[j2]]
            0 <= j1 < j2 < trace_matches(plan, accepted, i, k).len() ==> trace_matches(
                plan,
                accepted,
                i,
                k,
            )[j1].candidate < trace_matches(plan, accepted, i, k)[j2].candidate,
    decreases k,
{
    if k > 0 {
        lemma_trace_matches_shape(plan, accepted, i, k - 1);
        let prev = trace_matches(plan, accepted, i, k - 1);
        let t = trace_matches(plan, accepted, i, k);
        if accepted[k - 1][i] {
            let e = entry_of(plan, i, k - 1);
            assert(plan.first_center >= 1);
            assert(e.trace_index == i && e.candidate == k - 1);
            assert(t == prev.push(e));
            assert forall|j: int| #![trigger t[j]] 0 <= j < t.len() implies {
                &&& t[j].trace_index == i
                &&& t[j].candidate < k
            } by {
                if j < prev.len() {
                    assert(t[j] == prev[j]);
                    assert(prev[j].trace_index == i);
                } else {
                    assert(t[j] == e);
                }
            }
            assert forall|j1: int, j2: int| #![trigger t[j1], t[j2]] 0 <= j1 < j2 < t.len() implies t[j1].candidate
                < t[j2].candidate by {
                assert(t[j1] == prev[j1]);
                assert(prev[j1].candidate < k - 1);
                if j2 < prev.len() {
                    assert(t[j2] == prev[j2]);
                    assert(prev[j1].candidate < prev[j2].candidate);
                } else {
                    assert(t[j2] == e);
                }
            }
        } else {
            assert(t == prev);
        }
    }
}

proof fn lemma_matches_upto_shape(plan: SearchPlan, accepted: Seq<Seq<bool>>, n: int)
    requires
        plan.wf(),
        0 <= n <= plan.trace_count,
    ensures
        forall|j: int|
            #![trigger matches_upto(plan, accepted, n)[j]]
            0 <= j < matches_upto(plan, accepted, n).len() ==> {
                &&& matches_upto(plan, accepted, n)[j].trace_index < n
                &&& matches_upto(plan, accepted, n)[j].trace_index != plan.target
                &&& matches_upto(plan, accepted, n)[j].candidate < plan.spec_candidate_count()
            },
        forall|j1: int, j2: int|
            0 <= j1 < j2 < matches_upto(plan, accepted, n).len() ==> precedes(
                #[trigger] matches_upto(plan, accepted, n)[j1],
                #[trigger] matches_upto(plan, accepted, n)[j2],
            ),
    decreases n,
{
    if n > 0 {
        lemma_matches_upto_shape(plan, accepted, n - 1);
        if n - 1 != plan.target {
            lemma_trace_matches_shape(plan, accepted, n - 1, plan.spec_candidate_count());
            let prev = matches_upto(plan, accepted, n - 1);
            let tail = trace_matches(plan, accepted, n - 1, plan.spec_candidate_count());
            assert(matches_upto(plan, accepted, n) == prev + tail);
            assert forall|j: int| #![trigger (prev + tail)[j]] 0 <= j < (prev + tail).len() implies {
                &&& (prev + tail)[j].trace_index < n
                &&& (prev + tail)[j].trace_index != plan.target
                &&& (prev + tail)[j].candidate < plan.spec_candidate_count()
            } by {
                if j >= prev.len() {
                    assert((prev + tail)[j] == tail[j - prev.len()]);
                } else {
                    assert((prev + tail)[j] == prev[j]);
                }
            }
            assert forall|j1: int, j2: int| 0 <= j1 < j2 < (prev + tail).len() implies precedes(
                #[trigger] (prev + tail)[j1],
                #[trigger] (prev + tail)[j2],
            ) by {
                if j2 >= prev.len() {
                    assert((prev + tail)[j2] == tail[j2 - prev.len()]);
                    if j1 >= prev.len() {
                        assert((prev + tail)[j1] == tail[j1 - prev.len()]);
                    } else {
                        assert((prev + tail)[j1] == prev[j1]);
                    }
                } else {
                    assert((prev + tail)[j1] == prev[j1]);
                    assert((prev + tail)[j2] == prev[j2]);
                }
            }
        } else {
            assert(matches_upto(plan, accepted, n) == matches_upto(plan, accepted, n - 1));
        }
    }
}

proof fn lemma_trace_matches_members(plan: SearchPlan, accepted: Seq<Seq<bool>>, i: int, k: int, i2: int, k2: int)
    requires
        plan.wf(),
        0 <= i < plan.trace_count,
        0 <= k <= plan.spec_candidate_count(),
        0 <= i2 < plan.trace_count,
        0 <= k2 < plan.spec_candidate_count(),
    ensures
        trace_matches(plan, accepted, i, k).contains(entry_of(plan, i2, k2)) <==> (i2 == i && k2 < k
            && accepted[k2][i]),
    decreases k,
{
    let e = entry_of(plan, i2, k2);
    assert(plan.first_center >= 1);
    if k > 0 {
        lemma_trace_matches_members(plan, accepted, i, k - 1, i2, k2);
        let prev = trace_matches(plan, accepted, i, k - 1);
        if accepted[k - 1][i] {
            let t = prev.push(entry_of(plan, i, k - 1));
            assert(t[prev.len() as int] == entry_of(plan, i, k - 1));
            if prev.contains(e) {
                let j = choose|j: int| 0 <= j < prev.len() && prev[j] == e;
                assert(t[j] == e);
            }
            if t.contains(e) {
                let j = choose|j: int| 0 <= j < t.len() && t[j] == e;
                if j < prev.len() {
                    assert(prev[j] == e);
                }
            }
        }
    }
}

proof fn lemma_matches_upto_members(plan: SearchPlan, accepted: Seq<Seq<bool>>, n: int, i2: int, k2: int)
    requires
        plan.wf(),
        0 <= n <= plan.trace_count,
        0 <= i2 < plan.trace_count,
        0 <= k2 < plan.spec_candidate_count(),
    ensures
        matches_upto(plan, accepted, n).contains(entry_of(plan, i2, k2)) <==> (i2 < n && i2
            != plan.target && accepted[k2][i2]),
    decreases n,
{
    let e = entry_of(plan, i2, k2);
    if n > 0 {
        lemma_matches_upto_members(plan, accepted, n - 1, i2, k2);
        if n - 1 != plan.target {
            lemma_trace_matches_members(plan, accepted, n - 1, plan.spec_candidate_count(), i2, k2);
            let prev = matches_upto(plan, accepted, n - 1);
            let tail = trace_matches(plan, accepted, n - 1, plan.spec_candidate_count());
            let all = prev + tail;
            if prev.contains(e) {
                let j = choose|j: int| 0 <= j < prev.len() && prev[j] == e;
                assert(all[j] == e);
            }
            if tail.contains(e) {
                let j = choose|j: int| 0 <= j < tail.len() && tail[j] == e;
                assert(all[prev.len() + j] == e);
            }
            if all.contains(e) {
                let j = choose|j: int| 0 <= j < all.len() && all[j] == e;
                if j < prev.len() {
                    assert(prev[j] == e);
                } else {
                    assert(tail[j - prev.len()] == e);
                }
            }
        }
    }
}

/// A search result reports trace `i` at candidate `k` exactly when `i` is not
/// the target and trace `i` cleared the threshold at candidate `k`.
pub proof fn lemma_alignments_complete(plan: SearchPlan, accepted: Seq<Seq<bool>>, i: int, k: int)
    requires
        plan.wf(),
        0 <= i < plan.trace_count,
        0 <= k < plan.spec_candidate_count(),
    ensures
        alignments(plan, accepted).contains(entry_of(plan, i, k)) <==> (i != plan.target
            && accepted[k][i]),
{
    lemma_matches_upto_members(plan, accepted, plan.trace_count as int, i, k);
}

/// No entry of a search result belongs to the target trace: the reference
/// window is never reported as a match of itself.
pub proof fn lemma_target_never_reported(plan: SearchPlan, accepted: Seq<Seq<bool>>)
    requires
        plan.wf(),
    ensures
        forall|j: int|
            #![trigger alignments(plan, accepted)[j]]
            0 <= j < alignments(plan, accepted).len() ==> alignments(plan, accepted)[j].trace_index
                != plan.target,
{
    lemma_matches_upto_shape(plan, accepted, plan.trace_count as int);
}

/// A search result is strictly ordered, ascending by trace index and, within
/// one trace, by candidate; so it does not depend on the order in which the
/// candidates were scored, and every entry names a trace and a candidate of
/// the plan.
pub proof fn lemma_alignments_ordered(plan: SearchPlan, accepted: Seq<Seq<bool>>)
    requires
        plan.wf(),
    ensures
        forall|j1: int, j2: int|
            0 <= j1 < j2 < alignments(plan, accepted).len() ==> precedes(
                #[trigger] alignments(plan, accepted)[j1],
                #[trigger] alignments(plan, accepted)[j2],
            ),
        forall|j: int|
            #![trigger alignments(plan, accepted)[j]]
            0 <= j < alignments(plan, accepted).len() ==> {
                &&& alignments(plan, accepted)[j].trace_index < plan.trace_count
                &&& alignments(plan, accepted)[j].candidate < plan.spec_candidate_count()
            },
{
    lemma_matches_upto_shape(plan, accepted, plan.trace_count as int);
}

/// With `max_distance == 0` a valid request has exactly one candidate window,
/// the reference window itself (shift 0), so the result holds at most one
/// entry per trace.
pub proof fn lemma_zero_distance_one_entry_per_trace(
    lens: Seq<usize>,
    target: nat,
    start: nat,
    end: nat,
    accepted: Seq<Seq<bool>>,
)
    requires
        request_error(lens, target as int, start as int, end as int, 0) is None,
        lens.len() <= usize::MAX,
        forall|i: int| 0 <= i < lens.len() ==> lens[i] <= i64::MAX,
    ensures
        SearchPlan::planned(lens, target as int, start as int, end as int, 0).spec_candidate_count() == 1,
        SearchPlan::planned(lens, target as int, start as int, end as int, 0).window_start_of(0) == start,
        SearchPlan::planned(lens, target as int, start as int, end as int, 0).shift_of(0) == 0,
        ({
            let r = alignments(SearchPlan::planned(lens, target as int, start as int, end as int, 0), accepted);
            forall|j1: int, j2: int|
                0 <= j1 < j2 < r.len() ==> #[trigger] r[j1].trace_index != #[trigger] r[j2].trace_index
        }),
{
    let plan = SearchPlan::planned(lens, target as int, start as int, end as int, 0);
    assert(lens[target as int] <= i64::MAX);
    assert(plan.wf());
    lemma_alignments_ordered(plan, accepted);
}

} // verus!
