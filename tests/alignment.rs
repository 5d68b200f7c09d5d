use sc_analysis::search::{collect_alignments, Alignment};
use sc_analysis::window::{half_window, plan_search, SearchError, SearchPlan};

fn plan(lens: &[usize], target: usize, range: std::ops::Range<usize>, max_distance: usize) -> SearchPlan {
    plan_search(&lens.to_vec(), target, range, max_distance).expect("valid request")
}

fn windows(p: &SearchPlan) -> Vec<(usize, usize)> {
    (0..p.candidate_count())
        .map(|k| {
            let w = p.candidate_window(k);
            (w.start, w.end)
        })
        .collect()
}

#[test]
fn half_window_rounds_up() {
    assert_eq!(half_window(0), 0);
    assert_eq!(half_window(1), 1);
    assert_eq!(half_window(4), 2);
    assert_eq!(half_window(5), 3);
    assert_eq!(half_window(125), 63);
}

#[test]
fn empty_trace_set_is_refused() {
    assert_eq!(plan_search(&vec![], 0, 0..1, 0), Err(SearchError::EmptyTraceSet));
}

#[test]
fn target_out_of_range_is_refused() {
    assert_eq!(plan_search(&vec![8, 8], 2, 2..6, 0), Err(SearchError::TargetOutOfRange));
}

#[test]
fn empty_range_is_refused() {
    assert_eq!(plan_search(&vec![8, 8], 0, 3..3, 0), Err(SearchError::EmptyRange));
    assert_eq!(plan_search(&vec![8, 8], 0, 5..3, 0), Err(SearchError::EmptyRange));
}

#[test]
fn range_past_trace_end_is_refused() {
    assert_eq!(plan_search(&vec![8, 8], 0, 2..9, 0), Err(SearchError::RangePastTraceEnd));
}

#[test]
fn max_distance_too_large_is_refused() {
    assert_eq!(plan_search(&vec![8, 8], 0, 2..6, 8), Err(SearchError::MaxDistanceTooLarge));
    assert!(plan_search(&vec![8, 8], 0, 2..6, 7).is_ok());
}

#[test]
fn odd_window_at_trace_start_is_searched() {
    let p = plan(&[8, 8, 8], 0, 0..3, 0);
    assert_eq!(p.candidate_count(), 1);
    assert_eq!(windows(&p), vec![(0, 3)]);
    assert_eq!(p.candidate_shift(0), 0);
    let p = plan(&[8, 8], 0, 0..3, 1);
    assert_eq!(windows(&p), vec![(0, 3)]);
}

#[test]
fn short_trace_is_refused() {
    assert_eq!(plan_search(&vec![8, 5, 8], 0, 2..6, 0), Err(SearchError::TraceTooShort));
    assert!(plan_search(&vec![8, 6, 8], 0, 2..6, 0).is_ok());
}

#[test]
fn error_messages_name_the_failed_check() {
    let all = [
        SearchError::EmptyTraceSet,
        SearchError::TargetOutOfRange,
        SearchError::EmptyRange,
        SearchError::RangePastTraceEnd,
        SearchError::MaxDistanceTooLarge,
        SearchError::TraceTooShort,
    ];
    let messages: Vec<String> = all.iter().map(|e| e.message()).collect();
    for (i, a) in messages.iter().enumerate() {
        assert!(!a.is_empty());
        for b in &messages[i + 1..] {
            assert_ne!(a, b);
        }
    }
    assert_eq!(SearchError::EmptyRange.message(), "the reference range is empty");
}

#[test]
fn plan_fields_follow_the_centre_formula() {
    // start 10, end 20, half 5: centres max(10 - 3 + 5, 5) ..= 10 + 5
    let p = plan(&[40, 40], 1, 10..20, 3);
    assert_eq!(p.target, 1);
    assert_eq!(p.trace_count, 2);
    assert_eq!(p.reference_start, 10);
    assert_eq!(p.window_len, 10);
    assert_eq!(p.half, 5);
    assert_eq!(p.first_center, 12);
    assert_eq!(p.last_center, 15);
    assert_eq!(p.candidate_count(), 4);
    assert_eq!(windows(&p), vec![(7, 17), (8, 18), (9, 19), (10, 20)]);
    let shifts: Vec<i64> = (0..4).map(|k| p.candidate_shift(k)).collect();
    assert_eq!(shifts, vec![-3, -2, -1, 0]);
}

#[test]
fn candidates_never_leave_the_trace_start() {
    // start - max_distance would be negative: the first centre is half.
    let p = plan(&[20, 20], 0, 3..7, 10);
    assert_eq!(p.first_center, 2);
    assert_eq!(p.last_center, 5);
    assert_eq!(windows(&p), vec![(0, 4), (1, 5), (2, 6), (3, 7)]);
}

#[test]
fn zero_distance_gives_the_reference_window_only() {
    let p = plan(&[8, 8, 8], 0, 2..6, 0);
    assert_eq!(p.candidate_count(), 1);
    assert_eq!(windows(&p), vec![(2, 6)]);
    assert_eq!(p.candidate_shift(0), 0);
}

#[test]
fn zero_distance_odd_length_keeps_the_reference_window() {
    let p = plan(&[9, 9], 0, 2..7, 0);
    assert_eq!(p.candidate_count(), 1);
    assert_eq!(p.half, 3);
    assert_eq!(windows(&p), vec![(2, 7)]);
    assert_eq!(p.candidate_shift(0), 0);
}

#[test]
fn odd_length_slides_earlier_up_to_max_distance() {
    // start 3, length 5, half 3: centres from 6 - 2 = 4 to 6.
    let p = plan(&[12, 12], 1, 3..8, 2);
    assert_eq!(windows(&p), vec![(1, 6), (2, 7), (3, 8)]);
    let shifts: Vec<i64> = (0..3).map(|k| p.candidate_shift(k)).collect();
    assert_eq!(shifts, vec![-2, -1, 0]);
}

#[test]
fn three_ramps_match_at_the_reference_position() {
    // Three traces of 8 samples, reference 2..6 of trace 0, no slide: one
    // candidate, at which traces 1 and 2 clear the threshold.
    let p = plan(&[8, 8, 8], 0, 2..6, 0);
    let accepted = vec![vec![true, true, true]];
    let r = collect_alignments(&p, &accepted);
    assert_eq!(
        r,
        vec![
            Alignment { trace_index: 1, shift: 0, candidate: 0 },
            Alignment { trace_index: 2, shift: 0, candidate: 0 },
        ]
    );
}

#[test]
fn shifted_trace_is_found_only_with_a_slide() {
    // Trace 1 runs 2 samples ahead of trace 0; reference 4..8 of trace 0.
    let wide = plan(&[12, 12], 0, 4..8, 4);
    assert_eq!(windows(&wide), vec![(0, 4), (1, 5), (2, 6), (3, 7), (4, 8)]);
    // Only the window 2..6 of trace 1 holds the reference pattern.
    let accepted: Vec<Vec<bool>> = (0..wide.candidate_count())
        .map(|k| vec![false, wide.candidate_window(k).start == 2])
        .collect();
    let r = collect_alignments(&wide, &accepted);
    assert_eq!(r, vec![Alignment { trace_index: 1, shift: -2, candidate: 2 }]);

    let narrow = plan(&[12, 12], 0, 4..8, 0);
    assert_eq!(windows(&narrow), vec![(4, 8)]);
    let r = collect_alignments(&narrow, &vec![vec![false, false]]);
    assert!(r.is_empty());
}

#[test]
fn target_is_never_reported() {
    let p = plan(&[10, 10, 10], 1, 4..8, 2);
    let accepted = vec![vec![true; 3]; p.candidate_count()];
    let r = collect_alignments(&p, &accepted);
    assert!(r.iter().all(|a| a.trace_index != 1));
    assert_eq!(r.len(), 2 * p.candidate_count());
}

#[test]
fn results_ascend_by_trace_then_candidate() {
    let p = plan(&[10, 10, 10, 10], 0, 4..8, 2);
    assert_eq!(p.candidate_count(), 3);
    let accepted = vec![
        vec![false, true, false, true],
        vec![true, false, true, true],
        vec![false, true, true, false],
    ];
    let r = collect_alignments(&p, &accepted);
    let pairs: Vec<(usize, usize, i64)> = r.iter().map(|a| (a.trace_index, a.candidate, a.shift)).collect();
    assert_eq!(pairs, vec![(1, 0, -2), (1, 2, 0), (2, 1, -1), (2, 2, 0), (3, 0, -2), (3, 1, -1)]);
}

#[test]
fn repeated_collection_is_identical() {
    let p = plan(&[10, 10, 10], 2, 2..8, 1);
    let accepted = vec![vec![true, false, true], vec![true, true, false]];
    let a = collect_alignments(&p, &accepted);
    let b = collect_alignments(&p, &accepted);
    assert_eq!(a, b);
}

#[test]
fn zero_distance_gives_one_entry_per_trace() {
    let p = plan(&[6, 6, 6, 6], 3, 1..5, 0);
    let r = collect_alignments(&p, &vec![vec![true; 4]]);
    let traces: Vec<usize> = r.iter().map(|a| a.trace_index).collect();
    assert_eq!(traces, vec![0, 1, 2]);
}

#[test]
fn nothing_accepted_gives_nothing() {
    let p = plan(&[10, 10], 0, 4..8, 3);
    let accepted = vec![vec![false, false]; p.candidate_count()];
    assert!(collect_alignments(&p, &accepted).is_empty());
}
