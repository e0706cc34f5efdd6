use anatro_rs::domain::matcher::{count_ones, SlidingWindowMatcher, CHROMAPRINT_HOP_SAMPLES};
use anatro_rs::domain::traits::FingerprintMatcher;

#[test]
fn test_exact_match() {
    let matcher = SlidingWindowMatcher::new();
    let target = vec![1, 2, 3, 4, 5, 6, 7];
    let reference = vec![3, 4, 5];

    let idx = matcher.find_match(&reference, &target, 0);
    assert_eq!(idx, Some(2));
}

#[test]
fn test_partial_match_within_threshold() {
    let matcher = SlidingWindowMatcher::new();
    // 5 in binary is 0101, 4 is 0100 (distance = 1)
    let target = vec![1, 2, 5, 8, 9];
    let reference = vec![2, 4, 8];

    // The window [2, 5, 8] differs from [2, 4, 8] in one bit.
    let idx = matcher.find_match(&reference, &target, 1);
    assert_eq!(idx, Some(1));
}

#[test]
fn test_rejected_by_threshold() {
    let matcher = SlidingWindowMatcher::new();
    let target = vec![1, 2, 5, 8, 9];
    let reference = vec![2, 4, 8];

    // Total error is 1, but threshold is 0.
    let idx = matcher.find_match(&reference, &target, 0);
    assert_eq!(idx, None);
}

#[test]
fn test_invalid_lengths() {
    let matcher = SlidingWindowMatcher::new();
    let target = vec![1, 2];
    let reference = vec![1, 2, 3];

    assert_eq!(matcher.find_match(&reference, &target, 10), None);
    assert_eq!(matcher.find_match(&[], &target, 10), None);
}

#[test]
fn first_of_equal_windows_wins() {
    let matcher = SlidingWindowMatcher::new();
    let target = vec![7, 1, 7, 1, 7];
    let reference = vec![7, 1];
    assert_eq!(matcher.find_match(&reference, &target, 0), Some(0));
}

#[test]
fn least_error_window_is_chosen() {
    let matcher = SlidingWindowMatcher::new();
    // Window 0 differs in 3 bits (0 vs 7), window 2 in 1 bit (6 vs 7).
    let target = vec![0, 9, 6, 9];
    let reference = vec![7, 9];
    assert_eq!(matcher.find_match(&reference, &target, 5), Some(2));
    assert_eq!(matcher.find_match(&reference, &target, 0), None);
}

#[test]
fn raising_the_threshold_keeps_the_match() {
    let matcher = SlidingWindowMatcher::new();
    let target = vec![1, 2, 5, 8, 9];
    let reference = vec![2, 4, 8];
    for t in 1..40 {
        assert_eq!(matcher.find_match(&reference, &target, t), Some(1));
    }
}

#[test]
fn reference_cut_from_target_is_found_with_zero_threshold() {
    let matcher = SlidingWindowMatcher::new();
    let target: Vec<u32> = (0..50u32).map(|i| i.wrapping_mul(2654435761)).collect();
    let reference = target[17..29].to_vec();
    assert_eq!(matcher.find_match(&reference, &target, 0), Some(17));
}

#[test]
fn whole_target_as_reference() {
    let matcher = SlidingWindowMatcher::new();
    let target = vec![3, 1, 4];
    assert_eq!(matcher.find_match(&target, &target, 0), Some(0));
    assert_eq!(matcher.find_match(&[1], &[], 10), None);
}

#[test]
fn count_ones_matches_std() {
    for x in [0u32, 1, 2, 3, 0xff, 0x8000_0000, u32::MAX, 0x1234_5678] {
        assert_eq!(count_ones(x), x.count_ones());
    }
}

#[test]
fn hop_size_is_a_third_of_the_frame() {
    assert_eq!(CHROMAPRINT_HOP_SAMPLES, 4096 / 3);
}
