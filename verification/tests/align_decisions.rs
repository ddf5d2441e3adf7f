use tineplayer::align::{correlation_length, decide, envelope_frames, frame_samples, lag_from_peak, median, millis_of_lag, Decision};

#[test]
fn a_frame_is_ten_milliseconds() {
    assert_eq!(frame_samples(8000), 80);
    assert_eq!(frame_samples(48000), 480);
    assert_eq!(frame_samples(50), 1);
    assert_eq!(envelope_frames(8000, 8000), 100);
    assert_eq!(envelope_frames(8001, 8000), 101);
    assert_eq!(envelope_frames(100, 0), 0);
}

#[test]
fn the_correlation_is_the_next_power_of_two() {
    assert_eq!(correlation_length(1, 10), None);
    assert_eq!(correlation_length(10, 1), None);
    assert_eq!(correlation_length(2, 2), Some(4));
    assert_eq!(correlation_length(3, 2), Some(8));
    assert_eq!(correlation_length(100, 100), Some(256));
}

#[test]
fn a_peak_reads_as_a_signed_lag() {
    assert_eq!(lag_from_peak(0, 16), 0);
    assert_eq!(lag_from_peak(3, 16), -3);
    assert_eq!(lag_from_peak(8, 16), -8);
    assert_eq!(lag_from_peak(13, 16), 3);
    assert_eq!(millis_of_lag(-25), -250);
}

#[test]
fn the_middle_of_the_windows_is_the_answer() {
    assert_eq!(median(&vec![5, 1, 3]), 3);
    assert_eq!(median(&vec![4, 1, 3, 2]), 3);
    assert_eq!(decide(&vec![50, 52, 51], true), Decision::Offset { lag_frames: 51 });
}

#[test]
fn disagreeing_windows_are_a_rate_difference_or_nothing() {
    assert_eq!(
        decide(&vec![10, 40, 70], true),
        Decision::RateMismatch { first_lag: 10, last_lag: 70 }
    );
    assert_eq!(decide(&vec![10, 40, 70], false), Decision::Unsure);
    assert_eq!(decide(&vec![10], true), Decision::Unsure);
    assert_eq!(decide(&vec![], true), Decision::Unsure);
    // Exactly a fifth of a second apart still agrees.
    assert_eq!(decide(&vec![0, 20], true), Decision::Offset { lag_frames: 20 });
    assert_eq!(decide(&vec![0, 21], false), Decision::Unsure);
}

/// Nothing to correlate is not an answer: an envelope too short has no
/// correlation at all, and a rate of zero has no envelope.
#[test]
fn nothing_to_correlate_is_not_an_answer() {
    let empty: [f32; 0] = [];
    assert!(correlation_length(empty.len(), [1.0f32, 2.0].len()).is_none());
    assert!(correlation_length([1.0f32].len(), [1.0f32].len()).is_none());
    assert_eq!(envelope_frames([0.1f32, 0.2].len(), 0), 0);
}
