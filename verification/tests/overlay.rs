use visualcoder::cursor::CursorSample;
use visualcoder::keyframes::Keyframe;
use visualcoder::overlay::{overlay_track, stride_within};
use visualcoder::pan::Axis;

fn sample(timestamp_ms: u64, x: i64, y: i64) -> CursorSample {
    CursorSample { timestamp_ms, x, y }
}

#[test]
fn stride_keeps_the_count_within_the_maximum() {
    assert_eq!(stride_within(0, 100), 1);
    assert_eq!(stride_within(100, 100), 1);
    assert_eq!(stride_within(101, 100), 2);
    assert_eq!(stride_within(199, 100), 2);
    assert_eq!(stride_within(200, 100), 2);
    assert_eq!(stride_within(201, 100), 3);
    assert_eq!(stride_within(1000, 100), 10);
    assert_eq!(stride_within(usize::MAX, 100), usize::MAX / 100 + 1);
    assert_eq!(stride_within(7, 1), 7);
}

#[test]
fn dense_logs_are_thinned_out_without_cutting_the_time_range() {
    for n in [101usize, 150, 199, 200, 201, 999, 1000, 1001, 12_345] {
        let log: Vec<CursorSample> =
            (0..n).map(|i| sample(i as u64 * 10, (i as i64 * 1_000_000) / n as i64, 500_000)).collect();
        let x = overlay_track(&log, 32, 1920, 0, Axis::Horizontal);
        let stride = stride_within(n, 100);
        assert!(x.len() <= 100);
        assert_eq!(x.len(), (n + stride - 1) / stride);
        // the first sample is kept
        assert_eq!(x.get(0).unwrap().t, 0);
        assert_eq!(x.value_at(0), x.get(0).unwrap().v);
        // the last keyframe lies less than one stride before the end of the log
        let last = x.get(x.len() - 1).unwrap();
        let last_index = (x.len() - 1) * stride;
        assert!(n - last_index <= stride);
        assert_eq!(last.t, log[last_index].timestamp_ms as i64 * 1000);
        let end = log[n - 1].timestamp_ms as i64 * 1000;
        assert!(end - last.t < stride as i64 * 10_000);
        assert_eq!(x.value_at(end), last.v);
    }
}

#[test]
fn sparse_logs_are_kept_whole() {
    let log: Vec<CursorSample> = (0..100).map(|i| sample(i * 50, 500_000, 250_000)).collect();
    let x = overlay_track(&log, 32, 1920, 0, Axis::Horizontal);
    assert_eq!(x.len(), 100);
    for i in 0..100 {
        assert_eq!(x.get(i), Some(Keyframe { t: i as i64 * 50_000, v: 944_000_000 }));
    }
    let y = overlay_track(&log, 32, 1080, 0, Axis::Vertical);
    assert_eq!(y.get(99), Some(Keyframe { t: 4_950_000, v: 254_000_000 }));
}

#[test]
fn overlay_positions_are_cursor_pixels_less_half_the_image_kept_in_the_video() {
    let log = vec![
        sample(0, 0, 0),
        sample(10, 1_000_000, 1_000_000),
        sample(20, 5_000, 990_000),
        sample(30, 250_000, 750_001),
        sample(40, -3_000_000, 9_000_000),
    ];
    let x = overlay_track(&log, 33, 1920, 0, Axis::Horizontal);
    let values: Vec<i64> = (0..5).map(|i| x.get(i).unwrap().v).collect();
    // half the image is 16.5 pixels
    assert_eq!(values, vec![0, 1_887_000_000, 0, 463_500_000, 0]);
    let y = overlay_track(&log, 33, 1080, 0, Axis::Vertical);
    let values: Vec<i64> = (0..5).map(|i| y.get(i).unwrap().v).collect();
    assert_eq!(values, vec![0, 1_047_000_000, 1_047_000_000, 793_501_080, 1_047_000_000]);
}

#[test]
fn image_larger_than_the_video_pins_the_overlay_to_the_upper_bound() {
    let log = vec![sample(0, 500_000, 500_000)];
    let x = overlay_track(&log, 100, 60, 0, Axis::Horizontal);
    assert_eq!(x.get(0), Some(Keyframe { t: 0, v: -40_000_000 }));
}

#[test]
fn samples_before_the_trim_start_are_dropped() {
    let log = vec![
        sample(0, 100_000, 0),
        sample(999, 200_000, 0),
        sample(1000, 300_000, 0),
        sample(1500, 400_000, 0),
    ];
    let x = overlay_track(&log, 0, 1000, 1_000_000, Axis::Horizontal);
    assert_eq!(x.len(), 2);
    assert_eq!(x.get(0), Some(Keyframe { t: 0, v: 300_000_000 }));
    assert_eq!(x.get(1), Some(Keyframe { t: 500_000, v: 400_000_000 }));
    assert_eq!(overlay_track(&log, 0, 1000, 2_000_000, Axis::Horizontal).len(), 0);
    assert_eq!(overlay_track(&Vec::new(), 0, 1000, 0, Axis::Horizontal).len(), 0);
}

#[test]
fn samples_that_do_not_advance_in_time_are_dropped() {
    let log = vec![sample(100, 1, 0), sample(100, 2, 0), sample(50, 3, 0), sample(101, 4, 0)];
    let x = overlay_track(&log, 0, 1_000_000, 0, Axis::Horizontal);
    assert_eq!(x.len(), 2);
    assert_eq!(x.get(0), Some(Keyframe { t: 100_000, v: 1_000_000 }));
    assert_eq!(x.get(1), Some(Keyframe { t: 101_000, v: 4_000_000 }));
    // times beyond the timeline's limit are dropped too
    let late = vec![sample(u64::MAX, 1, 0), sample(1_000_000_000_001, 1, 0)];
    assert_eq!(overlay_track(&late, 0, 1000, 0, Axis::Horizontal).len(), 0);
}
