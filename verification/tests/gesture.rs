use visualcoder::coords::CaptureTarget;
use visualcoder::cursor::CursorSample;
use visualcoder::gesture::{ClickEvent, Gesture, GestureDetector};

fn detector() -> GestureDetector {
    let mut d = GestureDetector::new(CaptureTarget::monitor(1000, 1000).unwrap());
    d.begin();
    d
}

fn event(timestamp_ms: u64, x: i64, y: i64) -> ClickEvent {
    ClickEvent { timestamp_ms, x, y, gesture: Gesture::TripleClick }
}

#[test]
fn triple_click_is_logged_once_and_held_back_during_cooldown() {
    let mut d = detector();
    assert!(!d.on_press(0, 500, 500));
    assert!(!d.on_press(200, 500, 500));
    assert!(d.on_press(300, 500, 500));
    assert_eq!(d.clicks(), &vec![event(300, 500_000, 500_000)]);
    // a fourth click within the cooldown
    assert!(!d.on_press(500, 500, 500));
    assert_eq!(d.clicks().len(), 1);
    // past the cooldown, a fresh triple
    assert!(!d.on_press(3400, 500, 500));
    assert!(!d.on_press(3500, 500, 500));
    assert!(d.on_press(3600, 500, 500));
    assert_eq!(
        d.clicks(),
        &vec![event(300, 500_000, 500_000), event(3600, 500_000, 500_000)]
    );
}

#[test]
fn triple_within_cooldown_is_discarded() {
    let mut d = detector();
    d.on_press(0, 10, 10);
    d.on_press(100, 10, 10);
    assert!(d.on_press(200, 10, 10));
    assert!(!d.on_press(1000, 10, 10));
    assert!(!d.on_press(1100, 10, 10));
    assert!(!d.on_press(1200, 10, 10));
    assert!(!d.on_press(3200, 10, 10));
    assert_eq!(d.clicks().len(), 1);
    // past the cooldown; the clicks at 3200, 3401 and 3500 make the next triple
    assert!(!d.on_press(3401, 10, 10));
    assert!(d.on_press(3500, 10, 10));
    assert_eq!(d.clicks().len(), 2);
}

#[test]
fn cooldown_ends_strictly_after_three_seconds() {
    let mut d = detector();
    d.on_press(0, 10, 10);
    d.on_press(100, 10, 10);
    assert!(d.on_press(200, 10, 10));
    d.on_press(2900, 10, 10);
    d.on_press(3000, 10, 10);
    // exactly 3000 ms after the trigger: still cooling
    assert!(!d.on_press(3200, 10, 10));
    // the history now holds 3000 and 3200; one millisecond later the cooldown is over
    assert!(d.on_press(3201, 10, 10));
}

#[test]
fn slow_clicks_do_not_make_a_triple() {
    let mut d = detector();
    d.on_press(0, 10, 10);
    d.on_press(400, 10, 10);
    // 801 ms from the first to the third
    assert!(!d.on_press(801, 10, 10));
    assert!(d.clicks().is_empty());
    let mut e = detector();
    e.on_press(0, 10, 10);
    e.on_press(100, 10, 10);
    // 401 ms from the second to the third
    assert!(!e.on_press(501, 10, 10));
    // the clicks at 100, 501 and 600 are close enough in time
    assert!(e.on_press(600, 10, 10));
    assert_eq!(e.clicks(), &vec![event(600, 10_000, 10_000)]);
}

#[test]
fn triple_at_the_limits_of_time_qualifies() {
    let mut d = detector();
    d.on_press(0, 10, 10);
    d.on_press(400, 10, 10);
    assert!(d.on_press(800, 10, 10));
}

#[test]
fn scattered_clicks_do_not_make_a_triple() {
    let mut d = detector();
    d.on_press(0, 100, 100);
    d.on_press(100, 100, 100);
    // 51 pixels of a thousand away: beyond the radius of 0.05
    assert!(!d.on_press(200, 151, 100));
    let mut e = detector();
    e.on_press(0, 100, 100);
    e.on_press(100, 130, 140);
    // each pair exactly 50 pixels of a thousand apart, or less
    assert!(e.on_press(200, 100, 150));
    assert_eq!(e.clicks(), &vec![event(200, 100_000, 150_000)]);
}

#[test]
fn clicks_outside_the_target_are_ignored() {
    let mut d = detector();
    d.on_press(0, 10, 10);
    d.on_press(100, 10, 10);
    assert!(!d.on_press(150, 1001, 10));
    assert!(!d.on_press(160, -1, 10));
    assert!(d.on_press(200, 10, 10));
}

#[test]
fn cursor_samples_are_at_least_fifty_milliseconds_apart() {
    let mut d = detector();
    assert!(d.on_move(10, 0, 0));
    assert!(!d.on_move(59, 500, 500));
    assert!(d.on_move(60, 250, 750));
    assert!(!d.on_move(61, 1001, 0));
    assert!(!d.on_move(50, 0, 0));
    assert!(d.on_move(110, 1000, 1000));
    assert_eq!(
        d.samples(),
        &vec![
            CursorSample { timestamp_ms: 10, x: 0, y: 0 },
            CursorSample { timestamp_ms: 60, x: 250_000, y: 750_000 },
            CursorSample { timestamp_ms: 110, x: 1_000_000, y: 1_000_000 },
        ]
    );
}

#[test]
fn nothing_is_logged_outside_a_recording() {
    let mut d = GestureDetector::new(CaptureTarget::monitor(1000, 1000).unwrap());
    assert!(!d.on_move(10, 0, 0));
    d.on_press(0, 10, 10);
    d.on_press(100, 10, 10);
    assert!(!d.on_press(200, 10, 10));
    d.begin();
    d.on_press(0, 10, 10);
    d.on_press(100, 10, 10);
    assert!(d.on_press(200, 10, 10));
    assert!(d.on_move(200, 10, 10));
    d.end();
    assert!(!d.on_move(1000, 10, 10));
    assert!(!d.on_press(5000, 10, 10));
    assert_eq!(d.clicks().len(), 1);
    assert_eq!(d.samples().len(), 1);
}

#[test]
fn beginning_a_recording_clears_the_logs() {
    let mut d = detector();
    d.on_press(0, 10, 10);
    d.on_press(100, 10, 10);
    d.on_press(200, 10, 10);
    d.on_move(0, 5, 5);
    d.begin();
    assert!(d.clicks().is_empty());
    assert!(d.samples().is_empty());
    // the cooldown is forgotten too
    d.on_press(300, 10, 10);
    d.on_press(400, 10, 10);
    assert!(d.on_press(500, 10, 10));
}
