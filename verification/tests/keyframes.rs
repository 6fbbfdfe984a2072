use visualcoder::keyframes::{Keyframe, KeyframeTable};

fn table(points: &[(i64, i64)]) -> KeyframeTable {
    let samples: Vec<Keyframe> = points.iter().map(|&(t, v)| Keyframe { t, v }).collect();
    KeyframeTable::from_samples(&samples)
}

#[test]
fn interpolation_is_linear_between_keyframes() {
    let t = table(&[(0, 0), (1_000_000, 10_000_000)]);
    assert_eq!(t.value_at(500_000), 5_000_000);
    assert_eq!(t.value_at(250_000), 2_500_000);
    assert_eq!(t.value_at(-5), 0);
    assert_eq!(t.value_at(2_000_000), 10_000_000);
}

#[test]
fn render_of_single_keyframe_is_its_value() {
    let t = table(&[(0, 1_500_000)]);
    assert_eq!(t.render(), "1.50");
    assert_eq!(KeyframeTable::new().render(), "0");
}

#[test]
fn render_nests_one_conditional_per_segment() {
    let t = table(&[(0, 0), (1_000_000, 2_000_000)]);
    assert_eq!(
        t.render(),
        "if(lt(t,0.0000),0.00,if(lt(t,1.0000),0.00+2.0000*min(1,max(0,(t-0.0000)/1.0000)),2.00))"
    );
}

#[test]
fn value_at_a_keyframe_is_the_keyframes_value() {
    let points = [(-5_000_000, 7), (0, -3_000_001), (1, 12), (2_000_000, 1_000_000), (2_000_001, 0)];
    let t = table(&points);
    assert_eq!(t.len(), 5);
    for (time, value) in points {
        assert_eq!(t.value_at(time), value);
    }
    assert_eq!(t.value_at(i64::MIN), 7);
    assert_eq!(t.value_at(i64::MAX), 0);
}

#[test]
fn falling_segments_round_down() {
    let t = table(&[(0, 10), (3, 0)]);
    assert_eq!(t.value_at(1), 6);
    assert_eq!(t.value_at(2), 3);
}

#[test]
fn samples_that_do_not_advance_are_dropped_by_the_table() {
    let t = table(&[(5, 1), (5, 2), (4, 3), (6, 4), (6, 5), (i64::MAX, 6), (0, 7)]);
    assert_eq!(t.len(), 3);
    assert_eq!(t.get(0), Some(Keyframe { t: 5, v: 1 }));
    assert_eq!(t.get(1), Some(Keyframe { t: 6, v: 4 }));
    assert_eq!(t.get(2), Some(Keyframe { t: i64::MAX, v: 6 }));
    assert_eq!(t.get(3), None);
}

#[test]
fn push_says_whether_the_keyframe_was_kept() {
    let mut t = KeyframeTable::new();
    assert!(t.push(Keyframe { t: 10, v: 1 }));
    assert!(!t.push(Keyframe { t: 10, v: 2 }));
    assert!(!t.push(Keyframe { t: 9, v: 3 }));
    assert!(t.push(Keyframe { t: 11, v: 4 }));
    assert_eq!(t.len(), 2);
    assert_eq!(t.value_at(10), 1);
}

#[test]
fn extreme_values_interpolate_without_overflow() {
    let t = table(&[(i64::MIN, i64::MAX), (i64::MAX, i64::MIN)]);
    assert_eq!(t.value_at(i64::MIN), i64::MAX);
    assert_eq!(t.value_at(-1), 0);
    assert_eq!(t.value_at(0), -1);
    assert_eq!(t.value_at(i64::MAX), i64::MIN);
}

#[test]
fn render_of_three_keyframes() {
    let t = table(&[(500_000, 1_000_000), (1_000_000, 250_000), (3_000_000, 4_000_000)]);
    assert_eq!(
        t.render(),
        "if(lt(t,0.5000),1.00,if(lt(t,1.0000),1.00+-0.7500*min(1,max(0,(t-0.5000)/0.5000)),if(lt(t,3.0000),0.25+3.7500*min(1,max(0,(t-1.0000)/2.0000)),4.00)))"
    );
}

#[test]
fn render_of_two_keyframes_has_values_to_two_places_and_times_to_four() {
    let t = table(&[(1_000_000, 2_000_000), (3_000_000, 6_000_000)]);
    assert_eq!(
        t.render(),
        "if(lt(t,1.0000),2.00,if(lt(t,3.0000),2.00+4.0000*min(1,max(0,(t-1.0000)/2.0000)),6.00))"
    );
    assert_eq!(t.value_at(0), 2_000_000);
    assert_eq!(t.value_at(2_000_000), 4_000_000);
    assert_eq!(t.value_at(3_000_000), 6_000_000);
}
