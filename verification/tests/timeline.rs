use visualcoder::timeline::{
    ease_share, first_overlap, global_scale_at, Easing, Trim, ZoomEffect,
};

fn effect(start_ms: i64, end_ms: i64, scale_milli: i64, easing: Easing) -> ZoomEffect {
    ZoomEffect {
        start_time: start_ms * 1000,
        end_time: end_ms * 1000,
        scale: scale_milli * 1000,
        target_x: 500_000,
        target_y: 500_000,
        easing,
    }
}

const WHOLE: Trim = Trim { start: 0, end: 10_000_000 };

#[test]
fn effect_eases_in_before_its_start_holds_and_eases_out_before_its_end() {
    let fx = effect(2000, 5000, 2000, Easing::Quick);
    assert_eq!(fx.scale_at(&WHOLE, 1_799_999), 1_000_000);
    assert_eq!(fx.scale_at(&WHOLE, 1_800_000), 1_000_000);
    assert_eq!(fx.scale_at(&WHOLE, 1_900_000), 1_500_000);
    assert_eq!(fx.scale_at(&WHOLE, 2_000_000), 2_000_000);
    assert_eq!(fx.scale_at(&WHOLE, 3_000_000), 2_000_000);
    assert_eq!(fx.scale_at(&WHOLE, 4_800_000), 2_000_000);
    assert_eq!(fx.scale_at(&WHOLE, 4_900_000), 1_500_000);
    assert_eq!(fx.scale_at(&WHOLE, 5_000_000), 1_000_000);
    assert_eq!(fx.scale_at(&WHOLE, 5_000_001), 1_000_000);
}

#[test]
fn smoothstep_quarters() {
    let fx = effect(2000, 5000, 2000, Easing::Quick);
    // smoothstep(1/4) = 5/32, smoothstep(3/4) = 27/32
    assert_eq!(fx.scale_at(&WHOLE, 1_850_000), 1_156_250);
    assert_eq!(fx.scale_at(&WHOLE, 1_950_000), 1_843_750);
    assert_eq!(fx.scale_at(&WHOLE, 4_850_000), 1_843_750);
    assert_eq!(fx.scale_at(&WHOLE, 4_950_000), 1_156_250);
}

#[test]
fn scale_rises_on_the_way_in_and_falls_on_the_way_out() {
    let fx = effect(2000, 5000, 3700, Easing::Slow);
    let mut last = fx.scale_at(&WHOLE, 1_500_000);
    assert_eq!(last, 1_000_000);
    let mut t = 1_500_000;
    while t <= 2_000_000 {
        let s = fx.scale_at(&WHOLE, t);
        assert!(s >= last);
        last = s;
        t += 1_234;
    }
    assert_eq!(fx.scale_at(&WHOLE, 2_000_000), 3_700_000);
    let mut last = fx.scale_at(&WHOLE, 4_500_000);
    assert_eq!(last, 3_700_000);
    let mut t = 4_500_000;
    while t <= 5_000_000 {
        let s = fx.scale_at(&WHOLE, t);
        assert!(s <= last);
        last = s;
        t += 1_234;
    }
    assert_eq!(fx.scale_at(&WHOLE, 5_000_000), 1_000_000);
}

#[test]
fn ease_share_is_the_smoothstep_share_rounded_down() {
    assert_eq!(ease_share(1_000_000, 0, 200_000), 0);
    assert_eq!(ease_share(1_000_000, 200_000, 200_000), 1_000_000);
    assert_eq!(ease_share(1_000_000, 100_000, 200_000), 500_000);
    assert_eq!(ease_share(1_000_000, 50_000, 200_000), 156_250);
    // 1/3: 7/27 of 10 is 2.59...
    assert_eq!(ease_share(10, 1, 3), 2);
    assert_eq!(ease_share(10, 2, 3), 7);
}

#[test]
fn easing_presets_have_their_durations() {
    assert_eq!(Easing::Slow.duration(), 500_000);
    assert_eq!(Easing::Mellow.duration(), 350_000);
    assert_eq!(Easing::Quick.duration(), 200_000);
    assert_eq!(Easing::Rapid.duration(), 100_000);
}

#[test]
fn easing_names_select_presets_and_default_to_mellow() {
    assert_eq!(Easing::from_name("slow"), Easing::Slow);
    assert_eq!(Easing::from_name("mellow"), Easing::Mellow);
    assert_eq!(Easing::from_name("quick"), Easing::Quick);
    assert_eq!(Easing::from_name("rapid"), Easing::Rapid);
    assert_eq!(Easing::from_name(""), Easing::Mellow);
    assert_eq!(Easing::from_name("Slow"), Easing::Mellow);
    assert_eq!(Easing::from_name("quick "), Easing::Mellow);
}

#[test]
fn effect_times_follow_the_trim_start() {
    let trim = Trim { start: 1_000_000, end: 9_000_000 };
    let fx = effect(2000, 5000, 2000, Easing::Quick);
    assert_eq!(fx.scale_at(&trim, 800_000), 1_000_000);
    assert_eq!(fx.scale_at(&trim, 900_000), 1_500_000);
    assert_eq!(fx.scale_at(&trim, 1_000_000), 2_000_000);
    assert_eq!(fx.scale_at(&trim, 3_800_000), 2_000_000);
    assert_eq!(fx.scale_at(&trim, 4_000_000), 1_000_000);
}

#[test]
fn effects_outside_the_trimmed_timeline_are_left_out() {
    let trim = Trim { start: 10_000_000, end: 20_000_000 };
    // over before the trim starts
    assert!(!effect(2000, 9_999, 2000, Easing::Quick).is_kept(&trim));
    // ends exactly at the trim start
    assert!(effect(2000, 10_000, 2000, Easing::Quick).is_kept(&trim));
    // easing in begins exactly at the end of the trimmed timeline
    assert!(effect(20_200, 25_000, 2000, Easing::Quick).is_kept(&trim));
    assert!(!effect(20_201, 25_000, 2000, Easing::Quick).is_kept(&trim));
}

#[test]
fn invalid_effects_are_left_out() {
    assert!(effect(2000, 5000, 2000, Easing::Quick).is_valid());
    assert!(effect(2000, 5000, 1000, Easing::Quick).is_valid());
    assert!(!effect(2000, 2000, 2000, Easing::Quick).is_valid());
    assert!(!effect(5000, 2000, 2000, Easing::Quick).is_valid());
    assert!(!effect(-1, 2000, 2000, Easing::Quick).is_valid());
    assert!(!effect(2000, 5000, 999, Easing::Quick).is_valid());
    assert!(!effect(2000, 5000, 1_000_001, Easing::Quick).is_valid());
    let mut off = effect(2000, 5000, 2000, Easing::Quick);
    off.target_x = 1_000_001;
    assert!(!off.is_valid());
    off.target_x = 0;
    off.target_y = -1;
    assert!(!off.is_valid());
    assert!(!off.is_kept(&WHOLE));
}

#[test]
fn trim_validity() {
    assert!(WHOLE.is_valid());
    assert_eq!(WHOLE.duration(), 10_000_000);
    assert!(Trim { start: 5, end: 5 }.is_valid());
    assert!(!Trim { start: -1, end: 5 }.is_valid());
    assert!(!Trim { start: 6, end: 5 }.is_valid());
    assert!(!Trim { start: 0, end: 1_000_000_000_000_001 }.is_valid());
}

#[test]
fn global_scale_is_the_sum_of_the_kept_effects_and_at_least_one() {
    let effects = vec![
        effect(2000, 5000, 2000, Easing::Quick),
        effect(7000, 9000, 3000, Easing::Rapid),
        effect(2000, 2000, 9000, Easing::Rapid),
    ];
    assert_eq!(global_scale_at(&effects, &WHOLE, 0), 1_000_000);
    assert_eq!(global_scale_at(&effects, &WHOLE, 1_900_000), 1_500_000);
    assert_eq!(global_scale_at(&effects, &WHOLE, 3_000_000), 2_000_000);
    assert_eq!(global_scale_at(&effects, &WHOLE, 6_000_000), 1_000_000);
    assert_eq!(global_scale_at(&effects, &WHOLE, 8_000_000), 3_000_000);
    assert_eq!(global_scale_at(&Vec::new(), &WHOLE, 8_000_000), 1_000_000);
}

#[test]
fn overlapping_effects_add_up() {
    let effects = vec![
        effect(2000, 5000, 2000, Easing::Quick),
        effect(3000, 6000, 2000, Easing::Quick),
    ];
    assert_eq!(global_scale_at(&effects, &WHOLE, 4_000_000), 4_000_000);
    // the first is easing out at half its rise while the second holds
    assert_eq!(global_scale_at(&effects, &WHOLE, 4_900_000), 3_500_000);
}

#[test]
fn first_overlap_is_the_first_pair_of_kept_effects_that_meet() {
    let a = effect(2000, 5000, 2000, Easing::Quick);
    let b = effect(5200, 6000, 2000, Easing::Quick);
    let c = effect(5201, 6000, 2000, Easing::Quick);
    let d = effect(5900, 8000, 2000, Easing::Rapid);
    let invalid = effect(0, 9000, 500, Easing::Quick);
    assert_eq!(first_overlap(&Vec::new(), &WHOLE), None);
    assert_eq!(first_overlap(&vec![a], &WHOLE), None);
    // b eases in at 5.0 s, exactly where a ends
    assert_eq!(first_overlap(&vec![a, b], &WHOLE), Some((0, 1)));
    assert_eq!(first_overlap(&vec![a, c], &WHOLE), None);
    assert_eq!(first_overlap(&vec![c, a], &WHOLE), None);
    assert_eq!(first_overlap(&vec![invalid, a, invalid, c], &WHOLE), None);
    assert_eq!(first_overlap(&vec![a, c, d], &WHOLE), Some((1, 2)));
    assert_eq!(first_overlap(&vec![d, a, b, c], &WHOLE), Some((0, 2)));
    assert_eq!(first_overlap(&vec![a, a], &WHOLE), Some((0, 1)));
    // effects outside the trimmed timeline do not count
    let early = Trim { start: 0, end: 1_000_000 };
    assert_eq!(first_overlap(&vec![a, a], &early), None);
}

#[test]
fn disjoint_effects_never_exceed_their_own_scale() {
    let effects = vec![
        effect(1000, 3000, 2500, Easing::Slow),
        effect(3600, 5000, 4000, Easing::Rapid),
        effect(6000, 9000, 1500, Easing::Mellow),
    ];
    assert_eq!(first_overlap(&effects, &WHOLE), None);
    let mut t = 0;
    while t <= 10_000_000 {
        let s = global_scale_at(&effects, &WHOLE, t);
        let own: i128 = effects.iter().map(|fx| fx.scale_at(&WHOLE, t) as i128).max().unwrap();
        assert_eq!(s, own);
        t += 7_919;
    }
}
