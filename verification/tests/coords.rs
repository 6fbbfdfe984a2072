use visualcoder::coords::{denormalize, normalize, Bounds, CaptureTarget, TargetKind};

#[test]
fn normalize_gives_the_share_of_each_extent() {
    let b = Bounds { x: 100, y: 50, width: 200, height: 100 };
    assert_eq!(normalize(100, 50, &b), Some((0, 0)));
    assert_eq!(normalize(300, 150, &b), Some((1_000_000, 1_000_000)));
    assert_eq!(normalize(150, 75, &b), Some((250_000, 250_000)));
    assert_eq!(normalize(101, 51, &b), Some((5_000, 10_000)));
}

#[test]
fn normalize_rounds_down() {
    let b = Bounds { x: 0, y: 0, width: 3, height: 7 };
    assert_eq!(normalize(1, 1, &b), Some((333_333, 142_857)));
    assert_eq!(normalize(2, 6, &b), Some((666_666, 857_142)));
}

#[test]
fn points_outside_the_bounds_give_nothing() {
    let b = Bounds { x: 100, y: 50, width: 200, height: 100 };
    assert_eq!(normalize(99, 75, &b), None);
    assert_eq!(normalize(301, 75, &b), None);
    assert_eq!(normalize(150, 49, &b), None);
    assert_eq!(normalize(150, 151, &b), None);
    assert_eq!(normalize(i32::MIN, i32::MAX, &b), None);
}

#[test]
fn normalize_then_denormalize_gives_the_point_back() {
    let b = Bounds { x: -1920, y: 37, width: 1919, height: 1079 };
    for raw_x in [-1919, -1000, -961, -3, -2] {
        for raw_y in [38, 100, 576, 1000, 1115] {
            let (nx, ny) = normalize(raw_x, raw_y, &b).unwrap();
            assert_eq!(denormalize(nx, b.x, b.width), Some(raw_x as i64));
            assert_eq!(denormalize(ny, b.y, b.height), Some(raw_y as i64));
        }
    }
}

#[test]
fn denormalize_refuses_shares_outside_the_unit_interval() {
    assert_eq!(denormalize(-1, 0, 100), None);
    assert_eq!(denormalize(1_000_001, 0, 100), None);
    assert_eq!(denormalize(0, 7, 100), Some(7));
    assert_eq!(denormalize(1_000_000, 7, 100), Some(107));
    assert_eq!(denormalize(1, 7, 100), Some(8));
}

#[test]
fn monitor_target_starts_at_the_origin_with_even_sides() {
    let t = CaptureTarget::monitor(1921, 1081).unwrap();
    assert_eq!(t.kind(), TargetKind::Monitor);
    assert_eq!(t.bounds(), Bounds { x: 0, y: 0, width: 1920, height: 1080 });
    assert!(CaptureTarget::monitor(1, 1080).is_none());
    assert!(CaptureTarget::monitor(1920, 0).is_none());
}

#[test]
fn window_target_keeps_its_rectangle() {
    let t = CaptureTarget::window(-300, 40, 801, 600).unwrap();
    assert_eq!(t.kind(), TargetKind::Window);
    assert_eq!(t.bounds(), Bounds { x: -300, y: 40, width: 800, height: 600 });
    assert_eq!(t.normalize(100, 340), Some((500_000, 500_000)));
    assert_eq!(t.normalize(501, 340), None);
    assert!(CaptureTarget::window(0, 0, 801, 1).is_none());
}

#[test]
fn bounds_validity_is_non_emptiness() {
    assert!(Bounds { x: 0, y: 0, width: 1, height: 1 }.is_valid());
    assert!(!Bounds { x: 0, y: 0, width: 0, height: 1 }.is_valid());
    assert!(!Bounds { x: 0, y: 0, width: 1, height: 0 }.is_valid());
}
