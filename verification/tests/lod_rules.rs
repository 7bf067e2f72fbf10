use molecular_lod::lod::{aggression_for, radius_for, tier_for};

#[test]
fn aggression_doubles_at_each_decade() {
    assert_eq!(aggression_for(0), 1);
    assert_eq!(aggression_for(500), 1);
    assert_eq!(aggression_for(1_000), 1);
    assert_eq!(aggression_for(1_001), 2);
    assert_eq!(aggression_for(5_000), 2);
    assert_eq!(aggression_for(10_000), 2);
    assert_eq!(aggression_for(10_001), 4);
    assert_eq!(aggression_for(50_000), 4);
    assert_eq!(aggression_for(100_000), 4);
    assert_eq!(aggression_for(100_001), 8);
    assert_eq!(aggression_for(1_000_000), 8);
    assert_eq!(aggression_for(1_000_001), 16);
    assert_eq!(aggression_for(10_000_000), 16);
    assert_eq!(aggression_for(10_000_001), 32);
    assert_eq!(aggression_for(usize::MAX), 32);
}

#[test]
fn tier_boundaries_at_unit_aggression() {
    assert_eq!(tier_for(0, 1), 3);
    assert_eq!(tier_for(10_000 * 10_000, 1), 3);
    assert_eq!(tier_for(10_000 * 10_000 + 1, 1), 2);
    assert_eq!(tier_for(20_000 * 20_000, 1), 2);
    assert_eq!(tier_for(20_000 * 20_000 + 1, 1), 1);
    assert_eq!(tier_for(50_000 * 50_000, 1), 1);
    assert_eq!(tier_for(50_000 * 50_000 + 1, 1), 0);
    assert_eq!(tier_for(u128::MAX, 1), 0);
}

#[test]
fn tier_boundaries_scale_with_aggression() {
    assert_eq!(tier_for(80_000 * 80_000, 8), 3);
    assert_eq!(tier_for(80_000 * 80_000 + 1, 8), 2);
    assert_eq!(tier_for(160_000 * 160_000, 8), 2);
    assert_eq!(tier_for(160_000 * 160_000 + 1, 8), 1);
    assert_eq!(tier_for(400_000 * 400_000, 8), 1);
    assert_eq!(tier_for(400_000 * 400_000 + 1, 8), 0);
    assert_eq!(tier_for(30_000 * 30_000, 1), 1);
    assert_eq!(tier_for(30_000 * 30_000, 2), 2);
    assert_eq!(tier_for(30_000 * 30_000, 4), 3);
}

#[test]
fn tier_with_zero_aggression_is_a_point_beyond_the_observer() {
    assert_eq!(tier_for(0, 0), 3);
    assert_eq!(tier_for(1, 0), 0);
}

#[test]
fn tier_with_largest_aggression_does_not_overflow() {
    let t: u128 = 10_000 * (u32::MAX as u128);
    assert_eq!(tier_for(t * t, u32::MAX), 3);
    assert_eq!(tier_for(t * t + 1, u32::MAX), 2);
}

#[test]
fn tier_never_rises_with_distance() {
    let mut d: u128 = 0;
    let mut last = 3;
    while d <= 60_000 {
        let tier = tier_for(d * d, 1);
        assert!(tier <= last);
        last = tier;
        d += 250;
    }
    assert_eq!(last, 0);
}

#[test]
fn rest_radius_by_element() {
    assert_eq!(radius_for(0), 250);
    assert_eq!(radius_for(1), 350);
    assert_eq!(radius_for(2), 300);
    assert_eq!(radius_for(3), 280);
    assert_eq!(radius_for(4), 280);
    assert_eq!(radius_for(u32::MAX), 280);
}
