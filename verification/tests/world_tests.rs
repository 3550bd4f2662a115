use world_map::MapResolution;

#[test]
fn datasets_have_fixed_distinct_sizes() {
    let low = MapResolution::Low.data();
    let high = MapResolution::High.data();
    assert_eq!(low.len(), 1000);
    assert_eq!(high.len(), 5000);
    assert!(!low.is_empty());
    assert!(low.len() < high.len());
}

#[test]
fn datasets_are_stable_across_calls() {
    assert_eq!(MapResolution::Low.data(), MapResolution::Low.data());
    assert_eq!(MapResolution::High.data(), MapResolution::High.data());
}

#[test]
fn dataset_points_have_expected_values() {
    let low = MapResolution::Low.data();
    assert_eq!(low[0], (-1800, -900));
    assert_eq!(low[1], (-1793, -887));
    let high = MapResolution::High.data();
    assert_eq!(high[0], (-1800, -900));
    assert_eq!(high[1], (-1789, -871));
}

#[test]
fn dataset_points_lie_in_world_range() {
    for tier in [MapResolution::Low, MapResolution::High] {
        for &(x, y) in tier.data().iter() {
            assert!(-1800 <= x && x <= 1800);
            assert!(-900 <= y && y <= 900);
        }
    }
}
