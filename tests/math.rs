use glengine::math::{clamp, clamp_components, is_in_range, rel_to_range, uvec3};
use std::cmp::Ordering;

#[test]
fn range_relation() {
    assert_eq!(rel_to_range(3, 5, 9), Ordering::Less);
    assert_eq!(rel_to_range(5, 5, 9), Ordering::Equal);
    assert_eq!(rel_to_range(9, 5, 9), Ordering::Equal);
    assert_eq!(rel_to_range(10, 5, 9), Ordering::Greater);
    assert!(is_in_range(7, 5, 9));
    assert!(!is_in_range(4, 5, 9));
}

#[test]
fn clamping() {
    assert_eq!(clamp(3, 5, 9), 5);
    assert_eq!(clamp(12, 5, 9), 9);
    assert_eq!(clamp(6, 5, 9), 6);
    assert_eq!(clamp_components(uvec3(40, 3, 0), uvec3(0, 0, 1), uvec3(31, 31, 31)), uvec3(31, 3, 1));
}
