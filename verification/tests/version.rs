use trustgki::version::{sublevel_ge, sublevel_le, version_ge};

#[test]
fn sort_v_style_comparisons() {
    assert!(version_ge("2.39", "2.38"));
    assert!(version_ge("2.38", "2.38"));
    assert!(!version_ge("2.37", "2.38"));
    assert!(version_ge("6.6", "6.6"));
    assert!(!version_ge("6.1", "6.6"));
    assert!(version_ge("6.12", "6.6"));
    assert!(sublevel_le("58", 58));
    assert!(!sublevel_le("59", 58));
    assert!(!sublevel_le("X", 58));
    assert!(sublevel_ge("197", 197));
}
