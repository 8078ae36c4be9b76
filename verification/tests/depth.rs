use movie_clip::depth::{
    biased, is_dynamic, is_removable, is_script_depth, next_highest, to_internal, to_script,
    DEPTH_BIAS, MAX_DEPTH,
    MAX_DEPTH_BIASED, REMOVE_LIMIT,
};

#[test]
fn script_depth_zero_is_the_bias() {
    assert_eq!(to_internal(0), DEPTH_BIAS);
    assert_eq!(to_internal(0), 16384);
    assert_eq!(to_script(to_internal(0)), 0);
}

#[test]
fn round_trip_over_the_dynamic_range() {
    for d in [0, 1, 2, 100, 16383, 16384, 65535, 1_000_000, MAX_DEPTH - 1, MAX_DEPTH] {
        assert_eq!(to_script(to_internal(d)), d);
        assert_eq!(to_internal(d), d + DEPTH_BIAS);
        assert!(is_dynamic(to_internal(d)));
    }
}

#[test]
fn round_trip_wraps_at_the_boundary() {
    for d in [i32::MAX, i32::MAX - 1, i32::MAX - 16383, i32::MAX - 16384, i32::MIN, -1, -16384, -16385] {
        assert_eq!(to_script(to_internal(d)), d);
    }
    assert_eq!(to_internal(i32::MAX), i32::MIN + 16383);
    assert_eq!(to_internal(i32::MAX - 16383), i32::MIN);
    assert_eq!(to_script(i32::MIN), i32::MAX - 16383);
}

#[test]
fn constants_fit_together() {
    assert_eq!(MAX_DEPTH_BIASED, 2_130_706_428);
    assert_eq!(MAX_DEPTH + DEPTH_BIAS, MAX_DEPTH_BIASED);
    assert_eq!(REMOVE_LIMIT, 2_130_706_416);
}

#[test]
fn dynamic_range_has_both_ends() {
    assert!(is_dynamic(0));
    assert!(is_dynamic(MAX_DEPTH_BIASED));
    assert!(!is_dynamic(-1));
    assert!(!is_dynamic(MAX_DEPTH_BIASED + 1));
    assert!(!is_dynamic(i32::MIN));
    assert!(!is_dynamic(i32::MAX));
}

#[test]
fn script_depths_that_are_accepted() {
    assert!(is_dynamic(to_internal(-1)));
    assert!(is_dynamic(to_internal(-DEPTH_BIAS)));
    assert!(!is_dynamic(to_internal(-DEPTH_BIAS - 1)));
    assert!(is_dynamic(to_internal(MAX_DEPTH)));
    assert!(!is_dynamic(to_internal(MAX_DEPTH + 1)));
    assert!(!is_dynamic(to_internal(i32::MAX)));
}

#[test]
fn removable_range_is_half_open() {
    assert!(!is_removable(DEPTH_BIAS - 1));
    assert!(is_removable(DEPTH_BIAS));
    assert!(is_removable(2_130_706_415));
    assert!(!is_removable(2_130_706_416));
    assert!(!is_removable(MAX_DEPTH_BIASED));
    assert!(!is_removable(-1));
}

#[test]
fn bias_is_added_with_wrap_around() {
    assert_eq!(biased(5, 0), 5);
    assert_eq!(biased(5, 16384), 16389);
    assert_eq!(biased(i32::MAX, 1), i32::MIN);
    assert_eq!(biased(-7, 0), -7);
}

#[test]
fn next_highest_depth_is_one_above_the_top() {
    assert_eq!(next_highest(None), 0);
    assert_eq!(next_highest(Some(DEPTH_BIAS)), 1);
    assert_eq!(next_highest(Some(DEPTH_BIAS + 6)), 7);
    assert_eq!(next_highest(Some(DEPTH_BIAS - 1)), 0);
    assert_eq!(next_highest(Some(5)), 0);
    assert_eq!(next_highest(Some(MAX_DEPTH_BIASED)), MAX_DEPTH + 1);
}

#[test]
fn next_highest_depth_wraps_below_the_range() {
    // i32::MIN - 16383 wraps to a large positive number
    assert_eq!(next_highest(Some(i32::MIN)), i32::MAX - 16382);
    assert_eq!(next_highest(Some(i32::MIN + 16383)), 0);
    assert_eq!(next_highest(Some(i32::MIN + 16382)), i32::MAX);
}

#[test]
fn script_depths_at_which_a_script_creates() {
    assert!(is_script_depth(0));
    assert!(is_script_depth(MAX_DEPTH));
    assert!(!is_script_depth(-1));
    assert!(!is_script_depth(-DEPTH_BIAS));
    assert!(!is_script_depth(MAX_DEPTH + 1));
    assert!(!is_script_depth(i32::MIN));
    assert!(!is_script_depth(i32::MAX));
    for d in [0, 1, 77, MAX_DEPTH] {
        assert!(DEPTH_BIAS <= to_internal(d) && to_internal(d) <= MAX_DEPTH_BIASED);
    }
}
