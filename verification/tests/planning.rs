use gossip_snapshot::schedule::{round_down_to_nearest_multiple, sleep_duration, SKEW_BUFFER};
use gossip_snapshot::scope::{check_scope_list, plan, ConfigError, UNBOUNDED};

#[test]
fn plan_doubles_from_a_day_to_past_a_week() {
    assert_eq!(
        plan(86400, 604800),
        Ok(vec![86400, 172800, 345600, 691200, u64::MAX])
    );
}

#[test]
fn plan_stops_at_the_first_scope_that_reaches_the_maximum() {
    assert_eq!(plan(100, 400), Ok(vec![100, 200, 400, UNBOUNDED]));
    assert_eq!(plan(100, 401), Ok(vec![100, 200, 400, 800, UNBOUNDED]));
    assert_eq!(plan(100, 399), Ok(vec![100, 200, 400, UNBOUNDED]));
}

#[test]
fn plan_with_equal_interval_and_maximum_has_one_bounded_scope() {
    assert_eq!(plan(5, 5), Ok(vec![5, UNBOUNDED]));
    assert_eq!(plan(1, 1), Ok(vec![1, UNBOUNDED]));
}

#[test]
fn plan_rejects_a_zero_interval() {
    assert_eq!(plan(0, 10), Err(ConfigError::ZeroInterval));
    assert_eq!(plan(0, 0), Err(ConfigError::ZeroInterval));
}

#[test]
fn plan_rejects_a_maximum_below_the_interval() {
    assert_eq!(plan(10, 5), Err(ConfigError::MaxScopeBelowInterval));
    assert_eq!(plan(2, 1), Err(ConfigError::MaxScopeBelowInterval));
}

#[test]
fn plan_rejects_scopes_that_do_not_fit_below_the_sentinel() {
    assert_eq!(plan(u64::MAX, u64::MAX), Err(ConfigError::ScopeOverflow));
    assert_eq!(plan(1 << 63, (1 << 63) + 1), Err(ConfigError::ScopeOverflow));
    assert_eq!(plan(3, u64::MAX), Err(ConfigError::ScopeOverflow));
}

#[test]
fn plan_accepts_the_largest_scopes_that_fit() {
    assert_eq!(plan(u64::MAX - 1, u64::MAX - 1), Ok(vec![u64::MAX - 1, UNBOUNDED]));
    assert_eq!(plan(1 << 62, 1 << 63), Ok(vec![1 << 62, 1 << 63, UNBOUNDED]));
}

#[test]
fn planned_scopes_ascend_and_end_in_one_sentinel() {
    for (base, max) in [(1u64, 1u64), (1, 1000), (7, 50), (86400, 604800), (3600, 1814400)] {
        let scopes = plan(base, max).unwrap();
        assert!(check_scope_list(&scopes));
        assert_eq!(scopes.iter().filter(|s| **s == UNBOUNDED).count(), 1);
        assert_eq!(*scopes.last().unwrap(), UNBOUNDED);
        for pair in scopes.windows(2) {
            assert!(pair[0] < pair[1]);
        }
        let bounded = &scopes[..scopes.len() - 1];
        assert_eq!(bounded[0], base);
        for (k, scope) in bounded.iter().enumerate() {
            assert_eq!(*scope, base << k);
        }
        assert!(*bounded.last().unwrap() >= max);
        for scope in &bounded[..bounded.len() - 1] {
            assert!(*scope < max);
        }
    }
}

#[test]
fn plan_of_three_weeks_from_one_day_has_seven_entries() {
    let scopes = plan(86400, 1814400).unwrap();
    assert_eq!(
        scopes,
        vec![86400, 172800, 345600, 691200, 1382400, 2764800, UNBOUNDED]
    );
}

#[test]
fn scope_lists_are_checked() {
    assert!(check_scope_list(&[UNBOUNDED]));
    assert!(check_scope_list(&[1, 2, UNBOUNDED]));
    assert!(!check_scope_list(&[]));
    assert!(!check_scope_list(&[1, 2]));
    assert!(!check_scope_list(&[2, 1, UNBOUNDED]));
    assert!(!check_scope_list(&[1, 1, UNBOUNDED]));
    assert!(!check_scope_list(&[UNBOUNDED, UNBOUNDED]));
}

#[test]
fn round_down_of_one_hundred_by_thirty() {
    assert_eq!(round_down_to_nearest_multiple(100, 30), 90);
}

#[test]
fn round_down_keeps_multiples_and_small_numbers() {
    assert_eq!(round_down_to_nearest_multiple(90, 30), 90);
    assert_eq!(round_down_to_nearest_multiple(29, 30), 0);
    assert_eq!(round_down_to_nearest_multiple(0, 30), 0);
    assert_eq!(round_down_to_nearest_multiple(17, 1), 17);
    assert_eq!(round_down_to_nearest_multiple(u64::MAX, u64::MAX), u64::MAX);
    assert_eq!(round_down_to_nearest_multiple(u64::MAX, 2), u64::MAX - 1);
    assert_eq!(round_down_to_nearest_multiple(1_700_000_123, 86400), 1_699_920_000);
}

#[test]
fn round_down_lands_on_a_multiple_just_below() {
    for number in [0u64, 1, 29, 30, 31, 59, 60, 1000, 123_456_789] {
        for multiple in [1u64, 2, 7, 30, 86400] {
            let rounded = round_down_to_nearest_multiple(number, multiple);
            assert!(rounded <= number);
            assert_eq!(rounded % multiple, 0);
            assert!(number - rounded < multiple);
        }
    }
}

#[test]
fn sleep_lasts_to_the_next_boundary_and_five_seconds_more() {
    assert_eq!(SKEW_BUFFER, 5);
    assert_eq!(sleep_duration(1000, 300), 205);
    assert_eq!(sleep_duration(900, 300), 305);
    assert_eq!(sleep_duration(899, 300), 6);
    assert_eq!(sleep_duration(0, 86400), 86405);
    assert_eq!(sleep_duration(1_700_000_123, 86400), 6277 + 5);
    assert_eq!(sleep_duration(7, u64::MAX - 5), u64::MAX - 7);
}
