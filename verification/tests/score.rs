use twitter_api_service::score::{
    engagement_score, COMMENT_WEIGHT, LIKE_WEIGHT, MICROS_PER_HOUR, REPOST_WEIGHT,
};

const HOUR: i128 = MICROS_PER_HOUR as i128;
const T: i64 = 1_700_000_000_000_000;

#[test]
fn an_hour_has_3600_million_microseconds() {
    assert_eq!(MICROS_PER_HOUR, 3_600_000_000);
}

#[test]
fn weights_are_one_two_three() {
    assert_eq!((LIKE_WEIGHT, COMMENT_WEIGHT, REPOST_WEIGHT), (1, 2, 3));
    assert_eq!(engagement_score(1, 0, 0, T, T), HOUR);
    assert_eq!(engagement_score(0, 1, 0, T, T), 2 * HOUR);
    assert_eq!(engagement_score(0, 0, 1, T, T), 3 * HOUR);
    assert_eq!(engagement_score(4, 5, 6, T, T), (4 + 10 + 18) * HOUR);
}

#[test]
fn fresh_unengaged_post_scores_zero() {
    assert_eq!(engagement_score(0, 0, 0, T, T), 0);
}

#[test]
fn hundred_hours_old_unengaged_post_scores_minus_hundred() {
    assert_eq!(engagement_score(0, 0, 0, T, T + 100 * MICROS_PER_HOUR), -100 * HOUR);
}

#[test]
fn decay_is_one_point_per_hour_down_to_the_microsecond() {
    assert_eq!(engagement_score(2, 0, 0, T, T + MICROS_PER_HOUR / 2), 2 * HOUR - HOUR / 2);
    assert_eq!(engagement_score(0, 0, 0, T, T + 1), -1);
}

#[test]
fn later_post_scores_strictly_higher_at_equal_counts() {
    let now = T + 10 * MICROS_PER_HOUR;
    let earlier = engagement_score(3, 2, 1, T, now);
    let later = engagement_score(3, 2, 1, T + 1, now);
    assert!(later > earlier);
    assert_eq!(later - earlier, 1);
}

#[test]
fn doubling_comments_adds_two_points_for_each_added_comment() {
    for (likes, reposts, age_hours) in [(0u64, 0u64, 0i64), (7, 3, 50), (1_000, 0, 100_000)] {
        let now = T + age_hours * MICROS_PER_HOUR;
        let base = engagement_score(likes, 4, reposts, T, now);
        let doubled = engagement_score(likes, 8, reposts, T, now);
        assert_eq!(doubled - base, 2 * 4 * HOUR);
    }
}

#[test]
fn engaged_old_post_scores_below_fresh_unengaged_post() {
    let a = engagement_score(0, 0, 0, T, T);
    let b = engagement_score(5, 0, 0, T - 200 * MICROS_PER_HOUR, T);
    assert_eq!(a, 0);
    assert_eq!(b, (5 - 200) * HOUR);
    assert_eq!(b, -195 * HOUR);
    assert!(a > b);
}

#[test]
fn a_post_dated_after_now_is_not_clamped() {
    assert_eq!(engagement_score(0, 0, 0, T + 3 * MICROS_PER_HOUR, T), 3 * HOUR);
}

#[test]
fn extreme_inputs_do_not_overflow() {
    let top = engagement_score(u64::MAX, u64::MAX, u64::MAX, i64::MAX, i64::MIN);
    assert_eq!(top, 6 * (u64::MAX as i128) * HOUR + (i64::MAX as i128) - (i64::MIN as i128));
    let bottom = engagement_score(0, 0, 0, i64::MIN, i64::MAX);
    assert_eq!(bottom, (i64::MIN as i128) - (i64::MAX as i128));
}
