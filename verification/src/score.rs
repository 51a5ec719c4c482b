//! Engagement scoring.
//!
//! A post earns one point per like, two per comment and three per repost,
//! and loses one point for every hour of its age. Timestamps are
//! microseconds since the Unix epoch, so the score is kept exact by
//! counting it in microseconds of decay: one point is worth one hour.

use vstd::prelude::*;

verus! {

/// Microseconds in one hour: the number of score units in one point.
pub const MICROS_PER_HOUR: i64 = 3_600_000_000;

/// Points earned by one like.
pub const LIKE_WEIGHT: u64 = 1;

/// Points earned by one comment.
pub const COMMENT_WEIGHT: u64 = 2;

/// Points earned by one repost.
pub const REPOST_WEIGHT: u64 = 3;

/// Weighted engagement of a post, in points.
pub open spec fn engagement_points(likes: nat, comments: nat, reposts: nat) -> int {
    LIKE_WEIGHT * likes + COMMENT_WEIGHT * comments + REPOST_WEIGHT * reposts
}

/// Age of a post at `now`, in microseconds. Negative for a post dated
/// after `now`; nothing is clamped.
pub open spec fn age_micros(created_at: int, now: int) -> int {
    now - created_at
}

/// The score of a post at `now`, in units of one point per
/// `MICROS_PER_HOUR`: engagement points minus age in hours, scaled so
/// that it stays an integer.
pub open spec fn score_micros(
    likes: nat,
    comments: nat,
    reposts: nat,
    created_at: int,
    now: int,
) -> int {
    engagement_points(likes, comments, reposts) * MICROS_PER_HOUR - age_micros(created_at, now)
}

/// Computes the score of a post at `now`.
pub fn engagement_score(likes: u64, comments: u64, reposts: u64, created_at: i64, now: i64) -> (score:
    i128)
    ensures
        score == score_micros(
            likes as nat,
            comments as nat,
            reposts as nat,
            created_at as int,
            now as int,
        ),
{
    let points: i128 = (likes as i128) + 2 * (comments as i128) + 3 * (reposts as i128);
    let age: i128 = (now as i128) - (created_at as i128);
    assert(points * 3_600_000_000 <= 6 * 0x1_0000_0000_0000_0000 * 3_600_000_000) by (nonlinear_arith)
        requires
            0 <= points <= 6 * 0x1_0000_0000_0000_0000,
    ;
    points * 3_600_000_000 - age
}

/// Of two posts with the same like, comment and repost counts, the one
/// created later scores strictly higher at any moment.
pub proof fn lemma_later_post_scores_higher(
    likes: nat,
    comments: nat,
    reposts: nat,
    earlier: int,
    later: int,
    now: int,
)
    requires
        earlier < later,
    ensures
        score_micros(likes, comments, reposts, earlier, now) < score_micros(
            likes,
            comments,
            reposts,
            later,
            now,
        ),
{
}

/// The score is linear in each count: `extra` more comments raise it by
/// exactly two points each, whatever the likes, reposts and age are; likes
/// raise it by one point each and reposts by three.
pub proof fn lemma_score_is_linear(
    likes: nat,
    comments: nat,
    reposts: nat,
    extra: nat,
    created_at: int,
    now: int,
)
    ensures
        score_micros(likes, comments + extra, reposts, created_at, now) - score_micros(
            likes,
            comments,
            reposts,
            created_at,
            now,
        ) == 2 * extra * MICROS_PER_HOUR,
        score_micros(likes + extra, comments, reposts, created_at, now) - score_micros(
            likes,
            comments,
            reposts,
            created_at,
            now,
        ) == extra * MICROS_PER_HOUR,
        score_micros(likes, comments, reposts + extra, created_at, now) - score_micros(
            likes,
            comments,
            reposts,
            created_at,
            now,
        ) == 3 * extra * MICROS_PER_HOUR,
{
    assert((2 * (comments + extra)) * 3_600_000_000 == 2 * comments * 3_600_000_000 + 2 * extra
        * 3_600_000_000) by (nonlinear_arith);
    assert((likes + extra) * 3_600_000_000 == likes * 3_600_000_000 + extra * 3_600_000_000)
        by (nonlinear_arith);
    assert((3 * (reposts + extra)) * 3_600_000_000 == 3 * reposts * 3_600_000_000 + 3 * extra
        * 3_600_000_000) by (nonlinear_arith);
}

} // verus!
