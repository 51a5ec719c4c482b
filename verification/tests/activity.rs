use twitter_api_service::activity::{
    get_unified_activities, select_recent, unify_activities, ActivityRows, AgentFollowed,
    CommentAdded, PostCreated, PostLiked, RepostMade, ACTIVITY_LIMIT, PER_KIND_LIMIT,
};
use twitter_api_service::api::public::{ActivityItem, ActivityKind};

fn no_rows() -> ActivityRows {
    ActivityRows { posts: vec![], likes: vec![], comments: vec![], reposts: vec![], follows: vec![] }
}

fn post(id: i32, created_at: i64) -> PostCreated {
    PostCreated {
        id,
        agent_id: 1,
        agent_name: "ada".to_string(),
        content: format!("post {id}"),
        created_at,
    }
}

fn like(id: i32, created_at: i64) -> PostLiked {
    PostLiked {
        id,
        agent_id: 2,
        agent_name: "bob".to_string(),
        post_id: 40,
        post_content: "liked post".to_string(),
        post_agent_name: "ada".to_string(),
        created_at,
    }
}

fn comment(id: i32, created_at: Option<i64>) -> CommentAdded {
    CommentAdded {
        id,
        agent_id: 3,
        agent_name: "cy".to_string(),
        post_id: 41,
        content: format!("comment {id}"),
        post_content: "commented post".to_string(),
        post_agent_name: "bob".to_string(),
        created_at,
    }
}

fn repost(id: i32, remark: Option<&str>, created_at: Option<i64>) -> RepostMade {
    RepostMade {
        id,
        agent_id: 4,
        agent_name: "dee".to_string(),
        original_post_id: 42,
        comment: remark.map(|r| r.to_string()),
        post_content: "reposted post".to_string(),
        post_agent_name: "cy".to_string(),
        created_at,
    }
}

fn follow(id: i32, created_at: i64) -> AgentFollowed {
    AgentFollowed {
        id,
        follower_id: 5,
        follower_name: "eve".to_string(),
        followed_id: 6,
        followed_name: "fay".to_string(),
        created_at,
    }
}

fn item(id: i32, kind: ActivityKind, created_at: Option<i64>) -> ActivityItem {
    ActivityItem {
        id,
        activity_type: kind,
        agent_id: 0,
        agent_name: String::new(),
        content: None,
        target_agent_id: None,
        target_agent_name: None,
        post_id: None,
        post_content: None,
        created_at,
    }
}

fn tags(stream: &[ActivityItem]) -> Vec<(&'static str, i32)> {
    stream.iter().map(|entry| (entry.activity_type.label(), entry.id)).collect()
}

#[test]
fn the_caps_are_fifty_per_kind_and_one_hundred_in_all() {
    assert_eq!((PER_KIND_LIMIT, ACTIVITY_LIMIT), (50, 100));
}

#[test]
fn kinds_are_tagged_by_their_names() {
    assert_eq!(ActivityKind::Post.label(), "post");
    assert_eq!(ActivityKind::Like.label(), "like");
    assert_eq!(ActivityKind::Comment.label(), "comment");
    assert_eq!(ActivityKind::Repost.label(), "repost");
    assert_eq!(ActivityKind::Follow.label(), "follow");
}

#[test]
fn no_events_give_an_empty_stream() {
    assert_eq!(get_unified_activities(&no_rows()), vec![]);
}

#[test]
fn three_posts_two_likes_one_comment_no_repost_one_follow_give_seven_entries() {
    let rows = ActivityRows {
        posts: vec![post(1, 100), post(2, 400), post(3, 700)],
        likes: vec![like(1, 300), like(2, 600)],
        comments: vec![comment(1, Some(500))],
        reposts: vec![],
        follows: vec![follow(1, 200)],
    };
    let stream = get_unified_activities(&rows);
    assert_eq!(stream.len(), 7);
    assert_eq!(
        tags(&stream),
        vec![
            ("post", 3),
            ("like", 2),
            ("comment", 1),
            ("post", 2),
            ("like", 1),
            ("follow", 1),
            ("post", 1),
        ]
    );
    let stamps: Vec<Option<i64>> = stream.iter().map(|entry| entry.created_at).collect();
    assert_eq!(
        stamps,
        vec![Some(700), Some(600), Some(500), Some(400), Some(300), Some(200), Some(100)]
    );
}

#[test]
fn a_created_post_is_shown_as_its_own_subject() {
    let mut rows = no_rows();
    rows.posts.push(post(9, 5));
    assert_eq!(
        get_unified_activities(&rows),
        vec![ActivityItem {
            id: 9,
            activity_type: ActivityKind::Post,
            agent_id: 1,
            agent_name: "ada".to_string(),
            content: Some("post 9".to_string()),
            target_agent_id: None,
            target_agent_name: None,
            post_id: Some(9),
            post_content: None,
            created_at: Some(5),
        }]
    );
}

#[test]
fn a_like_is_shown_with_the_post_and_its_author() {
    let mut rows = no_rows();
    rows.likes.push(like(9, 5));
    assert_eq!(
        get_unified_activities(&rows),
        vec![ActivityItem {
            id: 9,
            activity_type: ActivityKind::Like,
            agent_id: 2,
            agent_name: "bob".to_string(),
            content: None,
            target_agent_id: None,
            target_agent_name: Some("ada".to_string()),
            post_id: Some(40),
            post_content: Some("liked post".to_string()),
            created_at: Some(5),
        }]
    );
}

#[test]
fn a_comment_is_shown_with_its_text_and_the_post() {
    let mut rows = no_rows();
    rows.comments.push(comment(9, None));
    assert_eq!(
        get_unified_activities(&rows),
        vec![ActivityItem {
            id: 9,
            activity_type: ActivityKind::Comment,
            agent_id: 3,
            agent_name: "cy".to_string(),
            content: Some("comment 9".to_string()),
            target_agent_id: None,
            target_agent_name: Some("bob".to_string()),
            post_id: Some(41),
            post_content: Some("commented post".to_string()),
            created_at: None,
        }]
    );
}

#[test]
fn a_repost_is_shown_with_its_remark_if_any() {
    let mut rows = no_rows();
    rows.reposts.push(repost(9, Some("look"), Some(8)));
    rows.reposts.push(repost(10, None, Some(7)));
    assert_eq!(
        get_unified_activities(&rows),
        vec![
            ActivityItem {
                id: 9,
                activity_type: ActivityKind::Repost,
                agent_id: 4,
                agent_name: "dee".to_string(),
                content: Some("look".to_string()),
                target_agent_id: None,
                target_agent_name: Some("cy".to_string()),
                post_id: Some(42),
                post_content: Some("reposted post".to_string()),
                created_at: Some(8),
            },
            ActivityItem {
                id: 10,
                activity_type: ActivityKind::Repost,
                agent_id: 4,
                agent_name: "dee".to_string(),
                content: None,
                target_agent_id: None,
                target_agent_name: Some("cy".to_string()),
                post_id: Some(42),
                post_content: Some("reposted post".to_string()),
                created_at: Some(7),
            },
        ]
    );
}

#[test]
fn a_follow_is_shown_with_the_followed_agent_as_target() {
    let mut rows = no_rows();
    rows.follows.push(follow(9, 5));
    assert_eq!(
        get_unified_activities(&rows),
        vec![ActivityItem {
            id: 9,
            activity_type: ActivityKind::Follow,
            agent_id: 5,
            agent_name: "eve".to_string(),
            content: None,
            target_agent_id: Some(6),
            target_agent_name: Some("fay".to_string()),
            post_id: None,
            post_content: None,
            created_at: Some(5),
        }]
    );
}

#[test]
fn undated_events_count_as_the_oldest_possible() {
    let rows = ActivityRows {
        posts: vec![post(1, -5_000_000_000_000_000), post(2, i64::MIN + 1)],
        likes: vec![],
        comments: vec![comment(1, None), comment(2, Some(0))],
        reposts: vec![repost(1, None, None), repost(2, None, Some(1))],
        follows: vec![],
    };
    assert_eq!(
        tags(&get_unified_activities(&rows)),
        vec![
            ("repost", 2),
            ("comment", 2),
            ("post", 1),
            ("post", 2),
            ("comment", 1),
            ("repost", 1),
        ]
    );
}

#[test]
fn an_undated_event_ties_with_the_lowest_moment() {
    let items = vec![
        item(1, ActivityKind::Comment, None),
        item(2, ActivityKind::Post, Some(i64::MIN)),
        item(3, ActivityKind::Comment, None),
    ];
    let ids: Vec<i32> = select_recent(&items, 10).iter().map(|entry| entry.id).collect();
    assert_eq!(ids, vec![1, 2, 3]);
}

#[test]
fn events_of_the_same_moment_keep_the_order_of_the_kinds() {
    let rows = ActivityRows {
        posts: vec![post(1, 7), post(2, 7)],
        likes: vec![like(1, 7)],
        comments: vec![comment(1, Some(7))],
        reposts: vec![repost(1, None, Some(7))],
        follows: vec![follow(1, 7)],
    };
    assert_eq!(
        tags(&get_unified_activities(&rows)),
        vec![("post", 1), ("post", 2), ("like", 1), ("comment", 1), ("repost", 1), ("follow", 1)]
    );
}

#[test]
fn only_the_fifty_most_recent_of_a_kind_are_considered() {
    let mut rows = no_rows();
    rows.posts = (0..60).map(|i| post(i, 1_000 + i as i64)).collect();
    let stream = get_unified_activities(&rows);
    let expected: Vec<(&str, i32)> = (10..60).rev().map(|i| ("post", i)).collect();
    assert_eq!(tags(&stream), expected);
}

#[test]
fn an_older_event_of_a_busy_kind_is_missing_though_newer_than_a_shown_one() {
    let mut rows = no_rows();
    rows.posts = (0..51).map(|i| post(i, 1_000 + i as i64)).collect();
    rows.follows = vec![follow(1, 5)];
    let stream = get_unified_activities(&rows);
    assert_eq!(stream.len(), 51);
    assert!(!tags(&stream).contains(&("post", 0)));
    assert_eq!(tags(&stream)[50], ("follow", 1));
    assert_eq!(tags(&stream)[49], ("post", 1));
}

#[test]
fn the_stream_shows_no_more_than_one_hundred() {
    let rows = ActivityRows {
        posts: (0..70).map(|i| post(i, 3 * i as i64)).collect(),
        likes: (0..70).map(|i| like(i, 3 * i as i64 + 1)).collect(),
        comments: (0..70).map(|i| comment(i, Some(3 * i as i64 + 2))).collect(),
        reposts: vec![],
        follows: vec![],
    };
    let stream = get_unified_activities(&rows);
    assert_eq!(stream.len(), 100);
    // considered: ids 20..70 of each kind; the hundred most recent of those
    // 150 are the three events of each id from 69 down to 37, and then
    // the comment of id 36
    assert_eq!(tags(&stream)[0], ("comment", 69));
    assert_eq!(tags(&stream)[1], ("like", 69));
    assert_eq!(tags(&stream)[2], ("post", 69));
    assert_eq!(tags(&stream)[97], ("like", 37));
    assert_eq!(tags(&stream)[98], ("post", 37));
    assert_eq!(tags(&stream)[99], ("comment", 36));
    assert!(stream.windows(2).all(|pair| pair[0].created_at >= pair[1].created_at));
}

#[test]
fn the_caps_can_be_chosen() {
    let rows = ActivityRows {
        posts: vec![post(1, 10), post(2, 30), post(3, 20)],
        likes: vec![like(1, 25), like(2, 5)],
        comments: vec![],
        reposts: vec![],
        follows: vec![follow(1, 40)],
    };
    assert_eq!(
        tags(&unify_activities(&rows, 1, 10)),
        vec![("follow", 1), ("post", 2), ("like", 1)]
    );
    assert_eq!(tags(&unify_activities(&rows, 2, 2)), vec![("follow", 1), ("post", 2)]);
    assert_eq!(unify_activities(&rows, 0, 10), vec![]);
    assert_eq!(unify_activities(&rows, 10, 0), vec![]);
}

#[test]
fn selecting_recent_entries_orders_and_caps() {
    let items = vec![
        item(1, ActivityKind::Post, Some(5)),
        item(2, ActivityKind::Like, Some(9)),
        item(3, ActivityKind::Follow, None),
        item(4, ActivityKind::Post, Some(9)),
    ];
    let ids = |limit: usize| -> Vec<i32> {
        select_recent(&items, limit).iter().map(|entry| entry.id).collect()
    };
    assert_eq!(ids(10), vec![2, 4, 1, 3]);
    assert_eq!(ids(3), vec![2, 4, 1]);
    assert_eq!(ids(1), vec![2]);
    assert_eq!(select_recent(&items, 1)[0], items[1]);
}
