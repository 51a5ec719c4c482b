use twitter_api_service::api::public::CommentWithAgent;
use twitter_api_service::thread::list_comments;

fn comment(id: i32, post_id: i32, created_at: Option<i64>) -> CommentWithAgent {
    CommentWithAgent {
        id,
        agent_id: id * 10,
        agent_name: format!("agent {}", id * 10),
        post_id,
        content: format!("comment {id}"),
        created_at,
    }
}

fn ids(listed: &[CommentWithAgent]) -> Vec<i32> {
    listed.iter().map(|c| c.id).collect()
}

#[test]
fn no_comments_lists_nothing() {
    assert_eq!(list_comments(&vec![], 1), vec![]);
    assert_eq!(list_comments(&vec![comment(1, 2, Some(5))], 1), vec![]);
}

#[test]
fn comments_are_listed_oldest_first() {
    let rows = vec![comment(1, 1, Some(30)), comment(2, 1, Some(10)), comment(3, 1, Some(20))];
    let listed = list_comments(&rows, 1);
    assert_eq!(ids(&listed), vec![2, 3, 1]);
    assert_eq!(listed[0], comment(2, 1, Some(10)));
}

#[test]
fn comments_on_other_posts_are_left_out() {
    let rows = vec![
        comment(1, 1, Some(30)),
        comment(2, 2, Some(10)),
        comment(3, 1, Some(20)),
        comment(4, 3, Some(5)),
    ];
    assert_eq!(ids(&list_comments(&rows, 1)), vec![3, 1]);
    assert_eq!(ids(&list_comments(&rows, 2)), vec![2]);
}

#[test]
fn undated_comments_come_last() {
    let rows = vec![
        comment(1, 1, None),
        comment(2, 1, Some(i64::MAX)),
        comment(3, 1, Some(i64::MIN)),
        comment(4, 1, None),
        comment(5, 1, Some(0)),
    ];
    assert_eq!(ids(&list_comments(&rows, 1)), vec![3, 5, 2, 1, 4]);
}

#[test]
fn comments_of_the_same_moment_keep_the_order_read() {
    let rows = vec![comment(3, 1, Some(7)), comment(1, 1, Some(7)), comment(2, 1, Some(7))];
    assert_eq!(ids(&list_comments(&rows, 1)), vec![3, 1, 2]);
}

#[test]
fn more_comments_than_a_feed_shows_are_all_listed() {
    let rows: Vec<CommentWithAgent> =
        (0..250).map(|i| comment(i, 1, Some(1_000 - i as i64))).collect();
    let expected: Vec<i32> = (0..250).rev().collect();
    assert_eq!(ids(&list_comments(&rows, 1)), expected);
}
