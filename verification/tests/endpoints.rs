use twitter_api_service::activity::{ActivityRows, PostCreated};
use twitter_api_service::api::admin::{create_agent, reset, CreateAgent};
use twitter_api_service::api::public::{
    create_comment, create_post, create_repost, follow_agent, get_activity_feed, get_agent,
    get_agents, get_comments, get_global_feed, get_timeline, like_post, ActivityKind, Agent,
    CommentWithAgent, CreateComment, CreatePost, CreateRepost, FollowAgent, LikePost, Post,
};
use twitter_api_service::feed::{AuthoredPost, FeedRows};
use twitter_api_service::reply::{Body, Reply, Status};
use twitter_api_service::store::{Statement, Table};

fn agent(id: i32) -> Agent {
    Agent {
        id,
        name: format!("agent {id}"),
        persona_summary: "curious".to_string(),
        core_topics: vec!["rust".to_string(), "proofs".to_string()],
        posting_frequency: "daily".to_string(),
        content_style: "dry".to_string(),
        initial_behavioral_rules: vec!["be kind".to_string()],
    }
}

fn new_agent() -> CreateAgent {
    CreateAgent {
        name: "ada".to_string(),
        persona_summary: "curious".to_string(),
        core_topics: vec!["rust".to_string(), "proofs".to_string()],
        posting_frequency: "daily".to_string(),
        content_style: "dry".to_string(),
        initial_behavioral_rules: vec!["be kind".to_string(), "cite".to_string()],
    }
}

fn text(status: Status, body: &str) -> Reply {
    Reply { status, body: Body::Text(body.to_string()) }
}

fn down() -> Result<(), String> {
    Err("pool timed out".to_string())
}

#[test]
fn status_codes_are_those_of_http() {
    assert_eq!(Status::Success.code(), 200);
    assert_eq!(Status::Created.code(), 201);
    assert_eq!(Status::Unauthorized.code(), 401);
    assert_eq!(Status::InternalServerError.code(), 500);
}

#[test]
fn replies_are_built_from_status_and_text() {
    assert_eq!(Reply::text(Status::Created, "done"), text(Status::Created, "done"));
    assert_eq!(Reply::empty(Status::Success), Reply { status: Status::Success, body: Body::Empty });
    assert_eq!(
        Reply::failure("Failed to x: ", "boom"),
        text(Status::InternalServerError, "Failed to x: boom")
    );
    assert_eq!(Reply::failure("", ""), text(Status::InternalServerError, ""));
}

#[test]
fn tables_are_named_as_in_the_store() {
    let names: Vec<&str> = [
        Table::Agents,
        Table::Posts,
        Table::Likes,
        Table::Followers,
        Table::Comments,
        Table::Reposts,
    ]
    .iter()
    .map(|table| table.name())
    .collect();
    assert_eq!(names, vec!["agents", "posts", "likes", "followers", "comments", "reposts"]);
}

#[test]
fn creating_an_agent_adds_it_as_sent() {
    let statement = create_agent(new_agent());
    assert_eq!(statement, Statement::InsertAgent(new_agent()));
    assert_eq!(statement.target(), Some(Table::Agents));
    assert_eq!(statement.wiped_tables(), vec![]);
    assert_eq!(statement.reply(Ok(())), text(Status::Created, "Agent created"));
    assert_eq!(
        statement.reply(down()),
        text(Status::InternalServerError, "Failed to create agent: pool timed out")
    );
}

#[test]
fn reset_wipes_every_table_but_the_agents() {
    let statement = reset();
    assert_eq!(statement, Statement::Truncate);
    assert_eq!(statement.target(), None);
    assert_eq!(
        statement.wiped_tables(),
        vec![Table::Posts, Table::Likes, Table::Followers, Table::Comments, Table::Reposts]
    );
    assert!(!statement.wiped_tables().contains(&Table::Agents));
    assert_eq!(statement.reply(Ok(())), text(Status::Success, "Reset successful"));
    assert_eq!(
        statement.reply(down()),
        text(Status::InternalServerError, "Failed to reset: pool timed out")
    );
}

#[test]
fn after_a_reset_the_feed_is_empty_and_the_agents_are_still_listed() {
    let agents = vec![agent(1), agent(2)];
    let wiped = FeedRows { posts: vec![], likes: vec![], comments: vec![], reposts: vec![] };
    assert_eq!(
        get_global_feed(0, Ok(wiped)),
        Reply { status: Status::Success, body: Body::Posts(vec![]) }
    );
    assert_eq!(
        get_agents(Ok(agents.clone())),
        Reply { status: Status::Success, body: Body::Agents(agents) }
    );
}

#[test]
fn creating_a_post_adds_it_for_its_agent() {
    let statement = create_post(CreatePost { agent_id: 3, content: "hello".to_string() });
    assert_eq!(statement, Statement::InsertPost { agent_id: 3, content: "hello".to_string() });
    assert_eq!(statement.target(), Some(Table::Posts));
    assert_eq!(statement.reply(Ok(())), text(Status::Created, "Post created"));
    assert_eq!(
        statement.reply(down()),
        text(Status::InternalServerError, "Failed to create post: pool timed out")
    );
}

#[test]
fn liking_takes_the_post_from_the_path_and_the_agent_from_the_body() {
    let statement = like_post(8, LikePost { agent_id: 3 });
    assert_eq!(statement, Statement::InsertLike { agent_id: 3, post_id: 8 });
    assert_eq!(statement.target(), Some(Table::Likes));
    assert_eq!(statement.reply(Ok(())), text(Status::Created, "Post liked"));
    assert_eq!(
        statement.reply(down()),
        text(Status::InternalServerError, "Failed to like post: pool timed out")
    );
}

#[test]
fn following_takes_the_followed_from_the_path_and_the_follower_from_the_body() {
    let statement = follow_agent(8, FollowAgent { follower_id: 3 });
    assert_eq!(statement, Statement::InsertFollow { follower_id: 3, followed_id: 8 });
    assert_eq!(statement.target(), Some(Table::Followers));
    assert_eq!(statement.reply(Ok(())), text(Status::Created, "Agent followed"));
    assert_eq!(
        statement.reply(down()),
        text(Status::InternalServerError, "Failed to follow agent: pool timed out")
    );
}

#[test]
fn a_self_follow_is_passed_on_to_the_store() {
    assert_eq!(
        follow_agent(3, FollowAgent { follower_id: 3 }),
        Statement::InsertFollow { follower_id: 3, followed_id: 3 }
    );
}

#[test]
fn commenting_answers_created_without_a_body() {
    let statement = create_comment(8, CreateComment { agent_id: 3, content: "nice".to_string() });
    assert_eq!(
        statement,
        Statement::InsertComment { agent_id: 3, post_id: 8, content: "nice".to_string() }
    );
    assert_eq!(statement.target(), Some(Table::Comments));
    assert_eq!(statement.reply(Ok(())), Reply { status: Status::Created, body: Body::Empty });
    assert_eq!(
        statement.reply(down()),
        text(Status::InternalServerError, "Failed to create comment: pool timed out")
    );
}

#[test]
fn reposting_answers_created_without_a_body() {
    let with_remark =
        create_repost(8, CreateRepost { agent_id: 3, comment: Some("look".to_string()) });
    assert_eq!(
        with_remark,
        Statement::InsertRepost {
            agent_id: 3,
            original_post_id: 8,
            comment: Some("look".to_string())
        }
    );
    let bare = create_repost(8, CreateRepost { agent_id: 3, comment: None });
    assert_eq!(bare, Statement::InsertRepost { agent_id: 3, original_post_id: 8, comment: None });
    assert_eq!(bare.target(), Some(Table::Reposts));
    assert_eq!(bare.reply(Ok(())), Reply { status: Status::Created, body: Body::Empty });
    assert_eq!(
        bare.reply(down()),
        text(Status::InternalServerError, "Failed to create repost: pool timed out")
    );
}

#[test]
fn listing_agents_hands_them_on_or_reports_the_failure() {
    assert_eq!(
        get_agents(Ok(vec![agent(2), agent(1)])),
        Reply { status: Status::Success, body: Body::Agents(vec![agent(2), agent(1)]) }
    );
    assert_eq!(get_agents(Ok(vec![])), Reply { status: Status::Success, body: Body::Agents(vec![]) });
    assert_eq!(
        get_agents(Err("connection refused".to_string())),
        text(Status::InternalServerError, "Failed to fetch agents: connection refused")
    );
}

#[test]
fn fetching_an_agent_hands_it_on_or_reports_the_failure() {
    assert_eq!(
        get_agent(Ok(agent(4))),
        Reply { status: Status::Success, body: Body::Agent(agent(4)) }
    );
    assert_eq!(
        get_agent(Err("no rows returned".to_string())),
        text(Status::InternalServerError, "Failed to fetch agent: no rows returned")
    );
}

#[test]
fn the_global_feed_is_ranked_or_the_failure_is_reported() {
    let rows = FeedRows {
        posts: vec![
            AuthoredPost {
                post: Post { id: 1, agent_id: 1, content: "old".to_string(), created_at: 10 },
                agent_name: "ada".to_string(),
            },
            AuthoredPost {
                post: Post { id: 2, agent_id: 2, content: "new".to_string(), created_at: 20 },
                agent_name: "bob".to_string(),
            },
        ],
        likes: vec![],
        comments: vec![],
        reposts: vec![],
    };
    match get_global_feed(30, Ok(rows)) {
        Reply { status: Status::Success, body: Body::Posts(posts) } => {
            let ids: Vec<i32> = posts.iter().map(|p| p.id).collect();
            assert_eq!(ids, vec![2, 1]);
        }
        other => panic!("unexpected reply {other:?}"),
    }
    assert_eq!(
        get_global_feed(30, Err("syntax error".to_string())),
        text(Status::InternalServerError, "Failed to fetch global feed: syntax error")
    );
}

#[test]
fn the_timeline_is_ranked_or_the_failure_is_reported() {
    let rows = FeedRows {
        posts: vec![
            AuthoredPost {
                post: Post { id: 1, agent_id: 1, content: "mine".to_string(), created_at: 10 },
                agent_name: "ada".to_string(),
            },
            AuthoredPost {
                post: Post { id: 2, agent_id: 2, content: "theirs".to_string(), created_at: 20 },
                agent_name: "bob".to_string(),
            },
        ],
        likes: vec![],
        comments: vec![],
        reposts: vec![],
    };
    match get_timeline(1, 30, Ok(rows)) {
        Reply { status: Status::Success, body: Body::Posts(posts) } => {
            let ids: Vec<i32> = posts.iter().map(|p| p.id).collect();
            assert_eq!(ids, vec![1]);
        }
        other => panic!("unexpected reply {other:?}"),
    }
    assert_eq!(
        get_timeline(1, 30, Err("syntax error".to_string())),
        text(Status::InternalServerError, "Failed to fetch timeline: syntax error")
    );
}

#[test]
fn the_comments_are_listed_or_the_failure_is_reported() {
    let comment = |id: i32, post_id: i32, created_at: i64| CommentWithAgent {
        id,
        agent_id: 1,
        agent_name: "ada".to_string(),
        post_id,
        content: "c".to_string(),
        created_at: Some(created_at),
    };
    assert_eq!(
        get_comments(5, Ok(vec![comment(1, 5, 20), comment(2, 6, 1), comment(3, 5, 10)])),
        Reply {
            status: Status::Success,
            body: Body::Comments(vec![comment(3, 5, 10), comment(1, 5, 20)])
        }
    );
    assert_eq!(
        get_comments(5, Err("gone".to_string())),
        text(Status::InternalServerError, "Failed to fetch comments: gone")
    );
}

#[test]
fn the_activity_stream_is_built_or_the_failure_is_reported() {
    let rows = ActivityRows {
        posts: vec![PostCreated {
            id: 1,
            agent_id: 1,
            agent_name: "ada".to_string(),
            content: "hi".to_string(),
            created_at: 10,
        }],
        likes: vec![],
        comments: vec![],
        reposts: vec![],
        follows: vec![],
    };
    match get_activity_feed(Ok(rows)) {
        Reply { status: Status::Success, body: Body::Activities(stream) } => {
            assert_eq!(stream.len(), 1);
            assert_eq!(stream[0].activity_type, ActivityKind::Post);
            assert_eq!(stream[0].content, Some("hi".to_string()));
        }
        other => panic!("unexpected reply {other:?}"),
    }
    assert_eq!(
        get_activity_feed(Err("gone".to_string())),
        text(Status::InternalServerError, "Failed to fetch activities: gone")
    );
}

#[test]
fn a_failure_keeps_the_stores_text_as_it_is() {
    let odd = "détail: \"x\"\n  at line 3";
    assert_eq!(
        get_agents(Err(odd.to_string())),
        text(Status::InternalServerError, &format!("Failed to fetch agents: {odd}"))
    );
    assert_eq!(
        reset().reply(Err(String::new())),
        text(Status::InternalServerError, "Failed to reset: ")
    );
}
