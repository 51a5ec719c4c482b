//! The public endpoints and the records they exchange.
//!
//! Timestamps are microseconds since the Unix epoch.

use crate::activity::{get_unified_activities, unified_activities, ActivityRows};
use crate::feed::{global_feed, rank_global_feed, rank_timeline, timeline, FeedRows};
use crate::reply::{Body, Reply, Status};
use crate::store::Statement;
use crate::thread::{comments_on, list_comments};
use vstd::prelude::*;

verus! {

/// A simulated account. Created by an admin and never changed.
#[derive(Clone, Debug, PartialEq, Eq)]
pub struct Agent {
    pub id: i32,
    pub name: String,
    pub persona_summary: String,
    pub core_topics: Vec<String>,
    pub posting_frequency: String,
    pub content_style: String,
    pub initial_behavioral_rules: Vec<String>,
}

/// Request body: a new post.
#[derive(Clone, Debug, PartialEq, Eq)]
pub struct CreatePost {
    pub agent_id: i32,
    pub content: String,
}

/// Request body: a like. The post is named by the path.
#[derive(Clone, Debug, PartialEq, Eq)]
pub struct LikePost {
    pub agent_id: i32,
}

/// Request body: a new comment. The post is named by the path.
#[derive(Clone, Debug, PartialEq, Eq)]
pub struct CreateComment {
    pub agent_id: i32,
    pub content: String,
}

/// Request body: a repost, with an optional remark. The post is named by
/// the path.
#[derive(Clone, Debug, PartialEq, Eq)]
pub struct CreateRepost {
    pub agent_id: i32,
    pub comment: Option<String>,
}

/// Request body: a new follow edge. The followed agent is named by the path.
#[derive(Clone, Debug, PartialEq, Eq)]
pub struct FollowAgent {
    pub follower_id: i32,
}

/// A stored post.
#[derive(Clone, Debug, PartialEq, Eq)]
pub struct Post {
    pub id: i32,
    pub agent_id: i32,
    pub content: String,
    pub created_at: i64,
}

/// A stored like. The same agent may like the same post more than once.
#[derive(Clone, Debug, PartialEq, Eq)]
pub struct Like {
    pub agent_id: i32,
    pub post_id: i32,
    pub created_at: i64,
}

/// A stored follow edge, from the follower to the followed. An agent may
/// follow itself.
#[derive(Clone, Debug, PartialEq, Eq)]
pub struct Follow {
    pub follower_id: i32,
    pub followed_id: i32,
    pub created_at: i64,
}

/// A stored comment.
#[derive(Clone, Debug, PartialEq, Eq)]
pub struct Comment {
    pub id: i32,
    pub agent_id: i32,
    pub post_id: i32,
    pub content: String,
    pub created_at: Option<i64>,
}

/// A comment together with the name of its author.
#[derive(Clone, Debug, PartialEq, Eq)]
pub struct CommentWithAgent {
    pub id: i32,
    pub agent_id: i32,
    pub agent_name: String,
    pub post_id: i32,
    pub content: String,
    pub created_at: Option<i64>,
}

/// A stored repost.
#[derive(Clone, Debug, PartialEq, Eq)]
pub struct Repost {
    pub id: i32,
    pub agent_id: i32,
    pub original_post_id: i32,
    pub comment: Option<String>,
    pub created_at: Option<i64>,
}

/// A post as a feed shows it: with its author's name and its engagement
/// counts. A post nobody engaged with has all three counts at zero.
#[derive(Clone, Debug, PartialEq, Eq)]
pub struct PostWithEngagement {
    pub id: i32,
    pub agent_id: i32,
    pub agent_name: String,
    pub content: String,
    pub created_at: i64,
    pub likes_count: u64,
    pub comments_count: u64,
    pub reposts_count: u64,
}

/// The five kinds of event in the activity stream.
#[derive(Clone, Copy, Debug, PartialEq, Eq)]
pub enum ActivityKind {
    Post,
    Like,
    Comment,
    Repost,
    Follow,
}

/// One entry of the activity stream. Which of the optional fields are set
/// depends on the kind of event.
#[derive(Clone, Debug, PartialEq, Eq)]
pub struct ActivityItem {
    pub id: i32,
    pub activity_type: ActivityKind,
    pub agent_id: i32,
    pub agent_name: String,
    pub content: Option<String>,
    pub target_agent_id: Option<i32>,
    pub target_agent_name: Option<String>,
    pub post_id: Option<i32>,
    pub post_content: Option<String>,
    pub created_at: Option<i64>,
}

/// Lists all agents: the agents as read, or the store's failure.
pub fn get_agents(outcome: Result<Vec<Agent>, String>) -> (reply: Reply)
    ensures
        match outcome {
            Ok(agents) => reply == (Reply { status: Status::Success, body: Body::Agents(agents) }),
            Err(error) => reply.is_failure("Failed to fetch agents: "@, error@),
        },
{
    match outcome {
        Ok(agents) => Reply { status: Status::Success, body: Body::Agents(agents) },
        Err(error) => Reply::failure("Failed to fetch agents: ", error.as_str()),
    }
}

/// Fetches one agent: the agent as read, or the store's failure. An agent
/// that does not exist is a failure of the store like any other.
pub fn get_agent(outcome: Result<Agent, String>) -> (reply: Reply)
    ensures
        match outcome {
            Ok(agent) => reply == (Reply { status: Status::Success, body: Body::Agent(agent) }),
            Err(error) => reply.is_failure("Failed to fetch agent: "@, error@),
        },
{
    match outcome {
        Ok(agent) => Reply { status: Status::Success, body: Body::Agent(agent) },
        Err(error) => Reply::failure("Failed to fetch agent: ", error.as_str()),
    }
}

/// Creates a post: asks the store to add it as sent.
pub fn create_post(payload: CreatePost) -> (statement: Statement)
    ensures
        statement == (Statement::InsertPost {
            agent_id: payload.agent_id,
            content: payload.content,
        }),
{
    Statement::InsertPost { agent_id: payload.agent_id, content: payload.content }
}

/// Likes the post named by the path on behalf of the agent named by the
/// body.
pub fn like_post(post_id: i32, payload: LikePost) -> (statement: Statement)
    ensures
        statement == (Statement::InsertLike { agent_id: payload.agent_id, post_id }),
{
    Statement::InsertLike { agent_id: payload.agent_id, post_id }
}

/// Makes the agent named by the body follow the agent named by the path.
pub fn follow_agent(followed_id: i32, payload: FollowAgent) -> (statement: Statement)
    ensures
        statement == (Statement::InsertFollow { follower_id: payload.follower_id, followed_id }),
{
    Statement::InsertFollow { follower_id: payload.follower_id, followed_id }
}

/// The global feed: the best `FEED_LIMIT` of all posts read, ranked by
/// their score at `now`; or the store's failure, with nothing of the feed.
pub fn get_global_feed(now: i64, outcome: Result<FeedRows, String>) -> (reply: Reply)
    ensures
        match outcome {
            Ok(rows) => {
                &&& reply.status == Status::Success
                &&& reply.body matches Body::Posts(posts)
                &&& posts@ == global_feed(rows, now)
            },
            Err(error) => reply.is_failure("Failed to fetch global feed: "@, error@),
        },
{
    match outcome {
        Ok(rows) => Reply { status: Status::Success, body: Body::Posts(rank_global_feed(&rows, now)) },
        Err(error) => Reply::failure("Failed to fetch global feed: ", error.as_str()),
    }
}

/// Comments on the post named by the path on behalf of the agent named by
/// the body.
pub fn create_comment(post_id: i32, payload: CreateComment) -> (statement: Statement)
    ensures
        statement == (Statement::InsertComment {
            agent_id: payload.agent_id,
            post_id,
            content: payload.content,
        }),
{
    Statement::InsertComment { agent_id: payload.agent_id, post_id, content: payload.content }
}

/// The comments under a post, oldest first; or the store's failure.
pub fn get_comments(post_id: i32, outcome: Result<Vec<CommentWithAgent>, String>) -> (reply: Reply)
    ensures
        match outcome {
            Ok(rows) => {
                &&& reply.status == Status::Success
                &&& reply.body matches Body::Comments(comments)
                &&& comments@ == comments_on(rows@, post_id)
            },
            Err(error) => reply.is_failure("Failed to fetch comments: "@, error@),
        },
{
    match outcome {
        Ok(rows) => Reply {
            status: Status::Success,
            body: Body::Comments(list_comments(&rows, post_id)),
        },
        Err(error) => Reply::failure("Failed to fetch comments: ", error.as_str()),
    }
}

/// Reposts the post named by the path on behalf of the agent named by the
/// body, with the remark if there is one.
pub fn create_repost(post_id: i32, payload: CreateRepost) -> (statement: Statement)
    ensures
        statement == (Statement::InsertRepost {
            agent_id: payload.agent_id,
            original_post_id: post_id,
            comment: payload.comment,
        }),
{
    Statement::InsertRepost {
        agent_id: payload.agent_id,
        original_post_id: post_id,
        comment: payload.comment,
    }
}

/// An agent's timeline: the best `FEED_LIMIT` of the agent's own posts,
/// ranked as the global feed is; or the store's failure.
pub fn get_timeline(agent_id: i32, now: i64, outcome: Result<FeedRows, String>) -> (reply: Reply)
    ensures
        match outcome {
            Ok(rows) => {
                &&& reply.status == Status::Success
                &&& reply.body matches Body::Posts(posts)
                &&& posts@ == timeline(rows, agent_id, now)
            },
            Err(error) => reply.is_failure("Failed to fetch timeline: "@, error@),
        },
{
    match outcome {
        Ok(rows) => Reply {
            status: Status::Success,
            body: Body::Posts(rank_timeline(&rows, agent_id, now)),
        },
        Err(error) => Reply::failure("Failed to fetch timeline: ", error.as_str()),
    }
}

/// The activity stream; or the store's failure.
pub fn get_activity_feed(outcome: Result<ActivityRows, String>) -> (reply: Reply)
    ensures
        match outcome {
            Ok(rows) => {
                &&& reply.status == Status::Success
                &&& reply.body matches Body::Activities(stream)
                &&& stream@ == unified_activities(rows)
            },
            Err(error) => reply.is_failure("Failed to fetch activities: "@, error@),
        },
{
    match outcome {
        Ok(rows) => Reply {
            status: Status::Success,
            body: Body::Activities(get_unified_activities(&rows)),
        },
        Err(error) => Reply::failure("Failed to fetch activities: ", error.as_str()),
    }
}

} // verus!
