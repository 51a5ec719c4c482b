//! What the service asks the data store to change, and how it answers the
//! caller once the store has done so or failed.
//!
//! Every write is a single statement, tried once. Nothing is ever updated:
//! rows are added, or all transactional tables are wiped at once. Agents
//! outlive a wipe.

use crate::api::admin::CreateAgent;
use crate::reply::{Body, Reply, Status};
use vstd::prelude::*;

verus! {

/// The tables of the store.
#[derive(Clone, Copy, Debug, PartialEq, Eq)]
pub enum Table {
    Agents,
    Posts,
    Likes,
    Followers,
    Comments,
    Reposts,
}

impl Table {
    /// The name of the table in the store.
    pub open spec fn name_of(self) -> Seq<char> {
        match self {
            Table::Agents => "agents"@,
            Table::Posts => "posts"@,
            Table::Likes => "likes"@,
            Table::Followers => "followers"@,
            Table::Comments => "comments"@,
            Table::Reposts => "reposts"@,
        }
    }

    /// The name of the table in the store.
    pub fn name(&self) -> (name: &'static str)
        ensures
            name@ == self.name_of(),
    {
        match self {
            Table::Agents => "agents",
            Table::Posts => "posts",
            Table::Likes => "likes",
            Table::Followers => "followers",
            Table::Comments => "comments",
            Table::Reposts => "reposts",
        }
    }
}

/// One change asked of the store.
#[derive(Clone, Debug, PartialEq, Eq)]
pub enum Statement {
    /// Add an agent.
    InsertAgent(CreateAgent),
    /// Wipe every transactional table.
    Truncate,
    /// Add a post by `agent_id`.
    InsertPost { agent_id: i32, content: String },
    /// Add a like by `agent_id` on `post_id`.
    InsertLike { agent_id: i32, post_id: i32 },
    /// Add an edge from `follower_id` to `followed_id`.
    InsertFollow { follower_id: i32, followed_id: i32 },
    /// Add a comment by `agent_id` on `post_id`.
    InsertComment { agent_id: i32, post_id: i32, content: String },
    /// Add a repost by `agent_id` of `original_post_id`.
    InsertRepost { agent_id: i32, original_post_id: i32, comment: Option<String> },
}

impl Statement {
    /// The table a statement adds a row to, if it adds one.
    pub open spec fn grows(self) -> Option<Table> {
        match self {
            Statement::InsertAgent(_) => Some(Table::Agents),
            Statement::Truncate => None,
            Statement::InsertPost { .. } => Some(Table::Posts),
            Statement::InsertLike { .. } => Some(Table::Likes),
            Statement::InsertFollow { .. } => Some(Table::Followers),
            Statement::InsertComment { .. } => Some(Table::Comments),
            Statement::InsertRepost { .. } => Some(Table::Reposts),
        }
    }

    /// Whether a statement empties a table: only a wipe does, and it
    /// empties every table but that of the agents.
    pub open spec fn wipes(self, table: Table) -> bool {
        self is Truncate && table != Table::Agents
    }

    /// The status that reports success.
    pub open spec fn success_status(self) -> Status {
        match self {
            Statement::Truncate => Status::Success,
            _ => Status::Created,
        }
    }

    /// The text that reports success, where there is one.
    pub open spec fn success_text(self) -> Option<Seq<char>> {
        match self {
            Statement::InsertAgent(_) => Some("Agent created"@),
            Statement::Truncate => Some("Reset successful"@),
            Statement::InsertPost { .. } => Some("Post created"@),
            Statement::InsertLike { .. } => Some("Post liked"@),
            Statement::InsertFollow { .. } => Some("Agent followed"@),
            Statement::InsertComment { .. } => None,
            Statement::InsertRepost { .. } => None,
        }
    }

    /// The phrase that opens the report of a failure.
    pub open spec fn failure_phrase(self) -> Seq<char> {
        match self {
            Statement::InsertAgent(_) => "Failed to create agent: "@,
            Statement::Truncate => "Failed to reset: "@,
            Statement::InsertPost { .. } => "Failed to create post: "@,
            Statement::InsertLike { .. } => "Failed to like post: "@,
            Statement::InsertFollow { .. } => "Failed to follow agent: "@,
            Statement::InsertComment { .. } => "Failed to create comment: "@,
            Statement::InsertRepost { .. } => "Failed to create repost: "@,
        }
    }

    /// `reply` is the answer owed for this statement after `outcome`.
    pub open spec fn answered_by(self, outcome: Result<(), String>, reply: Reply) -> bool {
        match outcome {
            Ok(_) => match self.success_text() {
                Some(text) => reply.is_text(self.success_status(), text),
                None => reply == (Reply { status: self.success_status(), body: Body::Empty }),
            },
            Err(error) => reply.is_failure(self.failure_phrase(), error@),
        }
    }

    /// The table this statement adds a row to, if it adds one.
    pub fn target(&self) -> (table: Option<Table>)
        ensures
            table == self.grows(),
    {
        match self {
            Statement::InsertAgent(_) => Some(Table::Agents),
            Statement::Truncate => None,
            Statement::InsertPost { .. } => Some(Table::Posts),
            Statement::InsertLike { .. } => Some(Table::Likes),
            Statement::InsertFollow { .. } => Some(Table::Followers),
            Statement::InsertComment { .. } => Some(Table::Comments),
            Statement::InsertRepost { .. } => Some(Table::Reposts),
        }
    }

    /// The tables this statement empties, in the order in which the store
    /// is asked to empty them.
    pub fn wiped_tables(&self) -> (tables: Vec<Table>)
        ensures
            forall|table: Table| tables@.contains(table) <==> self.wipes(table),
            self is Truncate ==> tables@ == seq![
                Table::Posts,
                Table::Likes,
                Table::Followers,
                Table::Comments,
                Table::Reposts,
            ],
    {
        let mut tables: Vec<Table> = Vec::new();
        match self {
            Statement::Truncate => {
                tables.push(Table::Posts);
                tables.push(Table::Likes);
                tables.push(Table::Followers);
                tables.push(Table::Comments);
                tables.push(Table::Reposts);
                assert(tables@ =~= seq![
                    Table::Posts,
                    Table::Likes,
                    Table::Followers,
                    Table::Comments,
                    Table::Reposts,
                ]);
                assert(tables@[0] == Table::Posts && tables@[1] == Table::Likes && tables@[2]
                    == Table::Followers && tables@[3] == Table::Comments && tables@[4]
                    == Table::Reposts);
            },
            _ => {},
        }
        tables
    }

    /// The answer to the caller once the store has run this statement:
    /// the success of the endpoint, or a 500 with the endpoint's phrase
    /// and the store's error text.
    pub fn reply(&self, outcome: Result<(), String>) -> (reply: Reply)
        ensures
            self.answered_by(outcome, reply),
    {
        match outcome {
            Ok(_) => match self {
                Statement::InsertAgent(_) => Reply::text(Status::Created, "Agent created"),
                Statement::Truncate => Reply::text(Status::Success, "Reset successful"),
                Statement::InsertPost { .. } => Reply::text(Status::Created, "Post created"),
                Statement::InsertLike { .. } => Reply::text(Status::Created, "Post liked"),
                Statement::InsertFollow { .. } => Reply::text(Status::Created, "Agent followed"),
                Statement::InsertComment { .. } => Reply::empty(Status::Created),
                Statement::InsertRepost { .. } => Reply::empty(Status::Created),
            },
            Err(error) => match self {
                Statement::InsertAgent(_) => Reply::failure(
                    "Failed to create agent: ",
                    error.as_str(),
                ),
                Statement::Truncate => Reply::failure("Failed to reset: ", error.as_str()),
                Statement::InsertPost { .. } => Reply::failure(
                    "Failed to create post: ",
                    error.as_str(),
                ),
                Statement::InsertLike { .. } => Reply::failure(
                    "Failed to like post: ",
                    error.as_str(),
                ),
                Statement::InsertFollow { .. } => Reply::failure(
                    "Failed to follow agent: ",
                    error.as_str(),
                ),
                Statement::InsertComment { .. } => Reply::failure(
                    "Failed to create comment: ",
                    error.as_str(),
                ),
                Statement::InsertRepost { .. } => Reply::failure(
                    "Failed to create repost: ",
                    error.as_str(),
                ),
            },
        }
    }
}

/// A wipe leaves the agents alone, and no other statement empties
/// anything.
pub proof fn lemma_agents_outlive_statements(statement: Statement, table: Table)
    ensures
        !statement.wipes(Table::Agents),
        !(statement is Truncate) ==> !statement.wipes(table),
        statement is Truncate && table != Table::Agents ==> statement.wipes(table),
{
}

} // verus!
