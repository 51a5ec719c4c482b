//! What an endpoint hands back: a status and a body.
//!
//! A failure of the data store always becomes a 500 whose plain-text body
//! is the endpoint's own phrase followed by the store's error text.

use crate::api::public::{ActivityItem, Agent, CommentWithAgent, PostWithEngagement};
use vstd::prelude::*;
use vstd::string::*;

verus! {

/// The HTTP statuses the service answers with.
#[derive(Clone, Copy, Debug, PartialEq, Eq)]
pub enum Status {
    Success,
    Created,
    Unauthorized,
    InternalServerError,
}

impl Status {
    /// The numeric status code.
    pub open spec fn code_of(self) -> u16 {
        match self {
            Status::Success => 200,
            Status::Created => 201,
            Status::Unauthorized => 401,
            Status::InternalServerError => 500,
        }
    }

    /// The numeric status code.
    pub fn code(&self) -> (code: u16)
        ensures
            code == self.code_of(),
    {
        match self {
            Status::Success => 200,
            Status::Created => 201,
            Status::Unauthorized => 401,
            Status::InternalServerError => 500,
        }
    }
}

/// The body of a reply. Everything but `Empty` and `Text` is sent as JSON.
#[derive(Clone, Debug, PartialEq, Eq)]
pub enum Body {
    Empty,
    Text(String),
    Agents(Vec<Agent>),
    Agent(Agent),
    Posts(Vec<PostWithEngagement>),
    Comments(Vec<CommentWithAgent>),
    Activities(Vec<ActivityItem>),
}

/// A complete reply.
#[derive(Clone, Debug, PartialEq, Eq)]
pub struct Reply {
    pub status: Status,
    pub body: Body,
}

impl Reply {
    /// The reply has this status and a plain-text body that reads `text`.
    pub open spec fn is_text(self, status: Status, text: Seq<char>) -> bool {
        &&& self.status == status
        &&& self.body matches Body::Text(t)
        &&& t@ == text
    }

    /// The reply is the 500 that reports a store failure: `phrase`, then
    /// the store's error text.
    pub open spec fn is_failure(self, phrase: Seq<char>, error: Seq<char>) -> bool {
        self.is_text(Status::InternalServerError, phrase + error)
    }

    /// A reply with a plain-text body.
    pub fn text(status: Status, text: &str) -> (reply: Reply)
        ensures
            reply.is_text(status, text@),
    {
        Reply { status, body: Body::Text(String::from_str(text)) }
    }

    /// A reply with no body.
    pub fn empty(status: Status) -> (reply: Reply)
        ensures
            reply == (Reply { status, body: Body::Empty }),
    {
        Reply { status, body: Body::Empty }
    }

    /// The 500 for a failed store operation.
    pub fn failure(phrase: &str, error: &str) -> (reply: Reply)
        ensures
            reply.is_failure(phrase@, error@),
    {
        Reply {
            status: Status::InternalServerError,
            body: Body::Text(String::from_str(phrase).concat(error)),
        }
    }
}

} // verus!
