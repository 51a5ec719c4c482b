//! The admin endpoints and the record they accept.

use crate::store::Statement;
use vstd::prelude::*;

verus! {

/// Request body: a new agent.
#[derive(Clone, Debug, PartialEq, Eq)]
pub struct CreateAgent {
    pub name: String,
    pub persona_summary: String,
    pub core_topics: Vec<String>,
    pub posting_frequency: String,
    pub content_style: String,
    pub initial_behavioral_rules: Vec<String>,
}

/// Creates an agent: asks the store to add the agent exactly as sent.
pub fn create_agent(payload: CreateAgent) -> (statement: Statement)
    ensures
        statement == Statement::InsertAgent(payload),
{
    Statement::InsertAgent(payload)
}

/// Resets the simulation: asks the store to wipe every transactional
/// table. The agents stay.
pub fn reset() -> (statement: Statement)
    ensures
        statement == Statement::Truncate,
{
    Statement::Truncate
}

} // verus!
