//! The endpoints: what each asks of the data store and what it replies.

pub mod admin;
pub mod public;
