//! Verified core of a small social-network backend: engagement scoring,
//! feed ranking, the unified activity stream, the admin gate and the
//! replies of every endpoint.

pub mod activity;
pub mod api;
pub mod auth_middleware;
pub mod feed;
pub mod ranking;
pub mod reply;
pub mod score;
pub mod store;
pub mod thread;
