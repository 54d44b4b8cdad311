//! JIRA sprint data: backlog items and their workflow order.

pub mod sprint;
pub mod laws;
pub mod cache;
pub mod adf;
pub mod fetch;
pub mod commands;
pub mod start;
