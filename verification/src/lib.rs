//! Verified core of a terminal client for JIRA sprints: workflow ordering of
//! backlog items, the sprint cache format, the extraction of sprint data from
//! API responses, and the key-driven state of the terminal views.

pub mod text;
pub mod jira;
pub mod json_doc;
pub mod input;
pub mod ui;
pub mod app;
