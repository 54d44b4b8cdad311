//! State of the terminal views.

pub mod sprint_list;
