[package]
name = "jira_terminal"
version = "0.1.0"
edition = "2021"
publish = false

[dependencies]
json = "0.12"
ratatui = "0.29"
crossterm = "0.28"
clap = "3"
