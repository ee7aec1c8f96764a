//! Navigation and orchestration engine of a terminal dashboard that browses
//! workspaces and projects and launches per-project commands in the panes of
//! a terminal multiplexer.

pub mod text;
pub mod ordering;
pub mod config;
pub mod app;
pub mod file_tree;
pub mod session;
pub mod views;
pub mod runner;
pub mod git_info;
pub mod web;
pub mod layout;
pub mod cli;
