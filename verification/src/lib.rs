//! A GitHub repository picker and cloner: repository specs and clone URLs,
//! the sorted and filtered repository list and its keyboard-driven picker,
//! and the decisions of the OAuth device flow, the paged repository fetch and
//! `git clone`.
pub mod cli;
pub mod exit_codes;
pub mod models;
pub mod text;
pub mod git;
pub mod tui;
pub mod screen;
pub mod layout;
pub mod auth;
pub mod github;
pub mod git_ops;
