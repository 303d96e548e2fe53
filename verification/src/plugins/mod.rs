//! The plugins that ship with the host, as far as they are free of I/O.

pub mod github_pr_dashboard;
pub mod hello;
pub mod task_runner;
