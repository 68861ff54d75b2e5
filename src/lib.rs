//! An SSH gateway for git repositories: key authentication, command
//! classification, path confinement, channel bookkeeping and stream relaying,
//! each stated and proved with Verus.

pub mod text;
pub mod path_guard;
pub mod command;
pub mod dispatch;
pub mod auth;
pub mod channel;
pub mod relay;
pub mod ssh;
pub mod web;
pub mod git;
