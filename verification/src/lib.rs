pub mod cli;
pub mod error;
pub mod prune;
pub mod text;
pub mod upload;
pub mod git_data_api;
pub mod order;
pub mod auth;
