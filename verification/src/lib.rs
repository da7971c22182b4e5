//! Verified core of a commit assistant for staged Git changes.
pub mod text;
pub mod diff_parsing;
pub mod retry;
pub mod edit_history;
pub mod azure;
pub mod secrets;
pub mod persistence;
pub mod shutdown;
pub mod api_key;
pub mod cli;
pub mod history;
pub mod orchestrator;
pub mod commit_flow;
pub mod config_cmd;
pub mod tokenizer;
pub mod chunking;
pub mod azure_endpoint;
pub mod generation;
pub mod git_files;
pub mod themes;
pub mod settings;
pub mod map_reduce;
pub mod config;
pub mod binary_files;
pub mod diff_processor;
