//! A verified core for a folder-scoped software-job orchestrator.

pub mod text;
pub mod lists;
pub mod text_map;
pub mod paths;
pub mod redaction;
pub mod workspace;
pub mod project_config;
pub mod command_runner;
pub mod model;
pub mod jobs;
pub mod job_store;
pub mod requirements;
pub mod clock;
pub mod json;
pub mod wildcards;
pub mod browser;
pub mod codex;
pub mod patch;
pub mod worker;
pub mod review;
pub mod orchestrator;
pub mod run_laws;
pub mod step_laws;
pub mod chats;
pub mod identity;
pub mod config;
pub mod doctor;
pub mod runtime;
pub mod project;
pub mod tools;
pub mod providers;
pub mod auth;
pub mod replies;
pub mod nostr_agent;
pub mod web;
pub mod cli;
