//! Locate, cache, rank and clone git repositories across hosting providers.
//!
//! The library holds the engine's decisions and data handling: the
//! repository set and its deduplication, the cache file's format and
//! freshness rules, fuzzy ranking, the aggregation plan, the clone plan and
//! its bounded scheduler, and the interactive search's state machine. Network,
//! disk, process and terminal work is done by the caller.

pub mod app;
pub mod cache;
pub mod cache_codec;
pub mod commands;
pub mod components;
pub mod config;
pub mod custom_command;
pub mod fuzzy_matcher;
pub mod git_clone;
pub mod git_provider;
pub mod interactive;
pub mod paths;
pub mod projects_list;
pub mod repository;
pub mod text;
