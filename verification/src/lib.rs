//! The core of a host for scripted chat bots.
//!
//! Each bot instance is configured by a script. The script exposes a tree
//! of plain data in which callables of the script may stand anywhere; the
//! host builds a typed configuration from it, keeping every callable, and
//! consults the configuration for each chat event and for the scheduled
//! notifications. A supervisor keeps one worker per instance alive.
//!
//! The library holds the rules and decisions of that host, each with its
//! contract: the loading of a configuration in three passes
//! (`config::RunnerConfig::load`, `runtimes::v8::value_replace`,
//! `utils::parcelable`), the notification scheduler (`config::time`,
//! `config::notification`), the supervisor's reconciliation step
//! (`bot_manager`), and the handling of commands and buttons
//! (`commands`, `bot_handler`). Threads, the script engine, the chat
//! transport and the store are the business of the program around it.

pub mod bot_handler;
pub mod bot_manager;
pub mod botscript;
pub mod clock;
pub mod commands;
pub mod config;
pub mod db;
pub mod message_answerer;
pub mod mongodb_storage;
pub mod runtimes;
pub mod text;
pub mod utils;
