//! OxiClaw: the verified core of an agent runtime.

pub mod config;
pub mod cron_store;
pub mod cron_tool;
pub mod curator;
pub mod engine;
pub mod entries;
pub mod guard;
pub mod http;
pub mod http_request;
pub mod indexer;
pub mod json;
pub mod layout;
pub mod llm;
pub mod memory;
pub mod notes;
pub mod numerals;
pub mod order;
pub mod paths;
pub mod persona;
pub mod probe;
pub mod promises;
pub mod question;
pub mod ranking;
pub mod runtime;
pub mod search;
pub mod session;
pub mod storage;
pub mod telegram;
pub mod text;
pub mod tools;
