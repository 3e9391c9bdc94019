//! Core library of an autonomous agent harness: a supervised conversation
//! loop that drives a chat-completion model through rounds of tool calls,
//! with a safety layer (command filtering, workspace containment, bounded
//! shell execution), a context manager (token accounting, graduated
//! pressure thresholds, observation masking), bounded-state session
//! restarts, and a registry of concurrent sub-agents.
//!
//! The crate holds the decision and data logic; process spawning, HTTP,
//! terminal rendering and the other I/O edges live in the surrounding
//! application, which hands plain values in and out.

pub mod app_state;
pub mod carryover;
pub mod events;
pub mod config;
pub mod context;
pub mod error;
pub mod defaults;
pub mod discovery;
pub mod filter;
pub mod exec_result;
pub mod masking;
pub mod message;
pub mod prompt;
pub mod json;
pub mod registry;
pub mod search;
pub mod sleep;
pub mod snapshot;
pub mod strutil;
pub mod tools;
pub mod workspace;
