//! A Slack adapter for chat agents over Socket Mode, with its decisions verified.
//!
//! The library decides what to ask of Slack, what to make of the replies and
//! events, and what to answer. It does no I/O: a program around it sends the
//! requests, keeps the WebSocket and tells the time.

pub mod adapter;
pub mod api;
pub mod document;
pub mod emoji;
pub mod error;
pub mod event;
pub mod json;
pub mod message;
pub mod mrkdwn;
pub mod pattern;
pub mod refs;
pub mod rewrite;
pub mod session;
pub mod text;
