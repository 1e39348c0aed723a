//! Streaming tool-call orchestration for a conversational agent: the rules
//! that turn one user utterance into a streamed model turn, reconstructed tool
//! invocations, a continuation turn and a committed session entry.

pub mod text;
pub mod json;
pub mod message;
pub mod stream;
pub mod aggregator;
pub mod registry;
pub mod dispatch;
pub mod continuation;
pub mod orchestrator;
pub mod prompt;
pub mod common;
pub mod command;
pub mod loader;
pub mod rag;
pub mod params;
pub mod session;
pub mod agent;
pub mod highlighter;
pub mod config;
