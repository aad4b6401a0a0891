//! Core of a code-review agent: model and provider configuration, service targets
//! for the models, tool calls that a model writes as JSON text, and the decisions of
//! the agent's reason-and-act loop.

pub mod agent;
pub mod builder;
pub mod config;
pub mod json;
pub mod text;
pub mod tool_calls;
