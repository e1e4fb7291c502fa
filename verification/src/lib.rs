//! The execution engine of an autonomous agent.
//!
//! A language model proposes commands; the engine runs them, notes what they
//! returned, and feeds that back into the conversation until a goal is
//! reached. The crate holds the values that commands exchange ([`value`]),
//! the registry that finds commands by name ([`command`]), the bridge that
//! lets a Lua script call them ([`script`]), the conversation and the rules
//! that keep it within the model's token budget ([`history`],
//! [`conversation`]), one cycle of the run loop ([`cycle`]) and the delegated
//! sub-agent that writes and runs scripts ([`minion`], [`findings`]).
//!
//! The language model, the plugins and the long-term memory are given to the
//! engine from outside, as implementations of the traits in [`agent`].

pub mod agent;
pub mod command;
pub mod conversation;
pub mod cycle;
pub mod document;
pub mod error;
pub mod findings;
pub mod history;
pub mod minion;
pub mod prompt;
pub mod script;
pub mod text;
pub mod value;
