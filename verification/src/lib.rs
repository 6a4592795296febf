//! Verified core of a browser-driving agent.
//!
//! The library holds the logic of the agent control loop: the action
//! vocabulary, the conversation store and its on-disk codec, the strict
//! decode of a decision reply into one action, the page-snapshot encoder,
//! the event bus and command intake, and the task-session state machine.
//! All input and output (network, browser protocol, files) lives outside
//! the library and hands it plain values.

pub mod convo;
pub mod decode;
pub mod events;
pub mod executor;
pub mod session;
pub mod snapshot;
pub mod intake;
pub mod json;
pub mod text;
pub mod types;
