//! The bootstrap of a remote session over SSH: what is parsed, built,
//! framed and decided on the way from the command line that the user typed
//! to a forwarded, healthy agent.

pub mod askpass;
pub mod command;
pub mod connect;
pub mod control;
pub mod deep_link;
pub mod display;
pub mod envelope;
pub mod invocation;
pub mod port;
pub mod prompts;
pub mod proxy;
pub mod quote;
pub mod session;
pub mod text;
pub mod token;
