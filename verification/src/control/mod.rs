//! Agent app-control surface: tool vocabulary, bearer token, discovery
//! records, pending selections, and the stdio carrier's decisions.

pub mod args;
pub mod carrier;
pub mod client;
pub mod codec;
pub mod discovery;
pub mod events;
pub mod guard;
pub mod headers;
pub mod json;
pub mod provider;
pub mod selection;
pub mod server;
pub mod sse;
pub mod token;
pub mod tools;
