//! Transport-neutral typed host dispatch for contextual agent tools: the
//! validation, admission, and result-recording boundary.

pub mod error;
pub mod duration;
pub mod registration;
pub mod types;
pub mod cancellation;
pub mod dispatcher;
