//! Verified core of the Longhorn agent surfaces: the contextual tool
//! dispatch boundary, the agent app-control vocabulary and state machines,
//! and the deterministic binding-generation text rules.

pub mod text;
pub mod dispatch;

pub use dispatch::cancellation::{Cancellation, CancellationSource};
pub use dispatch::dispatcher::{RecordingCallback, RecordingDispatcher, ResultRecorder};
pub use dispatch::duration::Duration;
pub use dispatch::error::{CallbackFailure, DispatchError, DispatchErrorKind, SafeDiagnostic};
pub use dispatch::registration::{
    DispatchBounds, DispatchEffect, ExecutionKind, RegisteredCapability, SchemaIdentity,
};
pub use dispatch::types::{
    AdmittedCall, BindingStatus, CallbackResult, DispatchDeadline, DispatchEvent,
    DispatchEventKind, DispatchInvocation, DispatchMetrics, DispatchOutcome, TrustedBinding,
};
pub mod control;
pub mod bindings;
