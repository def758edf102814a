//! Public binding, invocation, result, and evidence types.

use vstd::prelude::*;
use crate::dispatch::duration::Duration;
use crate::dispatch::error::{DispatchError, DispatchErrorKind};
use crate::dispatch::registration::{
    DispatchEffect, ExecutionKind, RegisteredCapability, SchemaIdentity,
};
use crate::text::{
    all_whitespace, copy_string, has_control, is_blank, contains_control, utf8_len,
    utf8_len_exceeds,
};

verus! {

/// Largest accepted identity, in UTF-8 bytes.
pub const MAX_IDENTITY_BYTES: usize = 256;

/// A required identity is non-blank, at most [`MAX_IDENTITY_BYTES`] UTF-8
/// bytes, and free of control characters.
pub open spec fn valid_identity(s: Seq<char>) -> bool {
    &&& !all_whitespace(s)
    &&& utf8_len(s) <= MAX_IDENTITY_BYTES
    &&& !has_control(s)
}

pub(crate) fn validate_identity(value: &str) -> (r: Result<(), DispatchError>)
    ensures
        r is Ok <==> valid_identity(value@),
        r matches Err(e) ==> e.kind_spec() == DispatchErrorKind::InvalidIdentity,
{
    if is_blank(value) || utf8_len_exceeds(value, MAX_IDENTITY_BYTES) || contains_control(value) {
        Err(DispatchError::new(DispatchErrorKind::InvalidIdentity))
    } else {
        Ok(())
    }
}

/// A byte-for-byte copy.
pub fn copy_bytes(bytes: &[u8]) -> (r: Vec<u8>)
    ensures
        r@ == bytes@,
{
    let mut r: Vec<u8> = Vec::new();
    let mut i: usize = 0;
    while i < bytes.len()
        invariant
            i <= bytes@.len(),
            r@ == bytes@.take(i as int),
        decreases bytes@.len() - i,
    {
        r.push(bytes[i]);
        i += 1;
        assert(r@ == bytes@.take(i as int));
    }
    assert(bytes@.take(bytes@.len() as int) == bytes@);
    r
}

/// Durable consumer admission identity plus the operation generation.
#[derive(Clone)]
pub struct TrustedBinding {
    process_incarnation: String,
    workspace_generation: u64,
    task_generation: u64,
    operation_generation: u64,
    task: String,
    session: String,
    attempt: String,
}

impl TrustedBinding {
    /// The opaque process incarnation text.
    pub closed spec fn incarnation_spec(&self) -> Seq<char> {
        self.process_incarnation@
    }

    /// The workspace generation.
    pub closed spec fn workspace_generation_spec(&self) -> u64 {
        self.workspace_generation
    }

    /// The task generation.
    pub closed spec fn task_generation_spec(&self) -> u64 {
        self.task_generation
    }

    /// The operation generation.
    pub closed spec fn operation_generation_spec(&self) -> u64 {
        self.operation_generation
    }

    /// The opaque task identity text.
    pub closed spec fn task_spec(&self) -> Seq<char> {
        self.task@
    }

    /// The opaque session identity text.
    pub closed spec fn session_spec(&self) -> Seq<char> {
        self.session@
    }

    /// The opaque attempt identity text.
    pub closed spec fn attempt_spec(&self) -> Seq<char> {
        self.attempt@
    }

    /// Both bindings name the same consumer attempt.
    pub open spec fn same_identity(&self, other: &TrustedBinding) -> bool {
        &&& self.incarnation_spec() == other.incarnation_spec()
        &&& self.task_spec() == other.task_spec()
        &&& self.session_spec() == other.session_spec()
        &&& self.attempt_spec() == other.attempt_spec()
    }

    /// Both bindings carry the same three generations.
    pub open spec fn same_generations(&self, other: &TrustedBinding) -> bool {
        &&& self.workspace_generation_spec() == other.workspace_generation_spec()
        &&& self.task_generation_spec() == other.task_generation_spec()
        &&& self.operation_generation_spec() == other.operation_generation_spec()
    }

    /// Creates one fixed, positive-generation consumer attempt binding.
    pub fn new(
        process_incarnation: &str,
        workspace_generation: u64,
        task_generation: u64,
        operation_generation: u64,
        task: &str,
        session: &str,
        attempt: &str,
    ) -> (r: Result<Self, DispatchError>)
        ensures
            r matches Err(e) ==> e.kind_spec() == (if valid_identity(process_incarnation@)
                && valid_identity(task@) && valid_identity(session@) && valid_identity(attempt@) {
                DispatchErrorKind::InvalidBounds
            } else {
                DispatchErrorKind::InvalidIdentity
            }),
            r is Ok <==> {
                &&& valid_identity(process_incarnation@)
                &&& valid_identity(task@)
                &&& valid_identity(session@)
                &&& valid_identity(attempt@)
                &&& workspace_generation != 0
                &&& task_generation != 0
                &&& operation_generation != 0
            },
            r matches Ok(b) ==> {
                &&& b.incarnation_spec() == process_incarnation@
                &&& b.workspace_generation_spec() == workspace_generation
                &&& b.task_generation_spec() == task_generation
                &&& b.operation_generation_spec() == operation_generation
                &&& b.task_spec() == task@
                &&& b.session_spec() == session@
                &&& b.attempt_spec() == attempt@
            },
    {
        validate_identity(process_incarnation)?;
        validate_identity(task)?;
        validate_identity(session)?;
        validate_identity(attempt)?;
        if workspace_generation == 0 || task_generation == 0 || operation_generation == 0 {
            return Err(DispatchError::new(DispatchErrorKind::InvalidBounds));
        }
        Ok(
            TrustedBinding {
                process_incarnation: process_incarnation.to_owned(),
                workspace_generation,
                task_generation,
                operation_generation,
                task: task.to_owned(),
                session: session.to_owned(),
                attempt: attempt.to_owned(),
            },
        )
    }

    pub(crate) fn stable_identity_matches(&self, other: &Self) -> (r: bool)
        ensures
            r == self.same_identity(other),
    {
        self.process_incarnation == other.process_incarnation && self.task == other.task
            && self.session == other.session && self.attempt == other.attempt
    }

    pub(crate) fn generations_match(&self, other: &Self) -> (r: bool)
        ensures
            r == self.same_generations(other),
    {
        self.workspace_generation == other.workspace_generation && self.task_generation
            == other.task_generation && self.operation_generation == other.operation_generation
    }

    /// Returns the opaque process incarnation for exact host comparison.
    pub fn process_incarnation(&self) -> (r: &str)
        ensures
            r@ == self.incarnation_spec(),
    {
        self.process_incarnation.as_str()
    }

    /// Returns the consumer workspace generation.
    pub fn workspace_generation(&self) -> (r: u64)
        ensures
            r == self.workspace_generation_spec(),
    {
        self.workspace_generation
    }

    /// Returns the consumer task generation.
    pub fn task_generation(&self) -> (r: u64)
        ensures
            r == self.task_generation_spec(),
    {
        self.task_generation
    }

    /// Returns the operation generation.
    pub fn operation_generation(&self) -> (r: u64)
        ensures
            r == self.operation_generation_spec(),
    {
        self.operation_generation
    }

    /// Returns the opaque task identity for exact host comparison.
    pub fn task(&self) -> (r: &str)
        ensures
            r@ == self.task_spec(),
    {
        self.task.as_str()
    }

    /// Returns the opaque session identity for exact host comparison.
    pub fn session(&self) -> (r: &str)
        ensures
            r@ == self.session_spec(),
    {
        self.session.as_str()
    }

    /// Returns the opaque attempt identity for exact host comparison.
    pub fn attempt(&self) -> (r: &str)
        ensures
            r@ == self.attempt_spec(),
    {
        self.attempt.as_str()
    }
}

/// Current live status supplied by the trusted admission owner.
#[derive(Clone, Copy, Debug, PartialEq, Eq, Structural, Hash)]
pub enum BindingStatus {
    /// The fixed binding remains current.
    Current,
    /// The fixed binding has been revoked.
    Revoked,
}

/// Host-observed monotonic deadline state for one candidate call.
///
/// The composing host calculates the remaining duration from its trusted
/// clock. Expired, zero, or registration-exceeding values are rejected
/// before the callback runs.
#[derive(Clone, Copy, Debug, PartialEq, Eq, Structural, Hash)]
pub enum DispatchDeadline {
    /// The trusted clock reports this positive duration remains.
    Active(Duration),
    /// The trusted clock reports that the deadline has elapsed.
    Expired,
}

impl DispatchDeadline {
    /// The refusal this deadline earns against `maximum`, if any.
    pub open spec fn refusal(self, maximum: Duration) -> Option<DispatchErrorKind> {
        match self {
            DispatchDeadline::Expired => Some(DispatchErrorKind::DeadlineExceeded),
            DispatchDeadline::Active(remaining) => if remaining.nanos_spec() == 0 {
                Some(DispatchErrorKind::DeadlineExceeded)
            } else if remaining.nanos_spec() > maximum.nanos_spec() {
                Some(DispatchErrorKind::LimitExceeded)
            } else {
                None
            },
        }
    }

    /// Creates an active deadline from the host-observed remaining duration.
    pub fn active(remaining: Duration) -> (r: Self)
        ensures
            r == DispatchDeadline::Active(remaining),
    {
        DispatchDeadline::Active(remaining)
    }

    /// Creates an elapsed deadline marker.
    pub fn expired() -> (r: Self)
        ensures
            r == DispatchDeadline::Expired,
    {
        DispatchDeadline::Expired
    }

    pub(crate) fn validate(self, maximum: Duration) -> (r: Result<(), DispatchError>)
        ensures
            match self.refusal(maximum) {
                Some(kind) => r matches Err(e) && e.kind_spec() == kind,
                None => r is Ok,
            },
    {
        match self {
            DispatchDeadline::Expired => Err(DispatchError::new(DispatchErrorKind::DeadlineExceeded)),
            DispatchDeadline::Active(remaining) => {
                if remaining.is_zero() {
                    Err(DispatchError::new(DispatchErrorKind::DeadlineExceeded))
                } else if !remaining.at_most(maximum) {
                    Err(DispatchError::new(DispatchErrorKind::LimitExceeded))
                } else {
                    Ok(())
                }
            },
        }
    }
}

/// One candidate call before validation and admission.
#[derive(Clone)]
pub struct DispatchInvocation {
    call_id: String,
    registration: RegisteredCapability,
    binding: TrustedBinding,
    binding_status: BindingStatus,
    deadline: DispatchDeadline,
    arguments: Vec<u8>,
}

impl DispatchInvocation {
    /// The opaque call identity text.
    pub closed spec fn call_id_spec(&self) -> Seq<char> {
        self.call_id@
    }

    /// The registration carried by the call.
    pub closed spec fn registration_spec(&self) -> RegisteredCapability {
        self.registration
    }

    /// The binding carried by the call.
    pub closed spec fn binding_spec(&self) -> TrustedBinding {
        self.binding
    }

    /// The live binding status.
    pub closed spec fn binding_status_spec(&self) -> BindingStatus {
        self.binding_status
    }

    /// The host-observed deadline.
    pub closed spec fn deadline_spec(&self) -> DispatchDeadline {
        self.deadline
    }

    /// The opaque argument bytes.
    pub closed spec fn arguments_spec(&self) -> Seq<u8> {
        self.arguments@
    }

    /// Creates one invocation from host-normalized facts and opaque arguments.
    pub fn new(
        call_id: &str,
        registration: RegisteredCapability,
        binding: TrustedBinding,
        binding_status: BindingStatus,
        deadline: DispatchDeadline,
        arguments: Vec<u8>,
    ) -> (r: Result<Self, DispatchError>)
        ensures
            r is Ok <==> valid_identity(call_id@),
            r matches Err(e) ==> e.kind_spec() == DispatchErrorKind::InvalidIdentity,
            r matches Ok(i) ==> {
                &&& i.call_id_spec() == call_id@
                &&& i.registration_spec() == registration
                &&& i.binding_spec() == binding
                &&& i.binding_status_spec() == binding_status
                &&& i.deadline_spec() == deadline
                &&& i.arguments_spec() == arguments@
            },
    {
        validate_identity(call_id)?;
        Ok(
            DispatchInvocation {
                call_id: call_id.to_owned(),
                registration,
                binding,
                binding_status,
                deadline,
                arguments,
            },
        )
    }

    /// Returns the opaque call identity for exact host comparison.
    pub fn call_id(&self) -> (r: &str)
        ensures
            r@ == self.call_id_spec(),
    {
        self.call_id.as_str()
    }

    /// Returns the normalized registration carried by the call.
    pub fn registration(&self) -> (r: &RegisteredCapability)
        ensures
            *r == self.registration_spec(),
    {
        &self.registration
    }

    /// Returns the trusted binding carried by the call.
    pub fn binding(&self) -> (r: &TrustedBinding)
        ensures
            *r == self.binding_spec(),
    {
        &self.binding
    }

    /// Returns the live binding status supplied by the admission owner.
    pub fn binding_status(&self) -> (r: BindingStatus)
        ensures
            r == self.binding_status_spec(),
    {
        self.binding_status
    }

    /// Returns the host-observed typed deadline state.
    pub fn deadline(&self) -> (r: DispatchDeadline)
        ensures
            r == self.deadline_spec(),
    {
        self.deadline
    }

    /// Returns opaque arguments for callback execution only.
    pub fn arguments_for_execution(&self) -> (r: &[u8])
        ensures
            r@ == self.arguments_spec(),
    {
        self.arguments.as_slice()
    }
}

/// Validated callback input created only after every pre-dispatch check.
#[derive(Clone)]
pub struct AdmittedCall {
    call_id: String,
    capability: String,
    execution_kind: ExecutionKind,
    effect: DispatchEffect,
    arguments: Vec<u8>,
}

impl AdmittedCall {
    /// The admitted call identity text.
    pub closed spec fn call_id_spec(&self) -> Seq<char> {
        self.call_id@
    }

    /// The admitted capability text.
    pub closed spec fn capability_spec(&self) -> Seq<char> {
        self.capability@
    }

    /// The admitted execution kind.
    pub closed spec fn execution_kind_spec(&self) -> ExecutionKind {
        self.execution_kind
    }

    /// The admitted effect posture.
    pub closed spec fn effect_spec(&self) -> DispatchEffect {
        self.effect
    }

    /// The admitted argument bytes.
    pub closed spec fn arguments_spec(&self) -> Seq<u8> {
        self.arguments@
    }

    /// This call carries exactly the facts of `invocation`.
    pub open spec fn admits(&self, invocation: &DispatchInvocation) -> bool {
        &&& self.call_id_spec() == invocation.call_id_spec()
        &&& self.capability_spec() == invocation.registration_spec().capability_spec()
        &&& self.execution_kind_spec() == invocation.registration_spec().execution_kind_spec()
        &&& self.effect_spec() == invocation.registration_spec().effect_spec()
        &&& self.arguments_spec() == invocation.arguments_spec()
    }

    pub(crate) fn from_invocation(invocation: &DispatchInvocation) -> (r: Self)
        ensures
            r.admits(invocation),
    {
        AdmittedCall {
            call_id: copy_string(&invocation.call_id),
            capability: invocation.registration.capability().to_owned(),
            execution_kind: invocation.registration.execution_kind(),
            effect: invocation.registration.effect(),
            arguments: copy_bytes(invocation.arguments.as_slice()),
        }
    }

    /// Returns the opaque call identity for exact host comparison.
    pub fn call_id(&self) -> (r: &str)
        ensures
            r@ == self.call_id_spec(),
    {
        self.call_id.as_str()
    }

    /// Returns the admitted capability identity.
    pub fn capability(&self) -> (r: &str)
        ensures
            r@ == self.capability_spec(),
    {
        self.capability.as_str()
    }

    /// Returns the admitted execution kind.
    pub fn execution_kind(&self) -> (r: ExecutionKind)
        ensures
            r == self.execution_kind_spec(),
    {
        self.execution_kind
    }

    /// Returns the admitted effect posture.
    pub fn effect(&self) -> (r: DispatchEffect)
        ensures
            r == self.effect_spec(),
    {
        self.effect
    }

    /// Returns opaque arguments for callback execution only.
    pub fn arguments_for_execution(&self) -> (r: &[u8])
        ensures
            r@ == self.arguments_spec(),
    {
        self.arguments.as_slice()
    }
}

/// One callback-produced bounded result and its exact output schema identity.
#[derive(Clone)]
pub struct CallbackResult {
    schema: SchemaIdentity,
    payload: Vec<u8>,
}

impl CallbackResult {
    /// The output schema identity.
    pub closed spec fn schema_spec(&self) -> SchemaIdentity {
        self.schema
    }

    /// The result bytes.
    pub closed spec fn payload_spec(&self) -> Seq<u8> {
        self.payload@
    }

    /// Creates one result for later validation by the bound result recorder.
    pub fn new(schema: SchemaIdentity, payload: Vec<u8>) -> (r: Self)
        ensures
            r.schema_spec() == schema,
            r.payload_spec() == payload@,
    {
        CallbackResult { schema, payload }
    }

    /// Returns the exact output schema identity.
    pub fn schema(&self) -> (r: &SchemaIdentity)
        ensures
            *r == self.schema_spec(),
    {
        &self.schema
    }

    /// Returns result bytes for host delivery only.
    pub fn payload_for_delivery(&self) -> (r: &[u8])
        ensures
            r@ == self.payload_spec(),
    {
        self.payload.as_slice()
    }

    /// A field-for-field copy.
    pub fn duplicate(&self) -> (r: Self)
        ensures
            r.schema_spec() == self.schema_spec(),
            r.payload_spec() == self.payload_spec(),
    {
        CallbackResult {
            schema: self.schema.duplicate(),
            payload: copy_bytes(self.payload.as_slice()),
        }
    }
}

/// One successful terminal dispatch outcome.
#[derive(Clone)]
pub struct DispatchOutcome {
    call_id: String,
    effect: DispatchEffect,
    result: CallbackResult,
}

impl DispatchOutcome {
    /// The settled call identity text.
    pub closed spec fn call_id_spec(&self) -> Seq<char> {
        self.call_id@
    }

    /// The effect posture fixed before dispatch.
    pub closed spec fn effect_spec(&self) -> DispatchEffect {
        self.effect
    }

    /// The accepted result.
    pub closed spec fn result_spec(&self) -> CallbackResult {
        self.result
    }

    /// Two outcomes carry the same facts.
    pub open spec fn same_as(&self, other: &DispatchOutcome) -> bool {
        &&& self.call_id_spec() == other.call_id_spec()
        &&& self.effect_spec() == other.effect_spec()
        &&& self.result_spec().schema_spec().same_as(&other.result_spec().schema_spec())
        &&& self.result_spec().payload_spec() == other.result_spec().payload_spec()
    }

    pub(crate) fn new(call_id: String, effect: DispatchEffect, result: CallbackResult) -> (r: Self)
        ensures
            r.call_id_spec() == call_id@,
            r.effect_spec() == effect,
            r.result_spec() == result,
    {
        DispatchOutcome { call_id, effect, result }
    }

    /// Returns the opaque call identity for exact host comparison.
    pub fn call_id(&self) -> (r: &str)
        ensures
            r@ == self.call_id_spec(),
    {
        self.call_id.as_str()
    }

    /// Returns the accepted bounded result.
    pub fn result(&self) -> (r: &CallbackResult)
        ensures
            *r == self.result_spec(),
    {
        &self.result
    }

    /// Returns the effect posture fixed before dispatch.
    pub fn effect(&self) -> (r: DispatchEffect)
        ensures
            r == self.effect_spec(),
    {
        self.effect
    }

    /// Reports whether the dispatcher may automatically replay this call.
    ///
    /// Transport replay is prohibited. A consumer retry always needs a
    /// fresh attempt and operation generation, regardless of effect posture.
    pub fn permits_automatic_replay(&self) -> (r: bool)
        ensures
            !r,
    {
        false
    }

    /// A copy carrying the same facts.
    pub fn duplicate(&self) -> (r: Self)
        ensures
            r.same_as(self),
    {
        DispatchOutcome {
            call_id: copy_string(&self.call_id),
            effect: self.effect,
            result: self.result.duplicate(),
        }
    }
}

/// Safe event kind emitted by the recording dispatcher.
#[derive(Clone, Copy, Debug, PartialEq, Eq, Structural, Hash)]
pub enum DispatchEventKind {
    /// Every pre-dispatch check passed.
    Validated,
    /// The injected callback was invoked.
    CallbackInvoked,
    /// One bounded result was accepted.
    ResultAccepted,
    /// Cancellation became the terminal outcome.
    Cancelled,
    /// A typed failure was recorded without detail text.
    Rejected(DispatchErrorKind),
}

/// Ordered, payload-free dispatcher evidence.
#[derive(Clone, Copy, Debug, PartialEq, Eq, Structural, Hash)]
pub struct DispatchEvent {
    sequence: u64,
    kind: DispatchEventKind,
}

impl DispatchEvent {
    /// The recording sequence number.
    pub closed spec fn sequence_spec(self) -> u64 {
        self.sequence
    }

    /// The event kind.
    pub closed spec fn kind_spec(self) -> DispatchEventKind {
        self.kind
    }

    pub(crate) fn new(sequence: u64, kind: DispatchEventKind) -> (r: Self)
        ensures
            r.sequence_spec() == sequence,
            r.kind_spec() == kind,
    {
        DispatchEvent { sequence, kind }
    }

    /// Returns the monotonic recording sequence.
    pub fn sequence(self) -> (r: u64)
        ensures
            r == self.sequence_spec(),
    {
        self.sequence
    }

    /// Returns the safe event kind.
    pub fn kind(self) -> (r: DispatchEventKind)
        ensures
            r == self.kind_spec(),
    {
        self.kind
    }
}

/// Safe aggregate counts from one recording dispatcher.
#[derive(Clone, Copy, Debug, Default, PartialEq, Eq, Structural, Hash)]
pub struct DispatchMetrics {
    /// Callbacks invoked after validation.
    pub callbacks: usize,
    /// Results accepted as terminal.
    pub results: usize,
    /// Calls terminally cancelled.
    pub cancellations: usize,
    /// Calls or results rejected.
    pub rejections: usize,
    /// Automatic mutation replays. This is always zero.
    pub mutation_replays: usize,
}

} // verus!
