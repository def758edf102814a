//! Validation-first recording dispatcher: the admission, result-recording,
//! and settlement decisions around one consumer callback.
//!
//! The host runs the callback itself (it may await anything); it asks this
//! state machine to admit the call first, hands the callback a
//! [`ResultRecorder`], and settles the call when the callback returns.

use vstd::prelude::*;
use std::sync::Arc;
use crate::dispatch::cancellation::{Cancellation, CancellationSource};
use crate::dispatch::error::{CallbackFailure, DispatchError, DispatchErrorKind};
use crate::dispatch::registration::{
    DispatchEffect, RegisteredCapability, SchemaIdentity,
};
use crate::dispatch::types::{
    AdmittedCall, BindingStatus, CallbackResult, DispatchEvent, DispatchEventKind,
    DispatchInvocation, DispatchMetrics, DispatchOutcome, TrustedBinding,
};
use crate::text::{copy_string, owned, str_eq};

verus! {

/// Most call identities one dispatcher remembers.
pub const MAX_REMEMBERED_CALLS: usize = 256;

/// How one admitted call ended.
pub enum Terminal {
    /// One bounded result was accepted.
    Succeeded { result: CallbackResult },
    /// The call failed or was cancelled with this class.
    Failed(DispatchErrorKind),
}

/// One admitted call and, once settled, its terminal outcome.
pub struct CallRecord {
    call_id: String,
    effect: DispatchEffect,
    schema: SchemaIdentity,
    max_result_bytes: usize,
    terminal: Option<Terminal>,
}

/// Abstract view of one admitted call: its identity, what its admission
/// fixed (effect posture, output schema, result bound), and its terminal.
pub struct CallModel {
    pub id: Seq<char>,
    pub effect: DispatchEffect,
    pub schema: SchemaIdentity,
    pub max_result_bytes: usize,
    pub terminal: Option<Terminal>,
}

/// `later` is `call` with possibly another terminal: the same identity and
/// admission.
pub open spec fn same_admission(call: CallModel, later: CallModel) -> bool {
    &&& later.id == call.id
    &&& later.effect == call.effect
    &&& later.schema == call.schema
    &&& later.max_result_bytes == call.max_result_bytes
}

/// The call `invocation` admits, still in flight.
pub open spec fn admitted_call(invocation: DispatchInvocation) -> CallModel {
    CallModel {
        id: invocation.call_id_spec(),
        effect: invocation.registration_spec().effect_spec(),
        schema: invocation.registration_spec().output_schema_spec(),
        max_result_bytes: invocation.registration_spec().bounds_spec().result_bytes_spec(),
        terminal: None,
    }
}

/// Abstract view of a dispatcher: every admitted call in admission order,
/// every event kind in recording order, and the four counters.
pub struct DispatchModel {
    pub calls: Seq<CallModel>,
    pub events: Seq<DispatchEventKind>,
    pub callbacks: nat,
    pub results: nat,
    pub cancellations: nat,
    pub rejections: nat,
}

/// Sequence number of the event recorded at position `i` (from 1, held at
/// `u64::MAX` once reached).
pub open spec fn sequence_number(i: int) -> u64 {
    if i + 1 >= u64::MAX {
        u64::MAX
    } else {
        (i + 1) as u64
    }
}

/// Number of calls satisfying `p`.
pub open spec fn count_calls(calls: Seq<CallModel>, p: spec_fn(CallModel) -> bool) -> nat
    decreases calls.len(),
{
    if calls.len() == 0 {
        0
    } else {
        count_calls(calls.drop_last(), p) + if p(calls.last()) {
            1nat
        } else {
            0nat
        }
    }
}

/// Number of events of kind `k`.
pub open spec fn count_events(events: Seq<DispatchEventKind>, k: DispatchEventKind) -> nat
    decreases events.len(),
{
    if events.len() == 0 {
        0
    } else {
        count_events(events.drop_last(), k) + if events.last() == k {
            1nat
        } else {
            0nat
        }
    }
}

/// Number of rejection events, of any class.
pub open spec fn count_rejections(events: Seq<DispatchEventKind>) -> nat
    decreases events.len(),
{
    if events.len() == 0 {
        0
    } else {
        count_rejections(events.drop_last()) + if events.last() is Rejected {
            1nat
        } else {
            0nat
        }
    }
}

/// The call is still in flight.
pub open spec fn is_active(c: CallModel) -> bool {
    c.terminal is None
}

/// The call settled with an accepted result.
pub open spec fn is_succeeded(c: CallModel) -> bool {
    c.terminal matches Some(Terminal::Succeeded { .. })
}

/// The call settled as cancelled.
pub open spec fn is_cancelled_call(c: CallModel) -> bool {
    c.terminal matches Some(Terminal::Failed(k)) && k == DispatchErrorKind::Cancelled
}

/// Whether a call with identity `id` was admitted.
pub open spec fn has_call(calls: Seq<CallModel>, id: Seq<char>) -> bool {
    exists|i: int| 0 <= i < calls.len() && #[trigger] calls[i].id == id
}

/// Position of the admitted call with identity `id`.
pub open spec fn call_position(calls: Seq<CallModel>, id: Seq<char>) -> int {
    choose|i: int| 0 <= i < calls.len() && #[trigger] calls[i].id == id
}

/// No identity was admitted twice.
pub open spec fn unique_ids(calls: Seq<CallModel>) -> bool {
    forall|i: int, j: int|
        0 <= i < calls.len() && 0 <= j < calls.len() && i != j ==> #[trigger] calls[i].id
            != #[trigger] calls[j].id
}

impl DispatchModel {
    /// One more event.
    pub open spec fn with_event(self, k: DispatchEventKind) -> Self {
        DispatchModel { events: self.events.push(k), ..self }
    }

    /// One more rejection of class `k`.
    pub open spec fn with_rejection(self, k: DispatchErrorKind) -> Self {
        DispatchModel {
            events: self.events.push(DispatchEventKind::Rejected(k)),
            rejections: self.rejections + 1,
            ..self
        }
    }

    /// The newly admitted call of `invocation`, validated and handed to its
    /// callback.
    pub open spec fn with_admission(self, invocation: DispatchInvocation) -> Self {
        DispatchModel {
            calls: self.calls.push(admitted_call(invocation)),
            events: self.events.push(DispatchEventKind::Validated).push(
                DispatchEventKind::CallbackInvoked,
            ),
            callbacks: self.callbacks + 1,
            ..self
        }
    }

    /// The call at `i` settles as failed with `k`; cancellation is counted as
    /// such, every other class as a rejection.
    pub open spec fn with_failure(self, i: int, k: DispatchErrorKind) -> Self {
        let settled = DispatchModel {
            calls: self.calls.update(
                i,
                CallModel { terminal: Some(Terminal::Failed(k)), ..self.calls[i] },
            ),
            ..self
        };
        if k == DispatchErrorKind::Cancelled {
            DispatchModel {
                events: settled.events.push(DispatchEventKind::Cancelled),
                cancellations: settled.cancellations + 1,
                ..settled
            }
        } else {
            settled.with_rejection(k)
        }
    }

    /// The call at `i` settles with the accepted `result`.
    pub open spec fn with_success(self, i: int, result: CallbackResult) -> Self {
        DispatchModel {
            calls: self.calls.update(
                i,
                CallModel { terminal: Some(Terminal::Succeeded { result }), ..self.calls[i] },
            ),
            events: self.events.push(DispatchEventKind::ResultAccepted),
            results: self.results + 1,
            ..self
        }
    }

    /// Every call settled in `self` is settled identically in `later`, every
    /// call admitted in `self` keeps its position, identity and admission,
    /// and every event recorded in `self` stays, in order, at the head of
    /// `later`'s evidence.
    pub open spec fn settlement_kept_by(self, later: Self) -> bool {
        &&& later.calls.len() >= self.calls.len()
        &&& forall|i: int|
            0 <= i < self.calls.len() ==> same_admission(self.calls[i], #[trigger] later.calls[i])
        &&& forall|i: int|
            0 <= i < self.calls.len() && self.calls[i].terminal is Some ==> #[trigger] later.calls[i]
                == self.calls[i]
        &&& later.events.len() >= self.events.len()
        &&& forall|i: int| 0 <= i < self.events.len() ==> #[trigger] later.events[i] == self.events[i]
    }
}

/// The refusal one schema identity earns against the expected one.
pub open spec fn schema_refusal(actual: SchemaIdentity, expected: SchemaIdentity) -> Option<DispatchErrorKind> {
    if actual.version_spec() != expected.version_spec() {
        Some(DispatchErrorKind::UnsupportedSchemaVersion)
    } else if actual.digest_spec() != expected.digest_spec() {
        Some(DispatchErrorKind::UnknownSchema)
    } else {
        None
    }
}

/// The first pre-dispatch check `invocation` fails against the configured
/// registration and binding, in the fixed check order; `None` when all pass.
pub open spec fn validation_refusal(
    expected: RegisteredCapability,
    binding: TrustedBinding,
    invocation: DispatchInvocation,
) -> Option<DispatchErrorKind> {
    let actual = invocation.registration_spec();
    let bounds = actual.bounds_spec();
    if actual.revision_spec() != expected.revision_spec() {
        Some(DispatchErrorKind::StaleRegistration)
    } else if actual.capability_spec() != expected.capability_spec() {
        Some(DispatchErrorKind::UnknownCapability)
    } else if schema_refusal(actual.input_schema_spec(), expected.input_schema_spec()) is Some {
        schema_refusal(actual.input_schema_spec(), expected.input_schema_spec())
    } else if schema_refusal(actual.output_schema_spec(), expected.output_schema_spec()) is Some {
        schema_refusal(actual.output_schema_spec(), expected.output_schema_spec())
    } else if actual.execution_kind_spec() != expected.execution_kind_spec() {
        Some(DispatchErrorKind::ExecutionKindMismatch)
    } else if actual.effect_spec() != expected.effect_spec() {
        Some(DispatchErrorKind::EffectMismatch)
    } else if !invocation.binding_spec().same_identity(&binding) {
        Some(DispatchErrorKind::ForeignBinding)
    } else if !invocation.binding_spec().same_generations(&binding) {
        Some(DispatchErrorKind::StaleBinding)
    } else if invocation.binding_status_spec() == BindingStatus::Revoked {
        Some(DispatchErrorKind::RevokedBinding)
    } else if !bounds.positive() {
        Some(DispatchErrorKind::InvalidBounds)
    } else if invocation.deadline_spec().refusal(bounds.call_duration_spec()) is Some {
        invocation.deadline_spec().refusal(bounds.call_duration_spec())
    } else if !bounds.within(expected.bounds_spec()) || invocation.arguments_spec().len()
        > bounds.argument_bytes_spec() {
        Some(DispatchErrorKind::LimitExceeded)
    } else {
        None
    }
}

/// Whether a candidate matches the configured registration and binding in
/// every respect but its argument size: the same revision, capability,
/// input and output schemas, execution kind and effect; the same stable
/// identity and generations, a binding not revoked; positive bounds within
/// the configured ones; and a live deadline within the call duration bound.
pub open spec fn matches_configuration(
    expected: RegisteredCapability,
    binding: TrustedBinding,
    invocation: DispatchInvocation,
) -> bool {
    let actual = invocation.registration_spec();
    let bounds = actual.bounds_spec();
    &&& actual.revision_spec() == expected.revision_spec()
    &&& actual.capability_spec() == expected.capability_spec()
    &&& actual.input_schema_spec().same_as(&expected.input_schema_spec())
    &&& actual.output_schema_spec().same_as(&expected.output_schema_spec())
    &&& actual.execution_kind_spec() == expected.execution_kind_spec()
    &&& actual.effect_spec() == expected.effect_spec()
    &&& invocation.binding_spec().same_identity(&binding)
    &&& invocation.binding_spec().same_generations(&binding)
    &&& invocation.binding_status_spec() != BindingStatus::Revoked
    &&& bounds.positive()
    &&& invocation.deadline_spec().refusal(bounds.call_duration_spec()) is None
    &&& bounds.within(expected.bounds_spec())
}

/// A candidate passes validation exactly when it matches the configuration
/// and its arguments fit the registered argument bound.
pub proof fn law_validation_admits_exactly_matching_calls(
    expected: RegisteredCapability,
    binding: TrustedBinding,
    invocation: DispatchInvocation,
)
    ensures
        validation_refusal(expected, binding, invocation) is None <==> matches_configuration(
            expected,
            binding,
            invocation,
        ) && invocation.arguments_spec().len()
            <= invocation.registration_spec().bounds_spec().argument_bytes_spec(),
{
}

/// Arguments over the registered bound never pass: such a candidate is
/// refused before any callback, and when it matches the configuration in
/// every other respect the refusal is `LimitExceeded`.
pub proof fn law_oversized_arguments_are_refused(
    m: DispatchModel,
    expected: RegisteredCapability,
    binding: TrustedBinding,
    invocation: DispatchInvocation,
)
    requires
        invocation.arguments_spec().len() > invocation.registration_spec().bounds_spec().argument_bytes_spec(),
    ensures
        validation_refusal(expected, binding, invocation) is Some,
        admission_refusal(m, expected, binding, invocation) is Some,
        matches_configuration(expected, binding, invocation) ==> validation_refusal(
            expected,
            binding,
            invocation,
        ) == Some(DispatchErrorKind::LimitExceeded),
{
    law_validation_admits_exactly_matching_calls(expected, binding, invocation);
}

/// The refusal admitting `invocation` earns in state `m`: a validation
/// failure, a remembered identity, or a full dispatcher.
pub open spec fn admission_refusal(
    m: DispatchModel,
    expected: RegisteredCapability,
    binding: TrustedBinding,
    invocation: DispatchInvocation,
) -> Option<DispatchErrorKind> {
    if validation_refusal(expected, binding, invocation) is Some {
        validation_refusal(expected, binding, invocation)
    } else if has_call(m.calls, invocation.call_id_spec()) {
        Some(DispatchErrorKind::DuplicateCall)
    } else if m.calls.len() >= MAX_REMEMBERED_CALLS || count_calls(m.calls, |c| is_active(c))
        >= invocation.registration_spec().bounds_spec().outstanding_spec() {
        Some(DispatchErrorKind::LimitExceeded)
    } else {
        None
    }
}

/// The state after the call `id` is settled once its callback returned:
/// a call the callback left open fails as cancelled (when observed so), as
/// a callback failure (when the callback reported one), or as missing its
/// result; a settled call stays as it is.
pub open spec fn settled_after(m: DispatchModel, id: Seq<char>, cancelled: bool, failed: bool) -> DispatchModel {
    let i = call_position(m.calls, id);
    let k = if cancelled {
        DispatchErrorKind::Cancelled
    } else if failed {
        DispatchErrorKind::CallbackFailed
    } else {
        DispatchErrorKind::MissingResult
    };
    if has_call(m.calls, id) && m.calls[i].terminal is None {
        m.with_failure(i, k)
    } else {
        m
    }
}

/// Bound terminal-result port handed to exactly one callback invocation.
/// It observes the call's own cancellation; a result it records is checked
/// against what the bound call's admission fixed (output schema and result
/// bound) and settles with that call's effect posture.
pub struct ResultRecorder<S> {
    call_id: String,
    cancellation: Cancellation<S>,
}

impl<S: CancellationSource> Clone for ResultRecorder<S> {
    /// A second handle on the same call and cancellation.
    fn clone(&self) -> (r: Self)
        ensures
            r.call_id_spec() == self.call_id_spec(),
            r.cancellation_spec() == self.cancellation_spec(),
    {
        ResultRecorder { call_id: copy_string(&self.call_id), cancellation: self.cancellation.clone() }
    }
}

impl<S: CancellationSource> ResultRecorder<S> {
    /// The call's cancellation this recorder observes.
    pub closed spec fn cancellation_spec(&self) -> Arc<S> {
        self.cancellation.source_spec()
    }

    /// The bound call identity text.
    pub closed spec fn call_id_spec(&self) -> Seq<char> {
        self.call_id@
    }

    /// This recorder is bound to `invocation`'s call.
    pub open spec fn binds(&self, invocation: &DispatchInvocation) -> bool {
        self.call_id_spec() == invocation.call_id_spec()
    }

    /// The refusal recording `result` earns in state `m`, given whether the
    /// call was observed cancelled; `None` when the result is accepted.
    pub open spec fn record_refusal(
        &self,
        m: DispatchModel,
        cancelled: bool,
        result: CallbackResult,
    ) -> Option<DispatchErrorKind> {
        let id = self.call_id_spec();
        let call = m.calls[call_position(m.calls, id)];
        if has_call(m.calls, id) && call.terminal matches Some(Terminal::Succeeded { .. }) {
            Some(DispatchErrorKind::DuplicateResult)
        } else if has_call(m.calls, id) && call.terminal is Some {
            Some(DispatchErrorKind::PostTerminalResult)
        } else if !has_call(m.calls, id) {
            Some(DispatchErrorKind::PostTerminalResult)
        } else if cancelled {
            Some(DispatchErrorKind::Cancelled)
        } else if schema_refusal(result.schema_spec(), call.schema) is Some {
            schema_refusal(result.schema_spec(), call.schema)
        } else if result.payload_spec().len() > call.max_result_bytes {
            Some(DispatchErrorKind::LimitExceeded)
        } else {
            None
        }
    }

    /// The state after recording `result` in state `m`.
    pub open spec fn after_record(
        &self,
        m: DispatchModel,
        cancelled: bool,
        result: CallbackResult,
    ) -> DispatchModel {
        let id = self.call_id_spec();
        match self.record_refusal(m, cancelled, result) {
            Some(k) => if has_call(m.calls, id) && m.calls[call_position(m.calls, id)].terminal is None {
                m.with_failure(call_position(m.calls, id), k)
            } else {
                m.with_rejection(k)
            },
            None => m.with_success(call_position(m.calls, id), result),
        }
    }

    /// The state after recording each of `steps` in turn, from `m`: each
    /// step is a cancellation observation and a result.
    pub open spec fn replay(&self, m: DispatchModel, steps: Seq<(bool, CallbackResult)>) -> DispatchModel
        decreases steps.len(),
    {
        if steps.len() == 0 {
            m
        } else {
            self.after_record(self.replay(m, steps.drop_last()), steps.last().0, steps.last().1)
        }
    }

    /// `cancelled` is an answer the call's cancellation source gives.
    pub open spec fn observed(&self, cancelled: bool) -> bool {
        call_ensures(S::is_cancelled, (&*self.cancellation_spec(),), cancelled)
    }

    /// `after` is `before` after this recorder recorded some results, each
    /// with an observation of the call's cancellation, and nothing else
    /// happened to the dispatcher.
    pub open spec fn recorded_only(&self, before: DispatchModel, after: DispatchModel) -> bool {
        exists|steps: Seq<(bool, CallbackResult)>|
            #![trigger self.replay(before, steps)]
            (forall|k: int| 0 <= k < steps.len() ==> self.observed(#[trigger] steps[k].0))
                && self.replay(before, steps) == after
    }

    /// Accepts the first matching bounded result for the bound call,
    /// observing the call's cancellation once first: cancellation wins
    /// before result validation. A second result is rejected as duplicate;
    /// any result after cancellation or failure is rejected as post-terminal.
    /// The outcome is the one [`ResultRecorder::record_refusal`] and
    /// [`ResultRecorder::after_record`] give for the answer the call's
    /// cancellation source gave.
    pub fn record(&self, dispatcher: &mut RecordingDispatcher, result: CallbackResult) -> (r: Result<
        (),
        DispatchError,
    >)
        requires
            old(dispatcher).wf(),
        ensures
            final(dispatcher).wf(),
            final(dispatcher).config_unchanged(old(dispatcher)),
            exists|cancelled: bool|
                {
                    &&& self.observed(cancelled)
                    &&& match #[trigger] self.record_refusal(old(dispatcher).model(), cancelled, result) {
                        Some(k) => r matches Err(e) && e.kind_spec() == k,
                        None => r is Ok,
                    }
                    &&& final(dispatcher).model() == self.after_record(
                        old(dispatcher).model(),
                        cancelled,
                        result,
                    )
                },
            old(dispatcher).model().settlement_kept_by(final(dispatcher).model()),
    {
        let cancelled = self.cancellation.is_cancelled();
        let r = dispatcher.record_result(self, cancelled, result);
        assert(match self.record_refusal(old(dispatcher).model(), cancelled, result) {
            Some(k) => r matches Err(e) && e.kind_spec() == k,
            None => r is Ok,
        });
        r
    }
}

/// Consumer-owned callback invoked only after one call passes every check.
pub trait RecordingCallback<S: CancellationSource> {
    /// What one invocation of this callback does: handed `call`, it takes
    /// the dispatcher from `before` to `after` and reports a failure when
    /// `failed`. An implementation that describes nothing more leaves it
    /// at this default, which admits every invocation.
    open spec fn handles(&self, call: AdmittedCall, before: DispatchModel, after: DispatchModel, failed: bool) -> bool {
        true
    }

    /// Handles one admitted call, still in flight, and records exactly one
    /// result through `result`, which is bound to it, on `dispatcher`.
    /// Returning `Ok(())` without recording a result is a typed failure.
    /// The dispatcher is touched only by results recorded through `result`.
    fn invoke(
        &self,
        call: AdmittedCall,
        cancellation: &Cancellation<S>,
        result: &ResultRecorder<S>,
        dispatcher: &mut RecordingDispatcher,
    ) -> (r: Result<(), CallbackFailure>)
        requires
            old(dispatcher).wf(),
            result.call_id_spec() == call.call_id_spec(),
            has_call(old(dispatcher).model().calls, call.call_id_spec()),
            old(dispatcher).model().calls[call_position(
                old(dispatcher).model().calls,
                call.call_id_spec(),
            )].terminal is None,
        ensures
            final(dispatcher).wf(),
            final(dispatcher).config_unchanged(old(dispatcher)),
            result.recorded_only(old(dispatcher).model(), final(dispatcher).model()),
            self.handles(call, old(dispatcher).model(), final(dispatcher).model(), r is Err),
    ;
}

/// Stateful dispatcher that records safe callback-order evidence.
pub struct RecordingDispatcher {
    expected_registration: RegisteredCapability,
    expected_binding: TrustedBinding,
    calls: Vec<CallRecord>,
    events: Vec<DispatchEvent>,
    callbacks: usize,
    results: usize,
    cancellations: usize,
    rejections: usize,
}

impl RecordingDispatcher {
    /// The configured registration.
    pub closed spec fn expected_registration_spec(&self) -> RegisteredCapability {
        self.expected_registration
    }

    /// The configured binding.
    pub closed spec fn expected_binding_spec(&self) -> TrustedBinding {
        self.expected_binding
    }

    /// Both dispatchers carry the same configuration.
    pub open spec fn config_unchanged(&self, other: &RecordingDispatcher) -> bool {
        &&& self.expected_registration_spec() == other.expected_registration_spec()
        &&& self.expected_binding_spec() == other.expected_binding_spec()
    }

    /// The abstract state.
    pub closed spec fn model(&self) -> DispatchModel {
        DispatchModel {
            calls: self.calls@.map_values(
                |c: CallRecord| c.view_model(),
            ),
            events: self.events@.map_values(|e: DispatchEvent| e.kind_spec()),
            callbacks: self.callbacks as nat,
            results: self.results as nat,
            cancellations: self.cancellations as nat,
            rejections: self.rejections as nat,
        }
    }

    /// The recorded events, in order.
    pub closed spec fn events_spec(&self) -> Seq<DispatchEvent> {
        self.events@
    }

    /// Internal consistency: unique remembered identities within the bound,
    /// sequential event numbering, and counters that agree with both the
    /// calls and the evidence.
    pub closed spec fn wf(&self) -> bool {
        let m = self.model();
        &&& m.calls.len() <= MAX_REMEMBERED_CALLS
        &&& unique_ids(m.calls)
        &&& forall|i: int|
            0 <= i < self.events@.len() ==> #[trigger] self.events@[i].sequence_spec()
                == sequence_number(i)
        &&& m.callbacks == m.calls.len()
        &&& m.results == count_calls(m.calls, |c| is_succeeded(c))
        &&& m.cancellations == count_calls(m.calls, |c| is_cancelled_call(c))
        &&& count_events(m.events, DispatchEventKind::Validated) == m.calls.len()
        &&& count_events(m.events, DispatchEventKind::CallbackInvoked) == m.calls.len()
        &&& count_events(m.events, DispatchEventKind::ResultAccepted) == m.results
        &&& count_events(m.events, DispatchEventKind::Cancelled) == m.cancellations
        &&& count_rejections(m.events) == m.rejections
    }

    /// Creates one dispatcher for an exact registration and trusted binding.
    pub fn new(expected_registration: RegisteredCapability, expected_binding: TrustedBinding) -> (r: Self)
        ensures
            r.wf(),
            r.expected_registration_spec() == expected_registration,
            r.expected_binding_spec() == expected_binding,
            r.model().calls.len() == 0,
            r.model().events.len() == 0,
            r.model().callbacks == 0,
            r.model().results == 0,
            r.model().cancellations == 0,
            r.model().rejections == 0,
    {
        let r = RecordingDispatcher {
            expected_registration,
            expected_binding,
            calls: Vec::new(),
            events: Vec::new(),
            callbacks: 0,
            results: 0,
            cancellations: 0,
            rejections: 0,
        };
        proof {
            assert(r.model().calls =~= Seq::<CallModel>::empty());
            assert(r.model().events =~= Seq::<DispatchEventKind>::empty());
        }
        r
    }

    /// Validates one candidate call against every pre-dispatch check.
    pub fn validate(&self, invocation: &DispatchInvocation) -> (r: Result<(), DispatchError>)
        ensures
            match validation_refusal(
                self.expected_registration_spec(),
                self.expected_binding_spec(),
                *invocation,
            ) {
                Some(k) => r matches Err(e) && e.kind_spec() == k,
                None => r is Ok,
            },
            r is Ok ==> invocation.arguments_spec().len()
                <= invocation.registration_spec().bounds_spec().argument_bytes_spec(),
            r is Ok ==> matches_configuration(
                self.expected_registration_spec(),
                self.expected_binding_spec(),
                *invocation,
            ),
    {
        proof {
            law_validation_admits_exactly_matching_calls(
                self.expected_registration_spec(),
                self.expected_binding_spec(),
                *invocation,
            );
        }
        let actual = invocation.registration();
        let expected = &self.expected_registration;
        if !str_eq(actual.registration_revision(), expected.registration_revision()) {
            return Err(DispatchError::new(DispatchErrorKind::StaleRegistration));
        }
        if !str_eq(actual.capability(), expected.capability()) {
            return Err(DispatchError::new(DispatchErrorKind::UnknownCapability));
        }
        validate_schema(actual.input_schema(), expected.input_schema())?;
        validate_schema(actual.output_schema(), expected.output_schema())?;
        if actual.execution_kind() != expected.execution_kind() {
            return Err(DispatchError::new(DispatchErrorKind::ExecutionKindMismatch));
        }
        if actual.effect() != expected.effect() {
            return Err(DispatchError::new(DispatchErrorKind::EffectMismatch));
        }
        if !invocation.binding().stable_identity_matches(&self.expected_binding) {
            return Err(DispatchError::new(DispatchErrorKind::ForeignBinding));
        }
        if !invocation.binding().generations_match(&self.expected_binding) {
            return Err(DispatchError::new(DispatchErrorKind::StaleBinding));
        }
        if invocation.binding_status() == BindingStatus::Revoked {
            return Err(DispatchError::new(DispatchErrorKind::RevokedBinding));
        }
        actual.bounds().validate()?;
        invocation.deadline().validate(actual.bounds().max_call_duration())?;
        if !actual.bounds().fits_within(expected.bounds())
            || invocation.arguments_for_execution().len() > actual.bounds().max_argument_bytes() {
            return Err(DispatchError::new(DispatchErrorKind::LimitExceeded));
        }
        Ok(())
    }

    /// Position of the remembered call `id`, if any.
    fn find_call(&self, id: &str) -> (r: Option<usize>)
        requires
            self.wf(),
        ensures
            match r {
                Some(i) => i < self.model().calls.len() && self.model().calls[i as int].id == id@
                    && has_call(self.model().calls, id@) && call_position(self.model().calls, id@)
                    == i,
                None => !has_call(self.model().calls, id@),
            },
    {
        let ghost m = self.model();
        let mut i: usize = 0;
        while i < self.calls.len()
            invariant
                i <= self.calls@.len(),
                m == self.model(),
                self.wf(),
                forall|j: int| 0 <= j < i ==> #[trigger] m.calls[j].id != id@,
            decreases self.calls@.len() - i,
        {
            if str_eq(self.calls[i].call_id.as_str(), id) {
                proof {
                    assert(m.calls[i as int].id == id@);
                    assert(has_call(m.calls, id@));
                    let p = call_position(m.calls, id@);
                    assert(m.calls[p].id == id@);
                }
                return Some(i);
            }
            i += 1;
        }
        proof {
            assert forall|j: int| 0 <= j < m.calls.len() implies #[trigger] m.calls[j].id != id@ by {}
        }
        None
    }

    /// Number of calls still in flight.
    fn active_count(&self) -> (r: usize)
        requires
            self.wf(),
        ensures
            r == count_calls(self.model().calls, |c| is_active(c)),
    {
        let ghost m = self.model();
        let mut n: usize = 0;
        let mut i: usize = 0;
        while i < self.calls.len()
            invariant
                i <= self.calls@.len(),
                m == self.model(),
                self.wf(),
                n == count_calls(m.calls.take(i as int), |c| is_active(c)),
                n <= i,
            decreases self.calls@.len() - i,
        {
            assert(m.calls.take(i + 1).drop_last() == m.calls.take(i as int));
            if self.calls[i].terminal.is_none() {
                n += 1;
            }
            i += 1;
        }
        assert(m.calls.take(self.calls@.len() as int) == m.calls);
        n
    }

    /// Appends one event of kind `kind`.
    fn push_event(&mut self, kind: DispatchEventKind)
        requires
            forall|i: int|
                0 <= i < old(self).events@.len() ==> #[trigger] old(self).events@[i].sequence_spec()
                    == sequence_number(i),
        ensures
            final(self).events@.len() == old(self).events@.len() + 1,
            forall|i: int|
                0 <= i < final(self).events@.len() ==> #[trigger] final(self).events@[i].sequence_spec()
                    == sequence_number(i),
            final(self).model() == old(self).model().with_event(kind),
            final(self).expected_registration == old(self).expected_registration,
            final(self).expected_binding == old(self).expected_binding,
            final(self).calls == old(self).calls,
            final(self).callbacks == old(self).callbacks,
            final(self).results == old(self).results,
            final(self).cancellations == old(self).cancellations,
            final(self).rejections == old(self).rejections,
    {
        let len = self.events.len();
        let sequence: u64 = if len as u64 == u64::MAX {
            u64::MAX
        } else {
            len as u64 + 1
        };
        self.events.push(DispatchEvent::new(sequence, kind));
        proof {
            assert(self.model().events =~= old(self).model().events.push(kind));
        }
    }

    /// Records one rejection of class `kind`.
    fn reject(&mut self, kind: DispatchErrorKind)
        requires
            old(self).wf(),
        ensures
            final(self).wf(),
            final(self).model() == old(self).model().with_rejection(kind),
            final(self).expected_registration == old(self).expected_registration,
            final(self).expected_binding == old(self).expected_binding,
    {
        let ghost before = self.model();
        self.push_event(DispatchEventKind::Rejected(kind));
        let len = self.events.len();
        proof {
            let evs = self.model().events;
            assert(evs.drop_last() == before.events);
            assert(count_rejections(evs) == count_rejections(before.events) + 1);
            assert(count_rejections(before.events) <= before.events.len()) by {
                lemma_rejections_bounded(before.events);
            }
            assert(count_events(evs, DispatchEventKind::Validated) == count_events(before.events, DispatchEventKind::Validated));
            assert(count_events(evs, DispatchEventKind::CallbackInvoked) == count_events(before.events, DispatchEventKind::CallbackInvoked));
            assert(count_events(evs, DispatchEventKind::ResultAccepted) == count_events(before.events, DispatchEventKind::ResultAccepted));
            assert(count_events(evs, DispatchEventKind::Cancelled) == count_events(before.events, DispatchEventKind::Cancelled));
        }
        self.rejections = self.rejections + 1;
        proof {
            assert(self.model() == before.with_rejection(kind));
        }
    }

    /// Settles the remembered call at `i` as failed with `kind`.
    fn settle_failure(&mut self, i: usize, kind: DispatchErrorKind)
        requires
            old(self).wf(),
            i < old(self).model().calls.len(),
            old(self).model().calls[i as int].terminal is None,
        ensures
            final(self).wf(),
            final(self).model() == old(self).model().with_failure(i as int, kind),
            final(self).expected_registration == old(self).expected_registration,
            final(self).expected_binding == old(self).expected_binding,
    {
        let ghost before = self.model();
        let id = copy_string(&self.calls[i].call_id);
        let schema = self.calls[i].schema.duplicate();
        let record = CallRecord {
            call_id: id,
            effect: self.calls[i].effect,
            schema,
            max_result_bytes: self.calls[i].max_result_bytes,
            terminal: Some(Terminal::Failed(kind)),
        };
        self.calls.set(i, record);
        let ghost settled = before.with_failure(i as int, kind);
        proof {
            let new_call = CallModel { terminal: Some(Terminal::Failed(kind)), ..before.calls[i as int] };
            assert(self.model().calls =~= before.calls.update(i as int, new_call));
            lemma_count_update(before.calls, i as int, new_call, |c| is_active(c));
            lemma_count_update(before.calls, i as int, new_call, |c| is_succeeded(c));
            lemma_count_update(before.calls, i as int, new_call, |c| is_cancelled_call(c));
            lemma_unique_update(before.calls, i as int, new_call);
        }
        if kind == DispatchErrorKind::Cancelled {
            self.push_event(DispatchEventKind::Cancelled);
            proof {
                let evs = self.model().events;
                assert(evs.drop_last() == before.events);
                assert(count_events(evs, DispatchEventKind::Validated) == count_events(before.events, DispatchEventKind::Validated));
                assert(count_events(evs, DispatchEventKind::CallbackInvoked) == count_events(before.events, DispatchEventKind::CallbackInvoked));
                assert(count_events(evs, DispatchEventKind::ResultAccepted) == count_events(before.events, DispatchEventKind::ResultAccepted));
                assert(count_events(evs, DispatchEventKind::Cancelled) == count_events(before.events, DispatchEventKind::Cancelled) + 1);
                assert(count_rejections(evs) == count_rejections(before.events));
                lemma_count_bounded(before.calls, |c| is_cancelled_call(c));
            }
            self.cancellations = self.cancellations + 1;
            proof {
                assert(self.model() == settled);
            }
        } else {
            proof {
                assert(self.wf());
            }
            self.reject(kind);
        }
    }

    /// Admits one candidate call: validation, duplicate and capacity checks,
    /// then the callback's inputs. A refusal is recorded and changes no call.
    pub fn begin_dispatch<S: CancellationSource>(
        &mut self,
        invocation: &DispatchInvocation,
        cancellation: &Cancellation<S>,
    ) -> (r: Result<(AdmittedCall, ResultRecorder<S>), DispatchError>)
        requires
            old(self).wf(),
        ensures
            final(self).wf(),
            final(self).config_unchanged(old(self)),
            match admission_refusal(
                old(self).model(),
                old(self).expected_registration_spec(),
                old(self).expected_binding_spec(),
                *invocation,
            ) {
                Some(k) => r matches Err(e) && e.kind_spec() == k && final(self).model() == old(
                    self,
                ).model().with_rejection(k),
                None => r matches Ok((call, recorder)) && call.admits(invocation)
                    && recorder.binds(invocation) && recorder.cancellation_spec()
                    == cancellation.source_spec() && final(self).model() == old(
                    self,
                ).model().with_admission(*invocation),
            },
            old(self).model().settlement_kept_by(final(self).model()),
            r is Err ==> final(self).model().calls == old(self).model().calls
                && final(self).model().callbacks == old(self).model().callbacks,
            has_call(old(self).model().calls, invocation.call_id_spec()) ==> r is Err,
            r is Ok ==> count_calls(old(self).model().calls, |c| is_active(c))
                < invocation.registration_spec().bounds_spec().outstanding_spec(),
    {
        let ghost before = self.model();
        if let Err(error) = self.validate(invocation) {
            self.reject(error.kind());
            proof { lemma_rejection_keeps_settlement(before, error.kind_spec()); }
            return Err(error);
        }
        if self.find_call(invocation.call_id()).is_some() {
            let error = DispatchError::new(DispatchErrorKind::DuplicateCall);
            self.reject(DispatchErrorKind::DuplicateCall);
            proof { lemma_rejection_keeps_settlement(before, DispatchErrorKind::DuplicateCall); }
            return Err(error);
        }
        if self.calls.len() >= MAX_REMEMBERED_CALLS
            || self.active_count() >= invocation.registration().bounds().max_outstanding_calls() {
            let error = DispatchError::new(DispatchErrorKind::LimitExceeded);
            self.reject(DispatchErrorKind::LimitExceeded);
            proof { lemma_rejection_keeps_settlement(before, DispatchErrorKind::LimitExceeded); }
            return Err(error);
        }
        let admitted = AdmittedCall::from_invocation(invocation);
        let recorder = ResultRecorder {
            call_id: owned(invocation.call_id()),
            cancellation: cancellation.clone(),
        };
        let new_call = CallRecord {
            call_id: owned(invocation.call_id()),
            effect: invocation.registration().effect(),
            schema: invocation.registration().output_schema().duplicate(),
            max_result_bytes: invocation.registration().bounds().max_result_bytes(),
            terminal: None,
        };
        self.calls.push(new_call);
        let ghost id = invocation.call_id_spec();
        proof {
            let cm = admitted_call(*invocation);
            assert(self.model().calls =~= before.calls.push(cm));
            assert(self.model().calls.drop_last() == before.calls);
            assert(count_calls(self.model().calls, |c| is_succeeded(c)) == count_calls(before.calls, |c| is_succeeded(c)));
            assert(count_calls(self.model().calls, |c| is_cancelled_call(c)) == count_calls(before.calls, |c| is_cancelled_call(c)));
            assert(unique_ids(self.model().calls)) by {
                assert forall|a: int, b: int|
                    0 <= a < self.model().calls.len() && 0 <= b < self.model().calls.len() && a != b
                        implies #[trigger] self.model().calls[a].id != #[trigger] self.model().calls[b].id by {
                    if a < before.calls.len() && b < before.calls.len() {
                    } else if a == before.calls.len() {
                        assert(before.calls[b].id != id);
                    } else {
                        assert(before.calls[a].id != id);
                    }
                }
            }
        }
        self.push_event(DispatchEventKind::Validated);
        let ghost mid = self.model();
        self.push_event(DispatchEventKind::CallbackInvoked);
        proof {
            let evs = self.model().events;
            assert(evs.drop_last() == mid.events);
            assert(mid.events.drop_last() == before.events);
            assert(count_rejections(mid.events) == count_rejections(before.events));
            assert(count_events(mid.events, DispatchEventKind::ResultAccepted) == count_events(before.events, DispatchEventKind::ResultAccepted));
            assert(count_events(mid.events, DispatchEventKind::Cancelled) == count_events(before.events, DispatchEventKind::Cancelled));
            assert(count_events(mid.events, DispatchEventKind::Validated) == count_events(before.events, DispatchEventKind::Validated) + 1);
            assert(count_events(mid.events, DispatchEventKind::CallbackInvoked) == count_events(before.events, DispatchEventKind::CallbackInvoked));
            assert(count_rejections(evs) == count_rejections(before.events));
            assert(count_events(evs, DispatchEventKind::ResultAccepted) == count_events(before.events, DispatchEventKind::ResultAccepted));
            assert(count_events(evs, DispatchEventKind::Cancelled) == count_events(before.events, DispatchEventKind::Cancelled));
            assert(count_events(evs, DispatchEventKind::Validated) == count_events(before.events, DispatchEventKind::Validated) + 1);
            assert(count_events(evs, DispatchEventKind::CallbackInvoked) == count_events(before.events, DispatchEventKind::CallbackInvoked) + 1);
        }
        self.callbacks = self.callbacks + 1;
        proof {
            assert(self.model() == before.with_admission(*invocation));
        }
        Ok((admitted, recorder))
    }

    fn record_result<S: CancellationSource>(
        &mut self,
        recorder: &ResultRecorder<S>,
        cancelled: bool,
        result: CallbackResult,
    ) -> (r: Result<(), DispatchError>)
        requires
            old(self).wf(),
        ensures
            final(self).wf(),
            final(self).config_unchanged(old(self)),
            match recorder.record_refusal(old(self).model(), cancelled, result) {
                Some(k) => r matches Err(e) && e.kind_spec() == k,
                None => r is Ok,
            },
            final(self).model() == recorder.after_record(old(self).model(), cancelled, result),
            old(self).model().settlement_kept_by(final(self).model()),
    {
        let ghost before = self.model();
        let found = self.find_call(recorder.call_id.as_str());
        let i = match found {
            None => {
                self.reject(DispatchErrorKind::PostTerminalResult);
                proof { lemma_rejection_keeps_settlement(before, DispatchErrorKind::PostTerminalResult); }
                return Err(DispatchError::new(DispatchErrorKind::PostTerminalResult));
            },
            Some(i) => i,
        };
        match &self.calls[i].terminal {
            Some(Terminal::Succeeded { .. }) => {
                self.reject(DispatchErrorKind::DuplicateResult);
                proof { lemma_rejection_keeps_settlement(before, DispatchErrorKind::DuplicateResult); }
                return Err(DispatchError::new(DispatchErrorKind::DuplicateResult));
            },
            Some(Terminal::Failed(_)) => {
                self.reject(DispatchErrorKind::PostTerminalResult);
                proof { lemma_rejection_keeps_settlement(before, DispatchErrorKind::PostTerminalResult); }
                return Err(DispatchError::new(DispatchErrorKind::PostTerminalResult));
            },
            None => {},
        }
        proof {
            assert(self.model().calls[i as int] == self.calls@[i as int].view_model());
        }
        let refusal = if cancelled {
            Some(DispatchErrorKind::Cancelled)
        } else if !str_eq(result.schema().version(), self.calls[i].schema.version()) {
            Some(DispatchErrorKind::UnsupportedSchemaVersion)
        } else if !str_eq(result.schema().digest(), self.calls[i].schema.digest()) {
            Some(DispatchErrorKind::UnknownSchema)
        } else if result.payload_for_delivery().len() > self.calls[i].max_result_bytes {
            Some(DispatchErrorKind::LimitExceeded)
        } else {
            None
        };
        if let Some(kind) = refusal {
            self.settle_failure(i, kind);
            proof { lemma_failure_keeps_settlement(before, i as int, kind); }
            return Err(DispatchError::new(kind));
        }
        let id = copy_string(&self.calls[i].call_id);
        let schema = self.calls[i].schema.duplicate();
        let record = CallRecord {
            call_id: id,
            effect: self.calls[i].effect,
            schema,
            max_result_bytes: self.calls[i].max_result_bytes,
            terminal: Some(Terminal::Succeeded { result }),
        };
        self.calls.set(i, record);
        proof {
            let new_call = CallModel { terminal: Some(Terminal::Succeeded { result }), ..before.calls[i as int] };
            assert(self.model().calls =~= before.calls.update(i as int, new_call));
            lemma_count_update(before.calls, i as int, new_call, |c| is_active(c));
            lemma_count_update(before.calls, i as int, new_call, |c| is_succeeded(c));
            lemma_count_update(before.calls, i as int, new_call, |c| is_cancelled_call(c));
            lemma_unique_update(before.calls, i as int, new_call);
            lemma_count_bounded(before.calls, |c| is_succeeded(c));
        }
        self.push_event(DispatchEventKind::ResultAccepted);
        proof {
            let evs = self.model().events;
            assert(evs.drop_last() == before.events);
            assert(count_events(evs, DispatchEventKind::Validated) == count_events(before.events, DispatchEventKind::Validated));
            assert(count_events(evs, DispatchEventKind::CallbackInvoked) == count_events(before.events, DispatchEventKind::CallbackInvoked));
            assert(count_events(evs, DispatchEventKind::ResultAccepted) == count_events(before.events, DispatchEventKind::ResultAccepted) + 1);
            assert(count_events(evs, DispatchEventKind::Cancelled) == count_events(before.events, DispatchEventKind::Cancelled));
            assert(count_rejections(evs) == count_rejections(before.events));
        }
        self.results = self.results + 1;
        proof {
            assert(self.model() == before.with_success(i as int, result));
            lemma_success_keeps_settlement(before, i as int, result);
        }
        Ok(())
    }

    /// Settles the call `call_id` after its callback returned, given whether
    /// the call was observed cancelled and whether the callback reported a
    /// failure, and returns its terminal outcome.
    pub fn settle(&mut self, call_id: &str, cancelled: bool, callback_failed: bool) -> (r: Result<DispatchOutcome, DispatchError>)
        requires
            old(self).wf(),
        ensures
            final(self).wf(),
            final(self).config_unchanged(old(self)),
            old(self).model().settlement_kept_by(final(self).model()),
            ({
                let m = old(self).model();
                let found = has_call(m.calls, call_id@);
                let i = call_position(m.calls, call_id@);
                let k = if cancelled {
                    DispatchErrorKind::Cancelled
                } else if callback_failed {
                    DispatchErrorKind::CallbackFailed
                } else {
                    DispatchErrorKind::MissingResult
                };
                let m1 = if found && m.calls[i].terminal is None {
                    m.with_failure(i, k)
                } else {
                    m
                };
                if !found {
                    &&& r matches Err(e) && e.kind_spec() == DispatchErrorKind::MissingResult
                    &&& final(self).model() == m.with_rejection(DispatchErrorKind::MissingResult)
                } else {
                    &&& final(self).model() == m1
                    &&& match m1.calls[i].terminal {
                        Some(Terminal::Succeeded { result }) => r matches Ok(o)
                            && o.call_id_spec() == call_id@ && o.effect_spec() == m1.calls[i].effect
                            && o.result_spec().schema_spec() == result.schema_spec()
                            && o.result_spec().payload_spec() == result.payload_spec(),
                        Some(Terminal::Failed(f)) => r matches Err(e) && e.kind_spec() == f,
                        None => false,
                    }
                }
            }),
    {
        let ghost before = self.model();
        let found = self.find_call(call_id);
        match found {
            None => {
                self.reject(DispatchErrorKind::MissingResult);
                proof { lemma_rejection_keeps_settlement(before, DispatchErrorKind::MissingResult); }
                Err(DispatchError::new(DispatchErrorKind::MissingResult))
            },
            Some(i) => {
                if self.calls[i].terminal.is_none() {
                    let kind = if cancelled {
                        DispatchErrorKind::Cancelled
                    } else if callback_failed {
                        DispatchErrorKind::CallbackFailed
                    } else {
                        DispatchErrorKind::MissingResult
                    };
                    self.settle_failure(i, kind);
                    proof { lemma_failure_keeps_settlement(before, i as int, kind); }
                }
                proof {
                    assert(self.model().calls[i as int] == self.calls@[i as int].view_model());
                }
                match &self.calls[i].terminal {
                    Some(Terminal::Succeeded { result }) => {
                        let outcome = DispatchOutcome::new(owned(call_id), self.calls[i].effect, result.duplicate());
                        Ok(outcome)
                    },
                    Some(Terminal::Failed(kind)) => Err(DispatchError::new(*kind)),
                    None => Err(DispatchError::new(DispatchErrorKind::MissingResult)),
                }
            },
        }
    }

    /// Validates, invokes, and settles one call exactly once. A refused
    /// candidate is recorded and never reaches `callback`; an admitted one is
    /// handed to `callback` once, with the call its invocation admits and a
    /// recorder bound to it, then settled (cancelled, failed, or missing its
    /// result when the callback left it open), and its terminal outcome is
    /// returned. A success carries the invocation's effect posture.
    pub fn dispatch<S: CancellationSource, C: RecordingCallback<S>>(
        &mut self,
        callback: &C,
        invocation: &DispatchInvocation,
        cancellation: &Cancellation<S>,
    ) -> (r: Result<DispatchOutcome, DispatchError>)
        requires
            old(self).wf(),
        ensures
            final(self).wf(),
            final(self).config_unchanged(old(self)),
            old(self).model().settlement_kept_by(final(self).model()),
            match admission_refusal(
                old(self).model(),
                old(self).expected_registration_spec(),
                old(self).expected_binding_spec(),
                *invocation,
            ) {
                Some(k) => r matches Err(e) && e.kind_spec() == k && final(self).model() == old(
                    self,
                ).model().with_rejection(k),
                None => {
                    let i = old(self).model().calls.len() as int;
                    let admitted = old(self).model().with_admission(*invocation);
                    &&& exists|
                        call: AdmittedCall,
                        rec: ResultRecorder<S>,
                        m: DispatchModel,
                        failed: bool,
                        obs: bool,
                    |
                        #![trigger callback.handles(call, admitted, m, failed), rec.recorded_only(admitted, m), settled_after(m, invocation.call_id_spec(), obs, failed)]
                        {
                            &&& call.admits(invocation)
                            &&& rec.binds(invocation)
                            &&& rec.cancellation_spec() == cancellation.source_spec()
                            &&& callback.handles(call, admitted, m, failed)
                            &&& rec.recorded_only(admitted, m)
                            &&& call_ensures(S::is_cancelled, (&*cancellation.source_spec(),), obs)
                            &&& final(self).model() == settled_after(
                                m,
                                invocation.call_id_spec(),
                                obs,
                                failed,
                            )
                        }
                    &&& final(self).model().calls.len() == i + 1
                    &&& final(self).model().callbacks == old(self).model().callbacks + 1
                    &&& same_admission(admitted_call(*invocation), final(self).model().calls[i])
                    &&& match final(self).model().calls[i].terminal {
                        Some(Terminal::Succeeded { result }) => r matches Ok(o)
                            && o.call_id_spec() == invocation.call_id_spec() && o.effect_spec()
                            == invocation.registration_spec().effect_spec()
                            && o.result_spec().schema_spec() == result.schema_spec()
                            && o.result_spec().payload_spec() == result.payload_spec(),
                        Some(Terminal::Failed(f)) => r matches Err(e) && e.kind_spec() == f,
                        None => false,
                    }
                },
            },
    {
        let ghost m0 = self.model();
        let (call, recorder) = match self.begin_dispatch(invocation, cancellation) {
            Ok(admitted) => admitted,
            Err(error) => return Err(error),
        };
        let ghost m1 = self.model();
        let ghost i = m0.calls.len() as int;
        let ghost call_view = call;
        assert(m1.calls[i] == admitted_call(*invocation));
        proof {
            assert(0 <= i < m1.calls.len());
            assert(m1.calls[i].id == invocation.call_id_spec());
            assert(has_call(m1.calls, invocation.call_id_spec()));
            let j = call_position(m1.calls, invocation.call_id_spec());
            assert(j == i) by {
                if j != i {
                    assert(m1.calls[j].id != m1.calls[i].id);
                }
            }
        }
        let returned = callback.invoke(call, cancellation, &recorder, self);
        let ghost m2 = self.model();
        let ghost failed = returned is Err;
        proof {
            let steps = choose|steps: Seq<(bool, CallbackResult)>|
                #![trigger recorder.replay(m1, steps)]
                (forall|k: int| 0 <= k < steps.len() ==> recorder.observed(#[trigger] steps[k].0))
                    && recorder.replay(m1, steps) == m2;
            lemma_replay_keeps(recorder, m1, steps);
            lemma_kept_trans(m0, m1, m2);
        }
        let cancelled = cancellation.is_cancelled();
        let r = self.settle(invocation.call_id(), cancelled, returned.is_err());
        proof {
            let m3 = self.model();
            assert(same_admission(m1.calls[i], m2.calls[i]));
            assert(m2.calls[i].id == invocation.call_id_spec());
            assert(has_call(m2.calls, invocation.call_id_spec()));
            let j = call_position(m2.calls, invocation.call_id_spec());
            assert(j == i) by {
                if j != i {
                    assert(m2.calls[j].id != m2.calls[i].id);
                }
            }
            assert(m3 == settled_after(m2, invocation.call_id_spec(), cancelled, failed));
            assert(m3.calls.len() == m2.calls.len() && m3.callbacks == m2.callbacks);
            lemma_kept_trans(m0, m2, m3);
            assert(same_admission(m2.calls[i], m3.calls[i]));
            assert(callback.handles(call_view, m1, m2, failed));
            assert(recorder.recorded_only(m1, m2));
        }
        r
    }

    /// Returns ordered payload-free evidence.
    pub fn events(&self) -> (r: Vec<DispatchEvent>)
        ensures
            r@ == self.events_spec(),
            self.wf() ==> forall|i: int|
                0 <= i < r@.len() ==> (#[trigger] r@[i]).sequence_spec() == sequence_number(i),
    {
        self.events.clone()
    }

    /// Returns safe aggregate counts.
    pub fn metrics(&self) -> (r: DispatchMetrics)
        ensures
            r.callbacks == self.model().callbacks,
            r.results == self.model().results,
            r.cancellations == self.model().cancellations,
            r.rejections == self.model().rejections,
            r.mutation_replays == 0,
    {
        DispatchMetrics {
            callbacks: self.callbacks,
            results: self.results,
            cancellations: self.cancellations,
            rejections: self.rejections,
            mutation_replays: 0,
        }
    }
}

impl CallRecord {
    /// The abstract view of this record.
    pub closed spec fn view_model(self) -> CallModel {
        CallModel {
            id: self.call_id@,
            effect: self.effect,
            schema: self.schema,
            max_result_bytes: self.max_result_bytes,
            terminal: self.terminal,
        }
    }
}

/// Every admitted call invoked its callback exactly once: the callback
/// count equals the number of admitted calls, and never exceeds the
/// remembered-call bound.
pub proof fn lemma_one_callback_per_admitted_call(d: &RecordingDispatcher)
    requires
        d.wf(),
    ensures
        d.model().callbacks == d.model().calls.len(),
        d.model().callbacks <= MAX_REMEMBERED_CALLS,
{
}

/// The metrics agree with the recorded evidence: each counter equals the
/// number of events of its kind, accepted results and cancellations are
/// the calls settled that way, and together they never exceed the
/// callbacks invoked.
pub proof fn lemma_evidence_matches_metrics(d: &RecordingDispatcher)
    requires
        d.wf(),
    ensures
        d.events_spec().len() == d.model().events.len(),
        forall|i: int|
            0 <= i < d.events_spec().len() ==> (#[trigger] d.events_spec()[i]).kind_spec()
                == d.model().events[i],
        count_events(d.model().events, DispatchEventKind::Validated) == d.model().callbacks,
        count_events(d.model().events, DispatchEventKind::CallbackInvoked) == d.model().callbacks,
        count_events(d.model().events, DispatchEventKind::ResultAccepted) == d.model().results,
        count_events(d.model().events, DispatchEventKind::Cancelled) == d.model().cancellations,
        count_rejections(d.model().events) == d.model().rejections,
        d.model().results == count_calls(d.model().calls, |c| is_succeeded(c)),
        d.model().cancellations == count_calls(d.model().calls, |c| is_cancelled_call(c)),
        d.model().results + d.model().cancellations <= d.model().callbacks,
{
    lemma_settled_counts_bounded(d.model().calls);
}

/// Every recorded event is numbered by its position, from one: the event
/// at position `i` carries `i + 1`, held at `u64::MAX` once that is reached.
pub proof fn lemma_events_numbered_from_one(d: &RecordingDispatcher)
    requires
        d.wf(),
    ensures
        forall|i: int|
            0 <= i < d.events_spec().len() ==> (#[trigger] d.events_spec()[i]).sequence_spec()
                == sequence_number(i),
        forall|i: int|
            0 <= i < d.events_spec().len() && i + 1 < u64::MAX ==> (#[trigger] d.events_spec()[i]).sequence_spec()
                == i + 1,
{
}

/// Recorded events carry strictly increasing sequence numbers, starting at
/// one, for as long as the numbers stay below `u64::MAX`.
pub proof fn lemma_event_sequences_increase(d: &RecordingDispatcher, i: int, j: int)
    requires
        d.wf(),
        0 <= i < j < d.events_spec().len(),
        j + 1 < u64::MAX,
    ensures
        d.events_spec()[i].sequence_spec() < d.events_spec()[j].sequence_spec(),
        d.events_spec()[i].sequence_spec() == i + 1,
{
}

proof fn lemma_settled_counts_bounded(calls: Seq<CallModel>)
    ensures
        count_calls(calls, |c| is_succeeded(c)) + count_calls(calls, |c| is_cancelled_call(c))
            <= calls.len(),
    decreases calls.len(),
{
    if calls.len() > 0 {
        lemma_settled_counts_bounded(calls.drop_last());
    }
}

fn validate_schema(actual: &SchemaIdentity, expected: &SchemaIdentity) -> (r: Result<(), DispatchError>)
    ensures
        match schema_refusal(*actual, *expected) {
            Some(k) => r matches Err(e) && e.kind_spec() == k,
            None => r is Ok,
        },
{
    if !str_eq(actual.version(), expected.version()) {
        Err(DispatchError::new(DispatchErrorKind::UnsupportedSchemaVersion))
    } else if !str_eq(actual.digest(), expected.digest()) {
        Err(DispatchError::new(DispatchErrorKind::UnknownSchema))
    } else {
        Ok(())
    }
}

proof fn lemma_rejections_bounded(events: Seq<DispatchEventKind>)
    ensures
        count_rejections(events) <= events.len(),
    decreases events.len(),
{
    if events.len() > 0 {
        lemma_rejections_bounded(events.drop_last());
    }
}

proof fn lemma_count_bounded(calls: Seq<CallModel>, p: spec_fn(CallModel) -> bool)
    ensures
        count_calls(calls, p) <= calls.len(),
    decreases calls.len(),
{
    if calls.len() > 0 {
        lemma_count_bounded(calls.drop_last(), p);
    }
}

proof fn lemma_count_update(calls: Seq<CallModel>, i: int, c: CallModel, p: spec_fn(CallModel) -> bool)
    requires
        0 <= i < calls.len(),
    ensures
        count_calls(calls.update(i, c), p) + (if p(calls[i]) { 1int } else { 0int }) == count_calls(
            calls,
            p,
        ) + (if p(c) { 1int } else { 0int }),
    decreases calls.len(),
{
    let u = calls.update(i, c);
    if i == calls.len() - 1 {
        assert(u.drop_last() == calls.drop_last());
    } else {
        assert(u.drop_last() == calls.drop_last().update(i, c));
        lemma_count_update(calls.drop_last(), i, c, p);
    }
}

proof fn lemma_unique_update(calls: Seq<CallModel>, i: int, c: CallModel)
    requires
        0 <= i < calls.len(),
        unique_ids(calls),
        c.id == calls[i].id,
    ensures
        unique_ids(calls.update(i, c)),
{
    let u = calls.update(i, c);
    assert forall|a: int, b: int| 0 <= a < u.len() && 0 <= b < u.len() && a != b implies #[trigger] u[a].id != #[trigger] u[b].id by {
        assert(u[a].id == calls[a].id);
        assert(u[b].id == calls[b].id);
    }
}

proof fn lemma_rejection_keeps_settlement(m: DispatchModel, k: DispatchErrorKind)
    ensures
        m.settlement_kept_by(m.with_rejection(k)),
{
}

proof fn lemma_failure_keeps_settlement(m: DispatchModel, i: int, k: DispatchErrorKind)
    requires
        0 <= i < m.calls.len(),
        m.calls[i].terminal is None,
    ensures
        m.settlement_kept_by(m.with_failure(i, k)),
{
}

proof fn lemma_success_keeps_settlement(m: DispatchModel, i: int, result: CallbackResult)
    requires
        0 <= i < m.calls.len(),
        m.calls[i].terminal is None,
    ensures
        m.settlement_kept_by(m.with_success(i, result)),
{
}

proof fn lemma_kept_trans(a: DispatchModel, b: DispatchModel, c: DispatchModel)
    requires
        a.settlement_kept_by(b),
        b.settlement_kept_by(c),
    ensures
        a.settlement_kept_by(c),
{
    assert forall|i: int| 0 <= i < a.calls.len() implies same_admission(a.calls[i], #[trigger] c.calls[i]) by {
        assert(same_admission(a.calls[i], b.calls[i]));
        assert(same_admission(b.calls[i], c.calls[i]));
    }
    assert forall|i: int| 0 <= i < a.calls.len() && a.calls[i].terminal is Some implies #[trigger] c.calls[i]
        == a.calls[i] by {
        assert(b.calls[i] == a.calls[i]);
        assert(c.calls[i] == b.calls[i]);
    }
    assert forall|i: int| 0 <= i < a.events.len() implies #[trigger] c.events[i] == a.events[i] by {
        assert(b.events[i] == a.events[i]);
        assert(c.events[i] == b.events[i]);
    }
}

proof fn lemma_after_record_keeps<S: CancellationSource>(rec: ResultRecorder<S>, m: DispatchModel, cancelled: bool, result: CallbackResult)
    ensures
        m.settlement_kept_by(rec.after_record(m, cancelled, result)),
        rec.after_record(m, cancelled, result).calls.len() == m.calls.len(),
        rec.after_record(m, cancelled, result).callbacks == m.callbacks,
{
    let id = rec.call_id_spec();
    let i = call_position(m.calls, id);
    match rec.record_refusal(m, cancelled, result) {
        Some(k) => {
            if has_call(m.calls, id) && m.calls[i].terminal is None {
                lemma_failure_keeps_settlement(m, i, k);
            } else {
                lemma_rejection_keeps_settlement(m, k);
            }
        },
        None => {
            lemma_success_keeps_settlement(m, i, result);
        },
    }
}

/// Recording any sequence of results keeps every settlement, admission
/// and event already there, and admits no call and invokes no callback.
pub proof fn lemma_replay_keeps<S: CancellationSource>(rec: ResultRecorder<S>, m: DispatchModel, steps: Seq<(bool, CallbackResult)>)
    ensures
        m.settlement_kept_by(rec.replay(m, steps)),
        rec.replay(m, steps).calls.len() == m.calls.len(),
        rec.replay(m, steps).callbacks == m.callbacks,
    decreases steps.len(),
{
    if steps.len() > 0 {
        let prev = rec.replay(m, steps.drop_last());
        lemma_replay_keeps(rec, m, steps.drop_last());
        lemma_after_record_keeps(rec, prev, steps.last().0, steps.last().1);
        lemma_kept_trans(m, prev, rec.replay(m, steps));
    }
}

/// Whatever happens to a dispatcher keeps its evidence: every event of an
/// earlier state stays at the same position, with the same sequence number
/// and kind, in any later state that keeps its settlements.
pub proof fn lemma_events_kept(earlier: &RecordingDispatcher, later: &RecordingDispatcher)
    requires
        earlier.wf(),
        later.wf(),
        earlier.model().settlement_kept_by(later.model()),
    ensures
        later.events_spec().len() >= earlier.events_spec().len(),
        forall|i: int|
            0 <= i < earlier.events_spec().len() ==> (#[trigger] later.events_spec()[i]).sequence_spec()
                == earlier.events_spec()[i].sequence_spec() && later.events_spec()[i].kind_spec()
                == earlier.events_spec()[i].kind_spec(),
{
    assert forall|i: int| 0 <= i < earlier.events_spec().len() implies (#[trigger] later.events_spec()[i]).sequence_spec()
        == earlier.events_spec()[i].sequence_spec() && later.events_spec()[i].kind_spec()
        == earlier.events_spec()[i].kind_spec() by {
        assert(earlier.model().events[i] == earlier.events_spec()[i].kind_spec());
        assert(later.model().events[i] == later.events_spec()[i].kind_spec());
    }
}

} // verus!
