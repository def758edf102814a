//! Recording-dispatcher acceptance fixtures, driven synchronously: the test
//! plays the host, running each callback between admission and settlement.

use std::cell::{Cell, RefCell};
use std::sync::atomic::AtomicBool;
use std::sync::Arc;

use longhorn_agent::{
    AdmittedCall, BindingStatus, CallbackFailure, CallbackResult, Cancellation,
    CancellationSource, DispatchBounds, DispatchDeadline, DispatchEffect, DispatchError,
    DispatchErrorKind, DispatchEventKind, DispatchInvocation, DispatchOutcome, Duration,
    ExecutionKind, RecordingCallback, RecordingDispatcher, RegisteredCapability, ResultRecorder,
    SchemaIdentity, TrustedBinding,
};

fn schema(version: &str, digest: &str) -> SchemaIdentity {
    SchemaIdentity::new(version, digest).expect("fixture schema identity")
}

fn bounds(result_bytes: usize) -> DispatchBounds {
    DispatchBounds::new(1, 64, result_bytes, 16, 2, Duration::from_secs(5)).expect("fixture bounds")
}

fn registration(
    revision: &str,
    input: SchemaIdentity,
    output: SchemaIdentity,
    kind: ExecutionKind,
) -> RegisteredCapability {
    RegisteredCapability::new(
        revision,
        "desktop/read_context",
        input,
        output,
        kind,
        DispatchEffect::Mutating,
        bounds(64),
    )
    .expect("fixture registration")
}

fn expected_registration() -> RegisteredCapability {
    registration(
        "registration-7",
        schema("1", "sha256:input"),
        schema("1", "sha256:output"),
        ExecutionKind::NativeClient,
    )
}

fn binding(
    incarnation: &str,
    workspace_generation: u64,
    task_generation: u64,
    operation_generation: u64,
) -> TrustedBinding {
    TrustedBinding::new(
        incarnation,
        workspace_generation,
        task_generation,
        operation_generation,
        "task-secret",
        "session-secret",
        "attempt-secret",
    )
    .expect("fixture binding")
}

fn expected_binding() -> TrustedBinding {
    binding("process-secret", 3, 5, 7)
}

fn invocation(
    call_id: &str,
    registration: RegisteredCapability,
    binding: TrustedBinding,
    status: BindingStatus,
) -> DispatchInvocation {
    DispatchInvocation::new(
        call_id,
        registration,
        binding,
        status,
        DispatchDeadline::active(Duration::from_secs(1)),
        b"argument-secret".to_vec(),
    )
    .expect("fixture invocation")
}

fn dispatcher() -> RecordingDispatcher {
    RecordingDispatcher::new(expected_registration(), expected_binding())
}

/// Host-owned cancellation flag for one call.
struct FlagSource(AtomicBool);

impl CancellationSource for FlagSource {
    fn is_cancelled(&self) -> bool {
        self.0.load(std::sync::atomic::Ordering::SeqCst)
    }
}

/// A consumer callback running one closure, cancelling its call after it
/// returns when asked to.
struct Hook<F> {
    body: RefCell<Option<F>>,
    invoked: Cell<usize>,
    source: Arc<FlagSource>,
    cancel_after: bool,
}

impl<F> RecordingCallback<FlagSource> for Hook<F>
where
    F: FnOnce(&AdmittedCall, &ResultRecorder<FlagSource>, &mut RecordingDispatcher) -> Result<(), CallbackFailure>,
{
    fn invoke(
        &self,
        call: AdmittedCall,
        _cancellation: &Cancellation<FlagSource>,
        result: &ResultRecorder<FlagSource>,
        dispatcher: &mut RecordingDispatcher,
    ) -> Result<(), CallbackFailure> {
        self.invoked.set(self.invoked.get() + 1);
        let body = self.body.borrow_mut().take().expect("one invocation per call");
        let returned = body(&call, result, dispatcher);
        if self.cancel_after {
            self.source.0.store(true, std::sync::atomic::Ordering::SeqCst);
        }
        returned
    }
}

/// Dispatches one call through the library with a closure callback,
/// counting how often the callback ran.
fn dispatch<F>(
    dispatcher: &mut RecordingDispatcher,
    invocation: DispatchInvocation,
    calls: &mut usize,
    cancelled_after: bool,
    callback: F,
) -> Result<DispatchOutcome, DispatchError>
where
    F: FnOnce(&AdmittedCall, &ResultRecorder<FlagSource>, &mut RecordingDispatcher) -> Result<(), CallbackFailure>,
{
    let source = Arc::new(FlagSource(AtomicBool::new(false)));
    let hook = Hook {
        body: RefCell::new(Some(callback)),
        invoked: Cell::new(0),
        source: Arc::clone(&source),
        cancel_after: cancelled_after,
    };
    let cancellation = Cancellation::new(source);
    let outcome = dispatcher.dispatch(&hook, &invocation, &cancellation);
    *calls += hook.invoked.get();
    outcome
}

fn completing(
    _call: &AdmittedCall,
    recorder: &ResultRecorder<FlagSource>,
    dispatcher: &mut RecordingDispatcher,
) -> Result<(), CallbackFailure> {
    recorder
        .record(
            dispatcher,
            CallbackResult::new(schema("1", "sha256:output"), b"result-secret".to_vec()),
        )
        .map_err(|_| CallbackFailure::new())
}

fn event_kinds(dispatcher: &RecordingDispatcher) -> Vec<DispatchEventKind> {
    dispatcher.events().into_iter().map(|event| event.kind()).collect()
}

#[test]
fn valid_call_invokes_one_callback_and_accepts_one_result() {
    let mut dispatcher = dispatcher();
    let mut calls = 0;
    let outcome = dispatch(
        &mut dispatcher,
        invocation("call-1", expected_registration(), expected_binding(), BindingStatus::Current),
        &mut calls,
        false,
        completing,
    )
    .expect("valid call settles");

    assert_eq!(calls, 1);
    assert_eq!(outcome.result().payload_for_delivery(), b"result-secret");
    assert!(!outcome.permits_automatic_replay());
    assert_eq!(
        event_kinds(&dispatcher),
        vec![
            DispatchEventKind::Validated,
            DispatchEventKind::CallbackInvoked,
            DispatchEventKind::ResultAccepted,
        ]
    );
    let metrics = dispatcher.metrics();
    assert_eq!(metrics.callbacks, 1);
    assert_eq!(metrics.results, 1);
    assert_eq!(metrics.cancellations, 0);
    assert_eq!(metrics.mutation_replays, 0);
}

#[test]
fn registration_schema_kind_and_binding_refusals_precede_callback() {
    let cases = [
        (
            invocation(
                "unknown-capability",
                RegisteredCapability::new(
                    "registration-7",
                    "desktop/missing",
                    schema("1", "sha256:input"),
                    schema("1", "sha256:output"),
                    ExecutionKind::NativeClient,
                    DispatchEffect::Mutating,
                    bounds(64),
                )
                .expect("candidate registration"),
                expected_binding(),
                BindingStatus::Current,
            ),
            DispatchErrorKind::UnknownCapability,
        ),
        (
            invocation(
                "stale-registration",
                registration(
                    "registration-6",
                    schema("1", "sha256:input"),
                    schema("1", "sha256:output"),
                    ExecutionKind::NativeClient,
                ),
                expected_binding(),
                BindingStatus::Current,
            ),
            DispatchErrorKind::StaleRegistration,
        ),
        (
            invocation(
                "input-version",
                registration(
                    "registration-7",
                    schema("2", "sha256:input"),
                    schema("1", "sha256:output"),
                    ExecutionKind::NativeClient,
                ),
                expected_binding(),
                BindingStatus::Current,
            ),
            DispatchErrorKind::UnsupportedSchemaVersion,
        ),
        (
            invocation(
                "output-digest",
                registration(
                    "registration-7",
                    schema("1", "sha256:input"),
                    schema("1", "sha256:foreign"),
                    ExecutionKind::NativeClient,
                ),
                expected_binding(),
                BindingStatus::Current,
            ),
            DispatchErrorKind::UnknownSchema,
        ),
        (
            invocation(
                "wrong-kind",
                registration(
                    "registration-7",
                    schema("1", "sha256:input"),
                    schema("1", "sha256:output"),
                    ExecutionKind::Mcp,
                ),
                expected_binding(),
                BindingStatus::Current,
            ),
            DispatchErrorKind::ExecutionKindMismatch,
        ),
        (
            invocation(
                "wrong-effect",
                RegisteredCapability::new(
                    "registration-7",
                    "desktop/read_context",
                    schema("1", "sha256:input"),
                    schema("1", "sha256:output"),
                    ExecutionKind::NativeClient,
                    DispatchEffect::ReadOnly,
                    bounds(64),
                )
                .expect("candidate registration"),
                expected_binding(),
                BindingStatus::Current,
            ),
            DispatchErrorKind::EffectMismatch,
        ),
        (
            invocation(
                "foreign-binding",
                expected_registration(),
                binding("foreign-process", 3, 5, 7),
                BindingStatus::Current,
            ),
            DispatchErrorKind::ForeignBinding,
        ),
        (
            invocation(
                "stale-binding",
                expected_registration(),
                binding("process-secret", 3, 5, 6),
                BindingStatus::Current,
            ),
            DispatchErrorKind::StaleBinding,
        ),
        (
            invocation(
                "revoked-binding",
                expected_registration(),
                expected_binding(),
                BindingStatus::Revoked,
            ),
            DispatchErrorKind::RevokedBinding,
        ),
    ];

    for (candidate, expected) in cases {
        let mut dispatcher = dispatcher();
        let mut calls = 0;
        let error = dispatch(&mut dispatcher, candidate, &mut calls, false, completing)
            .err().expect("candidate must fail");
        assert_eq!(error.kind(), expected);
        assert_eq!(calls, 0);
        assert_eq!(dispatcher.metrics().callbacks, 0);
    }
}

#[test]
fn bounds_are_positive_and_enforced_before_callback() {
    let invalid = DispatchBounds::new(1, 64, 64, 16, 2, Duration::zero())
        .err().expect("zero duration must fail");
    assert_eq!(invalid.kind(), DispatchErrorKind::InvalidBounds);

    let mut dispatcher = dispatcher();
    let mut calls = 0;
    let registration = RegisteredCapability::new(
        "registration-7",
        "desktop/read_context",
        schema("1", "sha256:input"),
        schema("1", "sha256:output"),
        ExecutionKind::NativeClient,
        DispatchEffect::Mutating,
        DispatchBounds::new(2, 64, 64, 16, 2, Duration::from_secs(5)).expect("positive bounds"),
    )
    .expect("candidate registration");
    let error = dispatch(
        &mut dispatcher,
        invocation("wide-bounds", registration, expected_binding(), BindingStatus::Current),
        &mut calls,
        false,
        completing,
    )
    .err().expect("widened bounds must fail");

    assert_eq!(error.kind(), DispatchErrorKind::LimitExceeded);
    assert_eq!(calls, 0);
}

#[test]
fn deadline_is_live_and_bounded_before_callback() {
    let mut dispatcher = dispatcher();
    let mut calls = 0;
    for (call_id, deadline, expected) in [
        ("expired-call", DispatchDeadline::expired(), DispatchErrorKind::DeadlineExceeded),
        (
            "zero-call",
            DispatchDeadline::active(Duration::zero()),
            DispatchErrorKind::DeadlineExceeded,
        ),
        (
            "overlong-call",
            DispatchDeadline::active(Duration::from_secs(6)),
            DispatchErrorKind::LimitExceeded,
        ),
    ] {
        let candidate = DispatchInvocation::new(
            call_id,
            expected_registration(),
            expected_binding(),
            BindingStatus::Current,
            deadline,
            b"argument-secret".to_vec(),
        )
        .expect("fixture invocation");
        let error = dispatch(&mut dispatcher, candidate, &mut calls, false, completing)
            .err().expect("deadline must be rejected before callback");
        assert_eq!(error.kind(), expected);
    }
    assert_eq!(calls, 0);
}

#[test]
fn duplicate_call_and_result_are_terminal_and_never_reinvoke() {
    let mut dispatcher = dispatcher();
    let mut calls = 0;
    let mut retained: Option<ResultRecorder<FlagSource>> = None;
    let candidate = invocation(
        "duplicate",
        expected_registration(),
        expected_binding(),
        BindingStatus::Current,
    );

    dispatch(&mut dispatcher, candidate.clone(), &mut calls, false, |call, recorder, d| {
        retained = Some(recorder.clone());
        completing(call, recorder, d)
    })
    .expect("first call succeeds");
    let duplicate = dispatch(&mut dispatcher, candidate, &mut calls, false, completing)
        .err().expect("duplicate call must fail");
    let duplicate_result = retained
        .as_ref()
        .expect("callback retained recorder")
        .record(
            &mut dispatcher,
            CallbackResult::new(schema("1", "sha256:output"), b"second".to_vec()),
        )
        .err().expect("second result must fail");

    assert_eq!(duplicate.kind(), DispatchErrorKind::DuplicateCall);
    assert_eq!(duplicate_result.kind(), DispatchErrorKind::DuplicateResult);
    assert_eq!(calls, 1);
    assert_eq!(dispatcher.metrics().results, 1);
    assert_eq!(dispatcher.metrics().mutation_replays, 0);
}

/// A callback still in flight when the host cancels its call: it keeps its
/// recorder, sees the cancellation once, and offers a result that must lose.
struct CancellationCallback {
    calls: Cell<usize>,
    observations: Cell<usize>,
    host: Arc<FlagSource>,
    retained: RefCell<Option<ResultRecorder<FlagSource>>>,
    rejection: RefCell<Option<DispatchError>>,
}

impl RecordingCallback<FlagSource> for CancellationCallback {
    fn invoke(
        &self,
        _call: AdmittedCall,
        cancellation: &Cancellation<FlagSource>,
        result: &ResultRecorder<FlagSource>,
        dispatcher: &mut RecordingDispatcher,
    ) -> Result<(), CallbackFailure> {
        self.calls.set(self.calls.get() + 1);
        *self.retained.borrow_mut() = Some(result.clone());
        // The host cancels the call while this callback is in flight.
        self.host.0.store(true, std::sync::atomic::Ordering::SeqCst);
        if cancellation.is_cancelled() {
            self.observations.set(self.observations.get() + 1);
            let rejection = result.record(
                dispatcher,
                CallbackResult::new(schema("1", "sha256:output"), b"must-not-land".to_vec()),
            );
            *self.rejection.borrow_mut() = rejection.err();
        }
        Ok(())
    }
}

#[test]
fn cancellation_reaches_in_flight_callback_once_and_blocks_late_result() {
    let mut dispatcher = dispatcher();
    let host = Arc::new(FlagSource(AtomicBool::new(false)));
    let callback = CancellationCallback {
        calls: Cell::new(0),
        observations: Cell::new(0),
        host: Arc::clone(&host),
        retained: RefCell::new(None),
        rejection: RefCell::new(None),
    };
    let cancellation = Cancellation::new(host);
    let candidate = invocation(
        "cancelled",
        expected_registration(),
        expected_binding(),
        BindingStatus::Current,
    );

    let error = dispatcher
        .dispatch(&callback, &candidate, &cancellation)
        .err()
        .expect("cancelled dispatch must settle as cancelled");
    assert_eq!(callback.calls.get(), 1);
    assert_eq!(
        callback.rejection.borrow().expect("the callback's result was refused").kind(),
        DispatchErrorKind::Cancelled
    );

    let late = callback
        .retained
        .borrow()
        .as_ref()
        .expect("callback retained recorder")
        .record(
            &mut dispatcher,
            CallbackResult::new(schema("1", "sha256:output"), b"late".to_vec()),
        )
        .err()
        .expect("late result must fail");

    assert_eq!(error.kind(), DispatchErrorKind::Cancelled);
    assert_eq!(late.kind(), DispatchErrorKind::PostTerminalResult);
    assert_eq!(callback.observations.get(), 1);
    assert_eq!(dispatcher.metrics().cancellations, 1);
    assert_eq!(dispatcher.metrics().results, 0);
    assert_eq!(dispatcher.metrics().mutation_replays, 0);
}

#[test]
fn diagnostics_and_debug_output_are_redacted() {
    let mut dispatcher = dispatcher();
    let mut calls = 0;
    let candidate = invocation(
        "call-secret",
        expected_registration(),
        expected_binding(),
        BindingStatus::Revoked,
    );
    let error = dispatch(&mut dispatcher, candidate, &mut calls, false, completing)
        .err().expect("revoked binding must fail");
    let diagnostic = error.diagnostic();
    let evidence = format!(
        "{} {} {:?} {:?}",
        diagnostic.code(),
        diagnostic.message(),
        dispatcher.events(),
        error
    );
    for protected in [
        "argument-secret",
        "process-secret",
        "task-secret",
        "session-secret",
        "attempt-secret",
        "call-secret",
    ] {
        assert!(!evidence.contains(protected));
    }
    assert_eq!(diagnostic.code(), "longhorn.agent_tool_dispatch.revoked_binding");
    assert_eq!(diagnostic.message(), "The trusted binding is revoked");
}

#[test]
fn callback_that_records_nothing_settles_as_missing_result() {
    let mut dispatcher = dispatcher();
    let mut calls = 0;
    let candidate = invocation("silent", expected_registration(), expected_binding(), BindingStatus::Current);
    let error = dispatch(&mut dispatcher, candidate, &mut calls, false, |_call, _recorder, _d| Ok(()))
        .err()
        .expect("a callback without a result must fail");
    assert_eq!(error.kind(), DispatchErrorKind::MissingResult);
    assert_eq!(calls, 1);
    assert_eq!(dispatcher.metrics().rejections, 1);
    assert_eq!(dispatcher.metrics().results, 0);
}

#[test]
fn failing_callback_settles_as_callback_failed() {
    let mut dispatcher = dispatcher();
    let mut calls = 0;
    let candidate = invocation("failing", expected_registration(), expected_binding(), BindingStatus::Current);
    let error = dispatch(&mut dispatcher, candidate, &mut calls, false, |_call, _recorder, _d| {
        Err(CallbackFailure::new())
    })
    .err()
    .expect("a failing callback must fail the call");
    assert_eq!(error.kind(), DispatchErrorKind::CallbackFailed);
    assert_eq!(calls, 1);
}

#[test]
fn call_cancelled_while_callback_runs_settles_as_cancelled() {
    let mut dispatcher = dispatcher();
    let mut calls = 0;
    let candidate = invocation("interrupted", expected_registration(), expected_binding(), BindingStatus::Current);
    let error = dispatch(&mut dispatcher, candidate, &mut calls, true, |_call, _recorder, _d| Ok(()))
        .err()
        .expect("a cancelled call must fail");
    assert_eq!(error.kind(), DispatchErrorKind::Cancelled);
    assert_eq!(dispatcher.metrics().cancellations, 1);
    assert_eq!(dispatcher.metrics().rejections, 0);
}

#[test]
fn result_recorded_before_cancellation_is_kept() {
    let mut dispatcher = dispatcher();
    let mut calls = 0;
    let candidate = invocation("finished", expected_registration(), expected_binding(), BindingStatus::Current);
    let outcome = dispatch(&mut dispatcher, candidate, &mut calls, true, completing)
        .expect("a settled result survives a later cancellation");
    assert_eq!(outcome.call_id(), "finished");
    assert_eq!(dispatcher.metrics().results, 1);
    assert_eq!(dispatcher.metrics().cancellations, 0);
}

#[test]
fn errors_are_equal_exactly_when_their_kinds_are() {
    assert_eq!(
        DispatchError::new(DispatchErrorKind::Cancelled),
        DispatchError::new(DispatchErrorKind::Cancelled)
    );
    assert_ne!(
        DispatchError::new(DispatchErrorKind::Cancelled),
        DispatchError::new(DispatchErrorKind::MissingResult)
    );
}

#[test]
fn success_carries_the_invocations_effect_and_keeps_earlier_events() {
    let mut dispatcher = dispatcher();
    let mut calls = 0;
    dispatch(
        &mut dispatcher,
        invocation("first", expected_registration(), expected_binding(), BindingStatus::Revoked),
        &mut calls,
        false,
        completing,
    )
    .err()
    .expect("revoked binding is refused");
    let before = dispatcher.events();
    let outcome = dispatch(
        &mut dispatcher,
        invocation("second", expected_registration(), expected_binding(), BindingStatus::Current),
        &mut calls,
        false,
        completing,
    )
    .expect("valid call settles");
    assert_eq!(outcome.effect(), DispatchEffect::Mutating);
    let after = dispatcher.events();
    assert_eq!(&after[..before.len()], &before[..]);
    let sequences: Vec<u64> = after.iter().map(|event| event.sequence()).collect();
    assert_eq!(sequences, vec![1, 2, 3, 4]);
}
