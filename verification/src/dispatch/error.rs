//! Redacted failure vocabulary for the dispatch boundary.

use vstd::prelude::*;

verus! {

/// Machine-distinct class of a dispatch refusal or terminal failure.
#[derive(Clone, Copy, Debug, PartialEq, Eq, Structural, Hash, PartialOrd, Ord)]
pub enum DispatchErrorKind {
    /// A required identity is blank, oversized, or contains control bytes.
    InvalidIdentity,
    /// At least one declared numeric or duration bound is not positive.
    InvalidBounds,
    /// The call names a registration revision other than the configured one.
    StaleRegistration,
    /// The call names another registered capability.
    UnknownCapability,
    /// A schema version differs from the configured exact version.
    UnsupportedSchemaVersion,
    /// A schema digest differs from the configured exact digest.
    UnknownSchema,
    /// The execution kind differs from the configured kind.
    ExecutionKindMismatch,
    /// The effect posture differs from the configured posture.
    EffectMismatch,
    /// Stable admission identity belongs to another consumer attempt.
    ForeignBinding,
    /// A generation belongs to an earlier or otherwise different attempt.
    StaleBinding,
    /// The consumer reports that the fixed admission binding is revoked.
    RevokedBinding,
    /// A payload or concurrent-call bound was exceeded.
    LimitExceeded,
    /// The trusted host reports an elapsed or zero remaining deadline.
    DeadlineExceeded,
    /// The call identity was already admitted.
    DuplicateCall,
    /// A second result was offered for the same completed call.
    DuplicateResult,
    /// A result arrived after cancellation or another terminal failure.
    PostTerminalResult,
    /// The in-flight call was cancelled.
    Cancelled,
    /// The callback returned without recording one result.
    MissingResult,
    /// The consumer callback reported a typed execution failure.
    CallbackFailed,
}

impl DispatchErrorKind {
    /// The stable diagnostic code of this class.
    pub open spec fn code_spec(self) -> Seq<char> {
        match self {
            DispatchErrorKind::InvalidIdentity => "longhorn.agent_tool_dispatch.invalid_identity"@,
            DispatchErrorKind::InvalidBounds => "longhorn.agent_tool_dispatch.invalid_bounds"@,
            DispatchErrorKind::StaleRegistration =>
                "longhorn.agent_tool_dispatch.stale_registration"@,
            DispatchErrorKind::UnknownCapability =>
                "longhorn.agent_tool_dispatch.unknown_capability"@,
            DispatchErrorKind::UnsupportedSchemaVersion =>
                "longhorn.agent_tool_dispatch.unsupported_schema_version"@,
            DispatchErrorKind::UnknownSchema => "longhorn.agent_tool_dispatch.unknown_schema"@,
            DispatchErrorKind::ExecutionKindMismatch =>
                "longhorn.agent_tool_dispatch.execution_kind_mismatch"@,
            DispatchErrorKind::EffectMismatch => "longhorn.agent_tool_dispatch.effect_mismatch"@,
            DispatchErrorKind::ForeignBinding => "longhorn.agent_tool_dispatch.foreign_binding"@,
            DispatchErrorKind::StaleBinding => "longhorn.agent_tool_dispatch.stale_binding"@,
            DispatchErrorKind::RevokedBinding => "longhorn.agent_tool_dispatch.revoked_binding"@,
            DispatchErrorKind::LimitExceeded => "longhorn.agent_tool_dispatch.limit_exceeded"@,
            DispatchErrorKind::DeadlineExceeded =>
                "longhorn.agent_tool_dispatch.deadline_exceeded"@,
            DispatchErrorKind::DuplicateCall => "longhorn.agent_tool_dispatch.duplicate_call"@,
            DispatchErrorKind::DuplicateResult => "longhorn.agent_tool_dispatch.duplicate_result"@,
            DispatchErrorKind::PostTerminalResult =>
                "longhorn.agent_tool_dispatch.post_terminal_result"@,
            DispatchErrorKind::Cancelled => "longhorn.agent_tool_dispatch.cancelled"@,
            DispatchErrorKind::MissingResult => "longhorn.agent_tool_dispatch.missing_result"@,
            DispatchErrorKind::CallbackFailed => "longhorn.agent_tool_dispatch.callback_failed"@,
        }
    }

    /// The fixed redacted message of this class.
    pub open spec fn message_spec(self) -> Seq<char> {
        match self {
            DispatchErrorKind::InvalidIdentity => "A required dispatch identity was rejected"@,
            DispatchErrorKind::InvalidBounds => "Dispatch bounds must be positive"@,
            DispatchErrorKind::StaleRegistration => "The registration revision is stale"@,
            DispatchErrorKind::UnknownCapability => "The registered capability is unknown"@,
            DispatchErrorKind::UnsupportedSchemaVersion => "The schema version is unsupported"@,
            DispatchErrorKind::UnknownSchema => "The schema digest is unknown"@,
            DispatchErrorKind::ExecutionKindMismatch => "The execution kind does not match"@,
            DispatchErrorKind::EffectMismatch => "The effect posture does not match"@,
            DispatchErrorKind::ForeignBinding => "The trusted binding belongs to another attempt"@,
            DispatchErrorKind::StaleBinding => "The trusted binding generation is stale"@,
            DispatchErrorKind::RevokedBinding => "The trusted binding is revoked"@,
            DispatchErrorKind::LimitExceeded => "A dispatch bound was exceeded"@,
            DispatchErrorKind::DeadlineExceeded => "The dispatch deadline elapsed"@,
            DispatchErrorKind::DuplicateCall => "The call was already admitted"@,
            DispatchErrorKind::DuplicateResult => "A result was already accepted"@,
            DispatchErrorKind::PostTerminalResult => "A result arrived after terminal settlement"@,
            DispatchErrorKind::Cancelled => "The in-flight call was cancelled"@,
            DispatchErrorKind::MissingResult => "The callback returned without one result"@,
            DispatchErrorKind::CallbackFailed => "The consumer callback failed"@,
        }
    }

    /// Returns the stable diagnostic code for this class.
    pub fn code(self) -> (r: &'static str)
        ensures
            r@ == self.code_spec(),
    {
        match self {
            DispatchErrorKind::InvalidIdentity => "longhorn.agent_tool_dispatch.invalid_identity",
            DispatchErrorKind::InvalidBounds => "longhorn.agent_tool_dispatch.invalid_bounds",
            DispatchErrorKind::StaleRegistration =>
                "longhorn.agent_tool_dispatch.stale_registration",
            DispatchErrorKind::UnknownCapability =>
                "longhorn.agent_tool_dispatch.unknown_capability",
            DispatchErrorKind::UnsupportedSchemaVersion =>
                "longhorn.agent_tool_dispatch.unsupported_schema_version",
            DispatchErrorKind::UnknownSchema => "longhorn.agent_tool_dispatch.unknown_schema",
            DispatchErrorKind::ExecutionKindMismatch =>
                "longhorn.agent_tool_dispatch.execution_kind_mismatch",
            DispatchErrorKind::EffectMismatch => "longhorn.agent_tool_dispatch.effect_mismatch",
            DispatchErrorKind::ForeignBinding => "longhorn.agent_tool_dispatch.foreign_binding",
            DispatchErrorKind::StaleBinding => "longhorn.agent_tool_dispatch.stale_binding",
            DispatchErrorKind::RevokedBinding => "longhorn.agent_tool_dispatch.revoked_binding",
            DispatchErrorKind::LimitExceeded => "longhorn.agent_tool_dispatch.limit_exceeded",
            DispatchErrorKind::DeadlineExceeded =>
                "longhorn.agent_tool_dispatch.deadline_exceeded",
            DispatchErrorKind::DuplicateCall => "longhorn.agent_tool_dispatch.duplicate_call",
            DispatchErrorKind::DuplicateResult => "longhorn.agent_tool_dispatch.duplicate_result",
            DispatchErrorKind::PostTerminalResult =>
                "longhorn.agent_tool_dispatch.post_terminal_result",
            DispatchErrorKind::Cancelled => "longhorn.agent_tool_dispatch.cancelled",
            DispatchErrorKind::MissingResult => "longhorn.agent_tool_dispatch.missing_result",
            DispatchErrorKind::CallbackFailed => "longhorn.agent_tool_dispatch.callback_failed",
        }
    }

    /// Returns the fixed redacted message for this class.
    pub fn message(self) -> (r: &'static str)
        ensures
            r@ == self.message_spec(),
    {
        match self {
            DispatchErrorKind::InvalidIdentity => "A required dispatch identity was rejected",
            DispatchErrorKind::InvalidBounds => "Dispatch bounds must be positive",
            DispatchErrorKind::StaleRegistration => "The registration revision is stale",
            DispatchErrorKind::UnknownCapability => "The registered capability is unknown",
            DispatchErrorKind::UnsupportedSchemaVersion => "The schema version is unsupported",
            DispatchErrorKind::UnknownSchema => "The schema digest is unknown",
            DispatchErrorKind::ExecutionKindMismatch => "The execution kind does not match",
            DispatchErrorKind::EffectMismatch => "The effect posture does not match",
            DispatchErrorKind::ForeignBinding => "The trusted binding belongs to another attempt",
            DispatchErrorKind::StaleBinding => "The trusted binding generation is stale",
            DispatchErrorKind::RevokedBinding => "The trusted binding is revoked",
            DispatchErrorKind::LimitExceeded => "A dispatch bound was exceeded",
            DispatchErrorKind::DeadlineExceeded => "The dispatch deadline elapsed",
            DispatchErrorKind::DuplicateCall => "The call was already admitted",
            DispatchErrorKind::DuplicateResult => "A result was already accepted",
            DispatchErrorKind::PostTerminalResult => "A result arrived after terminal settlement",
            DispatchErrorKind::Cancelled => "The in-flight call was cancelled",
            DispatchErrorKind::MissingResult => "The callback returned without one result",
            DispatchErrorKind::CallbackFailed => "The consumer callback failed",
        }
    }
}

/// Redacted diagnostic suitable for logs and fixture receipts.
#[derive(Clone, Copy, Debug)]
pub struct SafeDiagnostic {
    code: &'static str,
    message: &'static str,
}

impl SafeDiagnostic {
    /// The diagnostic describes exactly the class `kind`.
    pub closed spec fn describes(self, kind: DispatchErrorKind) -> bool {
        self.code@ == kind.code_spec() && self.message@ == kind.message_spec()
    }

    pub(crate) fn for_kind(kind: DispatchErrorKind) -> (r: Self)
        ensures
            r.describes(kind),
            r.code_view() == kind.code_spec(),
            r.message_view() == kind.message_spec(),
    {
        SafeDiagnostic { code: kind.code(), message: kind.message() }
    }

    /// The code text.
    pub closed spec fn code_view(self) -> Seq<char> {
        self.code@
    }

    /// The message text.
    pub closed spec fn message_view(self) -> Seq<char> {
        self.message@
    }

    /// Returns the stable machine code.
    pub fn code(self) -> (r: &'static str)
        ensures
            r@ == self.code_view(),
    {
        self.code
    }

    /// Returns the fixed redacted message.
    pub fn message(self) -> (r: &'static str)
        ensures
            r@ == self.message_view(),
    {
        self.message
    }
}

/// Typed dispatch refusal or terminal failure.
#[derive(Clone, Copy, Debug, PartialEq, Eq, Structural, Hash)]
pub struct DispatchError {
    kind: DispatchErrorKind,
}

impl DispatchError {
    /// The failure class.
    pub closed spec fn kind_spec(self) -> DispatchErrorKind {
        self.kind
    }

    /// Creates one redacted error of an exact class.
    pub fn new(kind: DispatchErrorKind) -> (r: Self)
        ensures
            r.kind_spec() == kind,
    {
        DispatchError { kind }
    }

    /// Returns the exact failure class.
    pub fn kind(self) -> (r: DispatchErrorKind)
        ensures
            r == self.kind_spec(),
    {
        self.kind
    }

    /// Returns the safe diagnostic for this failure.
    pub fn diagnostic(self) -> (r: SafeDiagnostic)
        ensures
            r.code_view() == self.kind_spec().code_spec(),
            r.message_view() == self.kind_spec().message_spec(),
    {
        SafeDiagnostic::for_kind(self.kind)
    }

    /// The redacted message text (what `Display` prints in a host).
    pub fn message(self) -> (r: &'static str)
        ensures
            r@ == self.kind_spec().message_spec(),
    {
        self.kind.message()
    }
}

/// An error carries its class and nothing else: two errors are equal
/// exactly when their classes are, so errors made from equal classes are
/// equal.
pub proof fn law_errors_are_their_kind(a: DispatchError, b: DispatchError)
    ensures
        (a == b) == (a.kind_spec() == b.kind_spec()),
{
}

/// The namespace every diagnostic code starts with.
pub open spec fn code_namespace() -> Seq<char> {
    "longhorn.agent_tool_dispatch."@
}

/// Diagnostic codes are stable and distinct: every code starts with the
/// dispatch namespace, and two classes share a code only when they are the
/// same class.
pub proof fn law_codes_are_distinct(k1: DispatchErrorKind, k2: DispatchErrorKind)
    ensures
        code_namespace().is_prefix_of(k1.code_spec()),
        k1.code_spec() == k2.code_spec() ==> k1 == k2,
{
    reveal_strlit("longhorn.agent_tool_dispatch.invalid_identity");
    reveal_strlit("longhorn.agent_tool_dispatch.invalid_bounds");
    reveal_strlit("longhorn.agent_tool_dispatch.stale_registration");
    reveal_strlit("longhorn.agent_tool_dispatch.unknown_capability");
    reveal_strlit("longhorn.agent_tool_dispatch.unsupported_schema_version");
    reveal_strlit("longhorn.agent_tool_dispatch.unknown_schema");
    reveal_strlit("longhorn.agent_tool_dispatch.execution_kind_mismatch");
    reveal_strlit("longhorn.agent_tool_dispatch.effect_mismatch");
    reveal_strlit("longhorn.agent_tool_dispatch.foreign_binding");
    reveal_strlit("longhorn.agent_tool_dispatch.stale_binding");
    reveal_strlit("longhorn.agent_tool_dispatch.revoked_binding");
    reveal_strlit("longhorn.agent_tool_dispatch.limit_exceeded");
    reveal_strlit("longhorn.agent_tool_dispatch.deadline_exceeded");
    reveal_strlit("longhorn.agent_tool_dispatch.duplicate_call");
    reveal_strlit("longhorn.agent_tool_dispatch.duplicate_result");
    reveal_strlit("longhorn.agent_tool_dispatch.post_terminal_result");
    reveal_strlit("longhorn.agent_tool_dispatch.cancelled");
    reveal_strlit("longhorn.agent_tool_dispatch.missing_result");
    reveal_strlit("longhorn.agent_tool_dispatch.callback_failed");
    reveal_strlit("longhorn.agent_tool_dispatch.");
    let c1 = k1.code_spec();
    let c2 = k2.code_spec();
    assert(c1.subrange(0, 29) =~= code_namespace());
    if c1 == c2 {
        assert(c1.len() == c2.len());
        assert(c1[29] == c2[29]);
    }
}

/// Typed, detail-free failure returned by a consumer callback.
#[derive(Clone, Copy, Debug, Default, PartialEq, Eq, Structural, Hash)]
pub struct CallbackFailure;

impl CallbackFailure {
    /// Creates one redacted callback failure.
    pub fn new() -> (r: Self)
        ensures
            r == CallbackFailure,
    {
        CallbackFailure
    }
}

} // verus!
