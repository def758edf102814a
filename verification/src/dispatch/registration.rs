//! Registration identities and positive dispatch limits.

use vstd::prelude::*;
use crate::dispatch::duration::Duration;
use crate::dispatch::error::{DispatchError, DispatchErrorKind};
use crate::dispatch::types::{validate_identity, valid_identity};
use crate::text::copy_string;

verus! {

/// Exact schema version and digest supplied by the registration owner.
#[derive(Clone, Debug)]
pub struct SchemaIdentity {
    version: String,
    digest: String,
}

impl SchemaIdentity {
    /// The exact schema version text.
    pub closed spec fn version_spec(&self) -> Seq<char> {
        self.version@
    }

    /// The exact schema digest text.
    pub closed spec fn digest_spec(&self) -> Seq<char> {
        self.digest@
    }

    /// Two identities name the same schema.
    pub open spec fn same_as(&self, other: &SchemaIdentity) -> bool {
        self.version_spec() == other.version_spec() && self.digest_spec() == other.digest_spec()
    }

    /// Creates one bounded schema identity without carrying a schema body.
    pub fn new(version: &str, digest: &str) -> (r: Result<Self, DispatchError>)
        ensures
            r is Ok <==> valid_identity(version@) && valid_identity(digest@),
            r matches Err(e) ==> e.kind_spec() == DispatchErrorKind::InvalidIdentity,
            r matches Ok(s) ==> s.version_spec() == version@ && s.digest_spec() == digest@,
    {
        validate_identity(version)?;
        validate_identity(digest)?;
        Ok(SchemaIdentity { version: version.to_owned(), digest: digest.to_owned() })
    }

    /// Returns the exact schema version.
    pub fn version(&self) -> (r: &str)
        ensures
            r@ == self.version_spec(),
    {
        self.version.as_str()
    }

    /// Returns the exact schema digest.
    pub fn digest(&self) -> (r: &str)
        ensures
            r@ == self.digest_spec(),
    {
        self.digest.as_str()
    }

    /// A field-for-field copy.
    pub fn duplicate(&self) -> (r: Self)
        ensures
            r == *self,
    {
        SchemaIdentity { version: copy_string(&self.version), digest: copy_string(&self.digest) }
    }
}

/// Executor class bound to one registered capability.
#[derive(Clone, Copy, Debug, PartialEq, Eq, Structural, Hash)]
pub enum ExecutionKind {
    /// Provider-native callback dispatched to the linked host.
    NativeClient,
    /// Host-mediated MCP callback.
    Mcp,
    /// Exact application callback without MCP identity.
    App,
}

/// Consumer-declared effect posture used to prohibit replay.
#[derive(Clone, Copy, Debug, PartialEq, Eq, Structural, Hash)]
pub enum DispatchEffect {
    /// The callback has no external effect.
    ReadOnly,
    /// The callback may mutate consumer state.
    Mutating,
    /// The consumer cannot prove the callback's effect posture.
    Indeterminate,
}

/// Positive limits fixed before callback dispatch.
#[derive(Clone, Copy, Debug, PartialEq, Eq, Structural, Hash)]
pub struct DispatchBounds {
    max_outstanding_calls: usize,
    max_argument_bytes: usize,
    max_result_bytes: usize,
    max_progress_item_bytes: usize,
    max_queued_progress_items: usize,
    max_call_duration: Duration,
}

impl DispatchBounds {
    /// Maximum concurrent callbacks.
    pub closed spec fn outstanding_spec(self) -> usize {
        self.max_outstanding_calls
    }

    /// Maximum argument bytes.
    pub closed spec fn argument_bytes_spec(self) -> usize {
        self.max_argument_bytes
    }

    /// Maximum result bytes.
    pub closed spec fn result_bytes_spec(self) -> usize {
        self.max_result_bytes
    }

    /// Maximum progress-item bytes.
    pub closed spec fn progress_item_bytes_spec(self) -> usize {
        self.max_progress_item_bytes
    }

    /// Maximum queued progress items.
    pub closed spec fn queued_progress_items_spec(self) -> usize {
        self.max_queued_progress_items
    }

    /// Maximum call duration.
    pub closed spec fn call_duration_spec(self) -> Duration {
        self.max_call_duration
    }

    /// Every bound is positive.
    pub open spec fn positive(self) -> bool {
        &&& self.outstanding_spec() > 0
        &&& self.argument_bytes_spec() > 0
        &&& self.result_bytes_spec() > 0
        &&& self.progress_item_bytes_spec() > 0
        &&& self.queued_progress_items_spec() > 0
        &&& self.call_duration_spec().nanos_spec() > 0
    }

    /// Every bound of `self` is no wider than the matching bound of `ceiling`.
    pub open spec fn within(self, ceiling: Self) -> bool {
        &&& self.outstanding_spec() <= ceiling.outstanding_spec()
        &&& self.argument_bytes_spec() <= ceiling.argument_bytes_spec()
        &&& self.result_bytes_spec() <= ceiling.result_bytes_spec()
        &&& self.progress_item_bytes_spec() <= ceiling.progress_item_bytes_spec()
        &&& self.queued_progress_items_spec() <= ceiling.queued_progress_items_spec()
        &&& self.call_duration_spec().nanos_spec() <= ceiling.call_duration_spec().nanos_spec()
    }

    /// Creates one positive bound set.
    pub fn new(
        max_outstanding_calls: usize,
        max_argument_bytes: usize,
        max_result_bytes: usize,
        max_progress_item_bytes: usize,
        max_queued_progress_items: usize,
        max_call_duration: Duration,
    ) -> (r: Result<Self, DispatchError>)
        ensures
            r is Ok <==> (max_outstanding_calls > 0 && max_argument_bytes > 0 && max_result_bytes
                > 0 && max_progress_item_bytes > 0 && max_queued_progress_items > 0
                && max_call_duration.nanos_spec() > 0),
            r matches Err(e) ==> e.kind_spec() == DispatchErrorKind::InvalidBounds,
            r matches Ok(b) ==> {
                &&& b.outstanding_spec() == max_outstanding_calls
                &&& b.argument_bytes_spec() == max_argument_bytes
                &&& b.result_bytes_spec() == max_result_bytes
                &&& b.progress_item_bytes_spec() == max_progress_item_bytes
                &&& b.queued_progress_items_spec() == max_queued_progress_items
                &&& b.call_duration_spec() == max_call_duration
            },
    {
        let bounds = DispatchBounds {
            max_outstanding_calls,
            max_argument_bytes,
            max_result_bytes,
            max_progress_item_bytes,
            max_queued_progress_items,
            max_call_duration,
        };
        bounds.validate()?;
        Ok(bounds)
    }

    pub(crate) fn validate(self) -> (r: Result<(), DispatchError>)
        ensures
            r is Ok <==> self.positive(),
            r matches Err(e) ==> e.kind_spec() == DispatchErrorKind::InvalidBounds,
    {
        if self.max_outstanding_calls == 0 || self.max_argument_bytes == 0 || self.max_result_bytes
            == 0 || self.max_progress_item_bytes == 0 || self.max_queued_progress_items == 0
            || self.max_call_duration.is_zero() {
            Err(DispatchError::new(DispatchErrorKind::InvalidBounds))
        } else {
            Ok(())
        }
    }

    pub(crate) fn fits_within(self, ceiling: Self) -> (r: bool)
        ensures
            r == self.within(ceiling),
    {
        self.max_outstanding_calls <= ceiling.max_outstanding_calls && self.max_argument_bytes
            <= ceiling.max_argument_bytes && self.max_result_bytes <= ceiling.max_result_bytes
            && self.max_progress_item_bytes <= ceiling.max_progress_item_bytes
            && self.max_queued_progress_items <= ceiling.max_queued_progress_items
            && self.max_call_duration.at_most(ceiling.max_call_duration)
    }

    /// Returns the maximum concurrent callbacks.
    pub fn max_outstanding_calls(self) -> (r: usize)
        ensures
            r == self.outstanding_spec(),
    {
        self.max_outstanding_calls
    }

    /// Returns the maximum argument bytes.
    pub fn max_argument_bytes(self) -> (r: usize)
        ensures
            r == self.argument_bytes_spec(),
    {
        self.max_argument_bytes
    }

    /// Returns the maximum result bytes.
    pub fn max_result_bytes(self) -> (r: usize)
        ensures
            r == self.result_bytes_spec(),
    {
        self.max_result_bytes
    }

    /// Returns the maximum progress-item bytes.
    pub fn max_progress_item_bytes(self) -> (r: usize)
        ensures
            r == self.progress_item_bytes_spec(),
    {
        self.max_progress_item_bytes
    }

    /// Returns the maximum queued progress items.
    pub fn max_queued_progress_items(self) -> (r: usize)
        ensures
            r == self.queued_progress_items_spec(),
    {
        self.max_queued_progress_items
    }

    /// Returns the maximum call duration.
    pub fn max_call_duration(self) -> (r: Duration)
        ensures
            r == self.call_duration_spec(),
    {
        self.max_call_duration
    }
}

/// Exact capability declaration normalized by the composing host.
#[derive(Clone, Debug)]
pub struct RegisteredCapability {
    registration_revision: String,
    capability: String,
    input_schema: SchemaIdentity,
    output_schema: SchemaIdentity,
    execution_kind: ExecutionKind,
    effect: DispatchEffect,
    bounds: DispatchBounds,
}

impl RegisteredCapability {
    /// The registration revision text.
    pub closed spec fn revision_spec(&self) -> Seq<char> {
        self.registration_revision@
    }

    /// The capability identity text.
    pub closed spec fn capability_spec(&self) -> Seq<char> {
        self.capability@
    }

    /// The input schema identity.
    pub closed spec fn input_schema_spec(&self) -> SchemaIdentity {
        self.input_schema
    }

    /// The output schema identity.
    pub closed spec fn output_schema_spec(&self) -> SchemaIdentity {
        self.output_schema
    }

    /// The bound execution kind.
    pub closed spec fn execution_kind_spec(&self) -> ExecutionKind {
        self.execution_kind
    }

    /// The declared effect posture.
    pub closed spec fn effect_spec(&self) -> DispatchEffect {
        self.effect
    }

    /// The declared bounds.
    pub closed spec fn bounds_spec(&self) -> DispatchBounds {
        self.bounds
    }

    /// Creates one exact registration without carrying schema bodies.
    pub fn new(
        registration_revision: &str,
        capability: &str,
        input_schema: SchemaIdentity,
        output_schema: SchemaIdentity,
        execution_kind: ExecutionKind,
        effect: DispatchEffect,
        bounds: DispatchBounds,
    ) -> (r: Result<Self, DispatchError>)
        ensures
            r is Ok <==> valid_identity(registration_revision@) && valid_identity(capability@)
                && bounds.positive(),
            r matches Err(e) ==> e.kind_spec() == (if valid_identity(registration_revision@)
                && valid_identity(capability@) {
                DispatchErrorKind::InvalidBounds
            } else {
                DispatchErrorKind::InvalidIdentity
            }),
            r matches Ok(c) ==> {
                &&& c.revision_spec() == registration_revision@
                &&& c.capability_spec() == capability@
                &&& c.input_schema_spec() == input_schema
                &&& c.output_schema_spec() == output_schema
                &&& c.execution_kind_spec() == execution_kind
                &&& c.effect_spec() == effect
                &&& c.bounds_spec() == bounds
            },
    {
        validate_identity(registration_revision)?;
        validate_identity(capability)?;
        bounds.validate()?;
        Ok(
            RegisteredCapability {
                registration_revision: registration_revision.to_owned(),
                capability: capability.to_owned(),
                input_schema,
                output_schema,
                execution_kind,
                effect,
                bounds,
            },
        )
    }

    /// Returns the exact registration revision.
    pub fn registration_revision(&self) -> (r: &str)
        ensures
            r@ == self.revision_spec(),
    {
        self.registration_revision.as_str()
    }

    /// Returns the selected capability identity.
    pub fn capability(&self) -> (r: &str)
        ensures
            r@ == self.capability_spec(),
    {
        self.capability.as_str()
    }

    /// Returns the exact input schema identity.
    pub fn input_schema(&self) -> (r: &SchemaIdentity)
        ensures
            *r == self.input_schema_spec(),
    {
        &self.input_schema
    }

    /// Returns the exact output schema identity.
    pub fn output_schema(&self) -> (r: &SchemaIdentity)
        ensures
            *r == self.output_schema_spec(),
    {
        &self.output_schema
    }

    /// Returns the bound execution kind.
    pub fn execution_kind(&self) -> (r: ExecutionKind)
        ensures
            r == self.execution_kind_spec(),
    {
        self.execution_kind
    }

    /// Returns the declared effect posture.
    pub fn effect(&self) -> (r: DispatchEffect)
        ensures
            r == self.effect_spec(),
    {
        self.effect
    }

    /// Returns the declared positive bounds.
    pub fn bounds(&self) -> (r: DispatchBounds)
        ensures
            r == self.bounds_spec(),
    {
        self.bounds
    }

    /// A field-for-field copy.
    pub fn duplicate(&self) -> (r: Self)
        ensures
            r == *self,
    {
        RegisteredCapability {
            registration_revision: copy_string(&self.registration_revision),
            capability: copy_string(&self.capability),
            input_schema: self.input_schema.duplicate(),
            output_schema: self.output_schema.duplicate(),
            execution_kind: self.execution_kind,
            effect: self.effect,
            bounds: self.bounds,
        }
    }
}

} // verus!
