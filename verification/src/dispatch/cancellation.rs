//! Call-bound cancellation observation.

use vstd::prelude::*;
use std::sync::Arc;

verus! {

/// Host-owned source of one call's cancellation state.
pub trait CancellationSource {
    /// Reports whether the exact bound call is cancelled.
    fn is_cancelled(&self) -> bool;
}

/// Read-only cancellation observation passed to one admitted callback.
pub struct Cancellation<S> {
    source: Arc<S>,
}

impl<S: CancellationSource> Clone for Cancellation<S> {
    /// Another observation of the same host source.
    fn clone(&self) -> (r: Self)
        ensures
            r.source_spec() == self.source_spec(),
    {
        Cancellation { source: Arc::clone(&self.source) }
    }
}

impl<S: CancellationSource> Cancellation<S> {
    /// Binds a host-owned cancellation source to one callback invocation.
    pub fn new(source: Arc<S>) -> (r: Self)
        ensures
            r.source_spec() == source,
    {
        Cancellation { source }
    }

    /// The bound source.
    pub closed spec fn source_spec(&self) -> Arc<S> {
        self.source
    }

    /// Reports whether the bound call is cancelled: the answer the bound
    /// host source gives at this moment.
    pub fn is_cancelled(&self) -> (r: bool)
        ensures
            call_ensures(S::is_cancelled, (&*self.source_spec(),), r),
    {
        self.source.is_cancelled()
    }
}

} // verus!
