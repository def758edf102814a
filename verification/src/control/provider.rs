//! The seam for native (non-webview) surfaces. Non-webview content is
//! visible in screenshots only unless a native surface registers its own
//! snapshot and action handling here; a host composing no provider is a
//! complete composition.

use vstd::prelude::*;
use crate::control::tools::{
    ClickRequest, DragRequest, PressRequest, ScrollRequest, SemanticNode, ToolError, TypeRequest,
};

verus! {

/// One ref-addressed action routed to a native surface provider, in the
/// shared vocabulary, so a host routes one shape to webview and provider
/// edges alike.
pub enum NativeSurfaceAction {
    /// Synthetic click on a resolved ref.
    Click(ClickRequest),
    /// Synthetic text entry into a resolved ref.
    Type(TypeRequest),
    /// Synthetic key press.
    Press(PressRequest),
    /// Synthetic scroll.
    Scroll(ScrollRequest),
    /// Synthetic in-page drag; untrusted events only, never OS-level.
    Drag(DragRequest),
}

/// The seam a native surface implements to contribute snapshot and action
/// handling: one snapshot contribution and one action dispatch, both
/// failing through the shared [`ToolError`] vocabulary. Refs a provider
/// stamps are its own to resolve. Nothing is promised of an implementation.
pub trait NativeSurfaceProvider {
    /// Contributes this surface's semantic tree.
    fn snapshot(&self) -> Result<SemanticNode, ToolError>;

    /// Performs one ref-addressed action against this surface.
    fn perform(&self, action: NativeSurfaceAction) -> Result<(), ToolError>;
}

} // verus!
