//! Configuration and self-description of one control-surface server.
//! Binding the loopback listener and serving the MCP routes happen around
//! the library.

use vstd::prelude::*;
use crate::control::tools::ToolError;
use crate::text::owned;

verus! {

/// Configuration for one control-surface server instance.
pub struct ControlServerConfig {
    /// Canonical application id written to the discovery file.
    pub app_id: String,
    /// Resolved discovery directory (see `resolve_discovery_dir`).
    pub discovery_dir: String,
    /// Loopback port to bind; 0 asks the operating system for one.
    pub port: u16,
}

/// The server's instructions when page evaluation is built in.
pub open spec fn instructions_with_evaluate() -> Seq<char> {
    "Longhorn agent app control (contract 022): snapshot the semantic tree, act by element ref with untrusted synthetic events, evaluate JS as an escape hatch (full code execution in the app), wait on DOM-relative predicates, capture fresh window images, invoke registered commands for native-chrome behavior, and answer pending file/folder selection with answer_selection/reject_selection. Subscribe to longhorn://agent-control/{console,error,navigation,selection} over subscriptions/listen for page events and pending pickers. Stateless: every call is self-contained."@
}

/// The server's instructions when page evaluation is left out.
pub open spec fn instructions_without_evaluate() -> Seq<char> {
    "Longhorn agent app control (contract 022): snapshot the semantic tree, act by element ref with untrusted synthetic events, evaluate answers typed Unsupported unless agent-control-evaluate is enabled, wait on DOM-relative predicates, capture fresh window images, invoke registered commands for native-chrome behavior, and answer pending file/folder selection with answer_selection/reject_selection. Subscribe to longhorn://agent-control/{console,error,navigation,selection} over subscriptions/listen for page events and pending pickers. Stateless: every call is self-contained."@
}

/// The instructions the server announces; the evaluate wording also marks
/// builds that execute page code.
pub fn instructions(evaluate_enabled: bool) -> (r: &'static str)
    ensures
        r@ == if evaluate_enabled {
            instructions_with_evaluate()
        } else {
            instructions_without_evaluate()
        },
{
    if evaluate_enabled {
        "Longhorn agent app control (contract 022): snapshot the semantic tree, act by element ref with untrusted synthetic events, evaluate JS as an escape hatch (full code execution in the app), wait on DOM-relative predicates, capture fresh window images, invoke registered commands for native-chrome behavior, and answer pending file/folder selection with answer_selection/reject_selection. Subscribe to longhorn://agent-control/{console,error,navigation,selection} over subscriptions/listen for page events and pending pickers. Stateless: every call is self-contained."
    } else {
        "Longhorn agent app control (contract 022): snapshot the semantic tree, act by element ref with untrusted synthetic events, evaluate answers typed Unsupported unless agent-control-evaluate is enabled, wait on DOM-relative predicates, capture fresh window images, invoke registered commands for native-chrome behavior, and answer pending file/folder selection with answer_selection/reject_selection. Subscribe to longhorn://agent-control/{console,error,navigation,selection} over subscriptions/listen for page events and pending pickers. Stateless: every call is self-contained."
    }
}

/// The answer to `evaluate` in builds that leave page evaluation out.
pub fn evaluate_omitted() -> (r: ToolError)
    ensures
        r matches ToolError::Unsupported { message } && message@
            == "evaluate is omitted from this build; enable the agent-control-evaluate feature"@,
{
    ToolError::Unsupported {
        message: owned("evaluate is omitted from this build; enable the agent-control-evaluate feature"),
    }
}

} // verus!
