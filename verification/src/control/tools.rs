//! Tool vocabulary: opaque identifiers, requests, results, and errors for
//! the agent control surface.
//!
//! Element refs are opaque strings stamped into the live DOM at snapshot
//! time; the core holds no ref table, so a ref either resolves or fails
//! explicitly. `wait_for` predicates are DOM-relative only: no variant can
//! express a time-only or animation-frame wait.

use vstd::prelude::*;
use crate::control::codec::{base64_standard_decoded, decode_base64_standard};
use crate::control::json::Json;
use crate::text::{
    byte_len, copy_string, debug_str, decimal, decimal_string, owned, push_str,
    rust_debug_str, utf8_len, utf8_len_exceeds,
};

verus! {

/// Wire names of every tool the control server exposes, sorted and unique.
pub const CONTROL_TOOL_NAMES: [&'static str; 15] = [
    "answer_selection",
    "click",
    "command",
    "drag",
    "evaluate",
    "list_windows",
    "press",
    "reject_selection",
    "resize_window",
    "screenshot",
    "scroll",
    "set_file_input",
    "snapshot",
    "type",
    "wait_for",
];

/// Decoded payload cap for one `set_file_input` call: 8 MiB.
pub const MAX_FILE_INPUT_BYTES: usize = 8388608;

/// Largest accepted opaque identifier, in UTF-8 bytes.
pub const MAX_OPAQUE_ID_BYTES: usize = 256;

/// Why an opaque identifier was refused.
#[derive(Clone, Copy, Debug, PartialEq, Eq, Structural)]
pub enum OpaqueIdError {
    /// The identifier was empty.
    Empty,
    /// The identifier was longer than the maximum.
    TooLong {
        /// Largest accepted length, in bytes.
        maximum: usize,
        /// Length actually supplied, in bytes.
        actual: usize,
    },
}

/// The refusal an opaque identifier earns, if any.
pub open spec fn opaque_id_refusal(s: Seq<char>) -> Option<OpaqueIdError> {
    if s.len() == 0 {
        Some(OpaqueIdError::Empty)
    } else if utf8_len(s) > MAX_OPAQUE_ID_BYTES {
        Some(OpaqueIdError::TooLong { maximum: MAX_OPAQUE_ID_BYTES, actual: utf8_len(s) as usize })
    } else {
        None
    }
}

/// Checks one opaque identifier: non-empty and at most
/// [`MAX_OPAQUE_ID_BYTES`] UTF-8 bytes.
pub fn check_opaque_id(value: &str) -> (r: Result<(), OpaqueIdError>)
    ensures
        match opaque_id_refusal(value@) {
            Some(e) => r == Err::<(), OpaqueIdError>(e),
            None => r is Ok,
        },
{
    if value.is_empty() {
        return Err(OpaqueIdError::Empty);
    }
    if utf8_len_exceeds(value, MAX_OPAQUE_ID_BYTES) {
        let actual = byte_len(value);
        return Err(OpaqueIdError::TooLong { maximum: MAX_OPAQUE_ID_BYTES, actual });
    }
    Ok(())
}

/// Opaque element reference stamped by the edge that produced a snapshot.
///
/// Resolution is the stamping edge's job against the live DOM; the core
/// treats the value as an opaque, bounded string and never stores it.
#[derive(Debug, Eq, Hash, Ord, PartialEq, PartialOrd)]
pub struct ElementRef(String);

impl View for ElementRef {
    type V = Seq<char>;

    closed spec fn view(&self) -> Seq<char> {
        self.0@
    }
}

impl ElementRef {
    #[verifier::type_invariant]
    closed spec fn bounded(self) -> bool {
        opaque_id_refusal(self.0@) is None
    }

    /// Validates and constructs the reference.
    pub fn new(value: &str) -> (r: Result<Self, OpaqueIdError>)
        ensures
            match opaque_id_refusal(value@) {
                Some(e) => r == Err::<Self, OpaqueIdError>(e),
                None => r is Ok && r->Ok_0@ == value@,
            },
    {
        match check_opaque_id(value) {
            Ok(()) => Ok(ElementRef(owned(value))),
            Err(e) => Err(e),
        }
    }

    /// Returns the serialized reference.
    pub fn as_str(&self) -> (r: &str)
        ensures
            r@ == self@,
            opaque_id_refusal(r@) is None,
    {
        proof {
            use_type_invariant(self);
        }
        self.0.as_str()
    }

    /// A copy with the same text.
    pub fn duplicate(&self) -> (r: Self)
        ensures
            r@ == self@,
    {
        proof {
            use_type_invariant(self);
        }
        ElementRef(copy_string(&self.0))
    }
}

impl ElementRef {
    /// The reference's text, as `Display` writes it.
    pub fn to_string(&self) -> (r: String)
        ensures
            r@ == self@,
    {
        owned(self.as_str())
    }
}

impl std::str::FromStr for ElementRef {
    type Err = OpaqueIdError;

    /// Reads the reference back from its text (see `new`).
    fn from_str(value: &str) -> Result<Self, Self::Err> {
        Self::new(value)
    }
}

/// Opaque child-webview label used as a semantic target.
///
/// Absent, a request addresses the window's UI webview; present, one hosted
/// webview of that window.
#[derive(Debug, Eq, Hash, Ord, PartialEq, PartialOrd)]
pub struct WebviewLabel(String);

impl View for WebviewLabel {
    type V = Seq<char>;

    closed spec fn view(&self) -> Seq<char> {
        self.0@
    }
}

impl WebviewLabel {
    #[verifier::type_invariant]
    closed spec fn bounded(self) -> bool {
        opaque_id_refusal(self.0@) is None
    }

    /// Validates and constructs the label.
    pub fn new(value: &str) -> (r: Result<Self, OpaqueIdError>)
        ensures
            match opaque_id_refusal(value@) {
                Some(e) => r == Err::<Self, OpaqueIdError>(e),
                None => r is Ok && r->Ok_0@ == value@,
            },
    {
        match check_opaque_id(value) {
            Ok(()) => Ok(WebviewLabel(owned(value))),
            Err(e) => Err(e),
        }
    }

    /// Returns the serialized label.
    pub fn as_str(&self) -> (r: &str)
        ensures
            r@ == self@,
            opaque_id_refusal(r@) is None,
    {
        proof {
            use_type_invariant(self);
        }
        self.0.as_str()
    }

    /// A copy with the same text.
    pub fn duplicate(&self) -> (r: Self)
        ensures
            r@ == self@,
    {
        proof {
            use_type_invariant(self);
        }
        WebviewLabel(copy_string(&self.0))
    }
}

impl WebviewLabel {
    /// The label's text, as `Display` writes it.
    pub fn to_string(&self) -> (r: String)
        ensures
            r@ == self@,
    {
        owned(self.as_str())
    }
}

impl std::str::FromStr for WebviewLabel {
    type Err = OpaqueIdError;

    /// Reads the label back from its text (see `new`).
    fn from_str(value: &str) -> Result<Self, Self::Err> {
        Self::new(value)
    }
}

/// Opaque pending-selection id assigned when an agent-originated picker
/// call is published.
#[derive(Debug, Eq, Hash, Ord, PartialEq, PartialOrd)]
pub struct SelectionId(String);

impl View for SelectionId {
    type V = Seq<char>;

    closed spec fn view(&self) -> Seq<char> {
        self.0@
    }
}

impl SelectionId {
    #[verifier::type_invariant]
    closed spec fn bounded(self) -> bool {
        opaque_id_refusal(self.0@) is None
    }

    /// Validates and constructs the id.
    pub fn new(value: &str) -> (r: Result<Self, OpaqueIdError>)
        ensures
            match opaque_id_refusal(value@) {
                Some(e) => r == Err::<Self, OpaqueIdError>(e),
                None => r is Ok && r->Ok_0@ == value@,
            },
    {
        match check_opaque_id(value) {
            Ok(()) => Ok(SelectionId(owned(value))),
            Err(e) => Err(e),
        }
    }

    /// Returns the serialized id.
    pub fn as_str(&self) -> (r: &str)
        ensures
            r@ == self@,
            opaque_id_refusal(r@) is None,
    {
        proof {
            use_type_invariant(self);
        }
        self.0.as_str()
    }

    /// A copy with the same text.
    pub fn duplicate(&self) -> (r: Self)
        ensures
            r@ == self@,
    {
        proof {
            use_type_invariant(self);
        }
        SelectionId(copy_string(&self.0))
    }
}

impl SelectionId {
    /// The id's text, as `Display` writes it.
    pub fn to_string(&self) -> (r: String)
        ensures
            r@ == self@,
    {
        owned(self.as_str())
    }
}

impl std::str::FromStr for SelectionId {
    type Err = OpaqueIdError;

    /// Reads the id back from its text (see `new`).
    fn from_str(value: &str) -> (r: Result<Self, Self::Err>)
        ensures
            match opaque_id_refusal(value@) {
                Some(e) => r == Err::<Self, OpaqueIdError>(e),
                None => r is Ok && r->Ok_0@ == value@,
            },
    {
        Self::new(value)
    }
}

/// Opaque window identity used for per-window targeting.
#[derive(Debug, Eq, Hash, Ord, PartialEq, PartialOrd)]
pub struct WindowId(String);

impl View for WindowId {
    type V = Seq<char>;

    closed spec fn view(&self) -> Seq<char> {
        self.0@
    }
}

impl WindowId {
    #[verifier::type_invariant]
    closed spec fn bounded(self) -> bool {
        opaque_id_refusal(self.0@) is None
    }

    /// Validates and constructs the id.
    pub fn new(value: &str) -> (r: Result<Self, OpaqueIdError>)
        ensures
            match opaque_id_refusal(value@) {
                Some(e) => r == Err::<Self, OpaqueIdError>(e),
                None => r is Ok && r->Ok_0@ == value@,
            },
    {
        match check_opaque_id(value) {
            Ok(()) => Ok(WindowId(owned(value))),
            Err(e) => Err(e),
        }
    }

    /// Returns the serialized id.
    pub fn as_str(&self) -> (r: &str)
        ensures
            r@ == self@,
            opaque_id_refusal(r@) is None,
    {
        proof {
            use_type_invariant(self);
        }
        self.0.as_str()
    }

    /// A copy with the same text.
    pub fn duplicate(&self) -> (r: Self)
        ensures
            r@ == self@,
    {
        proof {
            use_type_invariant(self);
        }
        WindowId(copy_string(&self.0))
    }
}

/// Opaque identity of a registered command.
#[derive(Debug, Eq, Hash, Ord, PartialEq, PartialOrd)]
pub struct CommandId(String);

impl View for CommandId {
    type V = Seq<char>;

    closed spec fn view(&self) -> Seq<char> {
        self.0@
    }
}

impl CommandId {
    #[verifier::type_invariant]
    closed spec fn bounded(self) -> bool {
        opaque_id_refusal(self.0@) is None
    }

    /// Validates and constructs the id.
    pub fn new(value: &str) -> (r: Result<Self, OpaqueIdError>)
        ensures
            match opaque_id_refusal(value@) {
                Some(e) => r == Err::<Self, OpaqueIdError>(e),
                None => r is Ok && r->Ok_0@ == value@,
            },
    {
        match check_opaque_id(value) {
            Ok(()) => Ok(CommandId(owned(value))),
            Err(e) => Err(e),
        }
    }

    /// Returns the serialized id.
    pub fn as_str(&self) -> (r: &str)
        ensures
            r@ == self@,
            opaque_id_refusal(r@) is None,
    {
        proof {
            use_type_invariant(self);
        }
        self.0.as_str()
    }

    /// A copy with the same text.
    pub fn duplicate(&self) -> (r: Self)
        ensures
            r@ == self@,
    {
        proof {
            use_type_invariant(self);
        }
        CommandId(copy_string(&self.0))
    }
}

/// One node of the semantic element tree: role, name, value, state.
pub struct SemanticNode {
    /// Reference stamped into the live DOM for this element.
    pub element_ref: ElementRef,
    /// Accessibility-style role, e.g. `button`, `textbox`.
    pub role: String,
    /// Accessible name, when the element has one.
    pub name: Option<String>,
    /// Current value, when the role carries one.
    pub value: Option<String>,
    /// State tokens, e.g. `disabled`, `checked`, `expanded`.
    pub states: Vec<String>,
    /// Child elements.
    pub children: Vec<SemanticNode>,
}

/// Page-level state accompanying a snapshot or wait result.
pub struct PageState {
    /// Current document URL.
    pub url: String,
    /// Current document title.
    pub title: String,
}

/// `snapshot` request.
pub struct SnapshotRequest {
    /// Window to snapshot; `None` targets the frontmost window.
    pub window: Option<WindowId>,
    /// Child webview to snapshot; `None` targets the window's UI webview.
    pub webview: Option<WebviewLabel>,
}

/// `click` request: synthetic in-page click on a resolved ref.
pub struct ClickRequest {
    /// Window containing the element; `None` targets the frontmost window.
    pub window: Option<WindowId>,
    /// Child webview containing the element; `None` targets the UI webview.
    pub webview: Option<WebviewLabel>,
    /// Element to click.
    pub element: ElementRef,
}

/// `type` request: synthetic in-page text entry into a resolved ref.
pub struct TypeRequest {
    /// Window containing the element; `None` targets the frontmost window.
    pub window: Option<WindowId>,
    /// Child webview containing the element; `None` targets the UI webview.
    pub webview: Option<WebviewLabel>,
    /// Element to focus and type into.
    pub element: ElementRef,
    /// Text to enter.
    pub text: String,
}

/// Keyboard modifier held during a `press`, in their wire order.
#[derive(Clone, Copy, Debug, PartialEq, Eq, Structural)]
pub enum KeyModifier {
    /// Alt / Option.
    Alt,
    /// Control.
    Control,
    /// Meta / Command / Windows key.
    Meta,
    /// Shift.
    Shift,
}

/// `press` request: synthetic in-page key press.
pub struct PressRequest {
    /// Window containing the element; `None` targets the frontmost window.
    pub window: Option<WindowId>,
    /// Child webview containing the element; `None` targets the UI webview.
    pub webview: Option<WebviewLabel>,
    /// Element to dispatch against; `None` targets the focused element.
    pub element: Option<ElementRef>,
    /// Key name, e.g. `Enter`, `Escape`, `a`.
    pub key: String,
    /// Modifiers held during the press: a set, kept in ascending order
    /// with no repeats.
    pub modifiers: Vec<KeyModifier>,
}

/// `scroll` request: synthetic in-page scroll.
pub struct ScrollRequest {
    /// Window containing the element; `None` targets the frontmost window.
    pub window: Option<WindowId>,
    /// Child webview to scroll; `None` targets the UI webview.
    pub webview: Option<WebviewLabel>,
    /// Element to scroll; `None` scrolls the document.
    pub element: Option<ElementRef>,
    /// Horizontal delta in logical pixels.
    pub delta_x: i32,
    /// Vertical delta in logical pixels.
    pub delta_y: i32,
}

/// `drag` request: synthetic in-page drag between two resolved refs. There
/// is deliberately no OS-level mode, and no field can select one.
pub struct DragRequest {
    /// Window containing the elements; `None` targets the frontmost window.
    pub window: Option<WindowId>,
    /// Child webview containing the elements; `None` targets the UI webview.
    pub webview: Option<WebviewLabel>,
    /// Element the drag starts on.
    pub source: ElementRef,
    /// Element the drag ends on.
    pub target: ElementRef,
}

/// One agent-supplied file for `set_file_input`. The agent is the byte
/// source: there is no path field.
pub struct FileInputFile {
    /// File name presented to the page.
    pub name: String,
    /// Optional media type presented to the page.
    pub media_type: Option<String>,
    /// Standard base64 of the file bytes.
    pub content_base64: String,
}

/// `set_file_input` request: assign constructed files onto an HTML file
/// input.
pub struct SetFileInputRequest {
    /// Window containing the element; `None` targets the frontmost window.
    pub window: Option<WindowId>,
    /// Child webview containing the element; `None` targets the UI webview.
    pub webview: Option<WebviewLabel>,
    /// File input to assign.
    pub element: ElementRef,
    /// Files to present: at least one, decoded total at most
    /// [`MAX_FILE_INPUT_BYTES`].
    pub files: Vec<FileInputFile>,
}

/// Decoded size of a standard base64 text, if it decodes.
pub open spec fn decoded_size(text: Seq<char>) -> Option<nat> {
    match base64_standard_decoded(text) {
        Some(bytes) => Some(bytes.len()),
        None => None,
    }
}

/// `usize` addition that stops at the largest value.
pub open spec fn saturating_sum(a: nat, b: nat) -> nat {
    if a + b > usize::MAX {
        usize::MAX as nat
    } else {
        a + b
    }
}

/// The verdict on files `i..` given their names and decoded sizes, after a
/// running total of `total` bytes.
pub open spec fn file_scan(files: Seq<(Seq<char>, Option<nat>)>, i: int, total: nat) -> Result<
    (),
    Seq<char>,
>
    decreases files.len() - i,
{
    if i < 0 || i >= files.len() {
        Ok(())
    } else if files[i].0.len() == 0 {
        Err("set_file_input file name must be non-empty"@)
    } else {
        match files[i].1 {
            None => Err(
                "set_file_input file "@ + rust_debug_str(files[i].0) + " is not valid base64"@,
            ),
            Some(n) => {
                let t = saturating_sum(total, n);
                if t > MAX_FILE_INPUT_BYTES {
                    Err("set_file_input decoded total exceeds 8 MiB"@)
                } else {
                    file_scan(files, i + 1, t)
                }
            },
        }
    }
}

/// The verdict on a `set_file_input` file list, given each file's name and
/// decoded size: at least one file, every name non-empty, every content
/// valid base64, and the decoded total within the cap; the first failure in
/// file order decides.
pub open spec fn file_input_verdict(files: Seq<(Seq<char>, Option<nat>)>) -> Result<(), Seq<char>> {
    if files.len() == 0 {
        Err("set_file_input requires at least one file"@)
    } else {
        file_scan(files, 0, 0)
    }
}

/// Each file's name and decoded size.
pub open spec fn file_facts(files: Seq<FileInputFile>) -> Seq<(Seq<char>, Option<nat>)> {
    files.map_values(|f: FileInputFile| (f.name@, decoded_size(f.content_base64@)))
}

/// Whether `r` reports `verdict`.
pub open spec fn reports(r: Result<(), String>, verdict: Result<(), Seq<char>>) -> bool {
    match verdict {
        Ok(()) => r is Ok,
        Err(m) => r is Err && r->Err_0@ == m,
    }
}

/// Each file's name beside the size recorded for it.
pub open spec fn sized_facts(files: Seq<FileInputFile>, sizes: Seq<Option<usize>>) -> Seq<
    (Seq<char>, Option<nat>),
> {
    Seq::new(
        files.len(),
        |i: int|
            (
                files[i].name@,
                match sizes[i] {
                    Some(n) => Some(n as nat),
                    None => None::<nat>,
                },
            ),
    )
}

/// Checks a `set_file_input` file list against the decoded size of each
/// file's content (`None` where it is not valid base64).
pub fn check_file_inputs(files: &Vec<FileInputFile>, sizes: &Vec<Option<usize>>) -> (r: Result<
    (),
    String,
>)
    requires
        files@.len() == sizes@.len(),
    ensures
        reports(r, file_input_verdict(sized_facts(files@, sizes@))),
{
    let ghost facts = sized_facts(files@, sizes@);
    if files.len() == 0 {
        return Err(owned("set_file_input requires at least one file"));
    }
    let mut total: usize = 0;
    let mut i: usize = 0;
    while i < files.len()
        invariant
            i <= files@.len(),
            files@.len() == sizes@.len(),
            facts == sized_facts(files@, sizes@),
            facts.len() == files@.len(),
            forall|k: int|
                0 <= k < facts.len() ==> #[trigger] facts[k] == (
                    files@[k].name@,
                    match sizes@[k] {
                        Some(n) => Some(n as nat),
                        None => None::<nat>,
                    },
                ),
            total <= MAX_FILE_INPUT_BYTES,
            file_scan(facts, 0, 0) == file_scan(facts, i as int, total as nat),
        decreases files@.len() - i,
    {
        let file = &files[i];
        assert(facts[i as int] == (file.name@, match sizes@[i as int] {
            Some(n) => Some(n as nat),
            None => None::<nat>,
        }));
        if file.name.as_str().is_empty() {
            assert(facts[i as int].0.len() == 0);
            assert(file_scan(facts, i as int, total as nat) == Err::<(), Seq<char>>(
                "set_file_input file name must be non-empty"@,
            ));
            return Err(owned("set_file_input file name must be non-empty"));
        }
        match sizes[i] {
            None => {
                let mut message = owned("set_file_input file ");
                let quoted = debug_str(file.name.as_str());
                push_str(&mut message, quoted.as_str());
                push_str(&mut message, " is not valid base64");
                assert(facts[i as int].1 is None);
                assert(file_scan(facts, i as int, total as nat) == Err::<(), Seq<char>>(
                    message@,
                ));
                return Err(message);
            },
            Some(size) => {
                total = total.saturating_add(size);
                if total > MAX_FILE_INPUT_BYTES {
                    return Err(owned("set_file_input decoded total exceeds 8 MiB"));
                }
            },
        }
        i += 1;
    }
    Ok(())
}

impl SetFileInputRequest {
    /// Checks names, base64, a non-empty list, and the decoded 8 MiB cap.
    pub fn validate(&self) -> (r: Result<(), String>)
        ensures
            reports(r, file_input_verdict(file_facts(self.files@))),
    {
        let mut sizes: Vec<Option<usize>> = Vec::new();
        let mut i: usize = 0;
        while i < self.files.len()
            invariant
                i <= self.files@.len(),
                sizes@.len() == i,
                forall|k: int|
                    0 <= k < i ==> (match #[trigger] sizes@[k] {
                        Some(n) => Some(n as nat),
                        None => None::<nat>,
                    }) == decoded_size(self.files@[k].content_base64@),
            decreases self.files@.len() - i,
        {
            let decoded = decode_base64_standard(self.files[i].content_base64.as_str());
            match decoded {
                Some(bytes) => sizes.push(Some(bytes.len())),
                None => sizes.push(None),
            }
            i += 1;
        }
        let r = check_file_inputs(&self.files, &sizes);
        proof {
            assert(sized_facts(self.files@, sizes@) =~= file_facts(self.files@));
        }
        r
    }
}

/// `snapshot` result: the semantic tree with refs stamped into the live DOM.
pub struct SnapshotResult {
    /// Window the snapshot was taken from.
    pub window: WindowId,
    /// Webview the snapshot was taken from; `None` for the UI webview.
    pub webview: Option<WebviewLabel>,
    /// Page state at snapshot time.
    pub page: PageState,
    /// Root of the semantic element tree.
    pub root: SemanticNode,
}

/// `evaluate` result.
pub struct EvaluateResult {
    /// JSON value the expression produced.
    pub value: Json,
}

/// `screenshot` result.
pub struct ScreenshotResult {
    /// Window that was captured.
    pub window: WindowId,
    /// PNG image bytes; the wire edge carries them as base64 image content.
    pub png: Vec<u8>,
}

/// `command` request: invoke a registered command by id, the route to
/// behavior behind native menus and dialogs.
pub struct CommandRequest {
    /// Command to invoke.
    pub command: CommandId,
    /// Command argument payload, when the command takes one.
    pub argument: Option<Json>,
}

/// `command` result.
pub struct CommandResult {
    /// Command output payload, when the command produces one.
    pub output: Option<Json>,
}

/// Receipt for the action family: the event was dispatched; nothing about
/// its effect is implied.
pub struct ActionReceipt {}

/// `evaluate` request: run JavaScript in the page.
pub struct EvaluateRequest {
    /// Window to evaluate in; `None` targets the frontmost window.
    pub window: Option<WindowId>,
    /// Child webview to evaluate in; `None` targets the UI webview.
    pub webview: Option<WebviewLabel>,
    /// JavaScript source evaluated in the page's main world.
    pub js: String,
}

/// `wait_for` predicate over the semantic tree or page state. Every variant
/// is DOM-relative; none waits on time alone.
pub enum WaitPredicate {
    /// Holds when the ref resolves against the live DOM.
    RefResolve {
        /// Element expected to resolve.
        element: ElementRef,
    },
    /// Holds when the ref no longer resolves against the live DOM.
    RefAbsent {
        /// Element expected to be gone.
        element: ElementRef,
    },
    /// Holds when the page URL contains the needle.
    PageUrlContains {
        /// Substring expected in the URL.
        needle: String,
    },
    /// Holds when the page title contains the needle.
    PageTitleContains {
        /// Substring expected in the title.
        needle: String,
    },
}

/// `wait_for` request: poll a predicate until it holds or the bound ends.
pub struct WaitForRequest {
    /// Window to wait in; `None` targets the frontmost window.
    pub window: Option<WindowId>,
    /// Child webview to wait in; `None` targets the UI webview.
    pub webview: Option<WebviewLabel>,
    /// DOM-relative predicate to await.
    pub predicate: WaitPredicate,
    /// Hard bound in milliseconds.
    pub timeout_ms: u32,
}

/// `wait_for` result: the predicate held within the bound.
pub struct WaitForResult {}

/// `screenshot` request.
pub struct ScreenshotRequest {
    /// Window to capture; `None` targets the frontmost window.
    pub window: Option<WindowId>,
}

/// `list_windows` request.
pub struct ListWindowsRequest {}

/// `answer_selection` request.
pub struct AnswerSelectionRequest {
    /// Pending request to settle.
    pub id: SelectionId,
    /// Chosen paths. Cardinality and kind are checked before delivery.
    pub paths: Vec<String>,
}

/// `answer_selection` result: the waiter received the paths.
pub struct AnswerSelectionResult {}

/// `reject_selection` request.
pub struct RejectSelectionRequest {
    /// Pending request to decline.
    pub id: SelectionId,
    /// Agent-supplied reason; not shown to the caller.
    pub reason: String,
}

/// `reject_selection` result: the caller's picker resolves as `null`.
pub struct RejectSelectionResult {}

/// Typed failure for every tool in the surface.
#[derive(Debug, PartialEq, Eq)]
pub enum ToolError {
    /// The ref did not resolve against the live DOM: unknown or stale.
    UnresolvedRef {
        /// Ref that failed to resolve.
        element: ElementRef,
    },
    /// The targeted window does not exist.
    UnknownWindow {
        /// Window that was not found.
        window: WindowId,
    },
    /// The targeted webview label matches no hosted webview of the window.
    UnknownWebview {
        /// Webview label that was not found.
        webview: WebviewLabel,
    },
    /// The `wait_for` bound elapsed before the predicate held.
    WaitTimeout {
        /// Bound that elapsed, in milliseconds.
        timeout_ms: u32,
    },
    /// `evaluate` source raised or failed to serialize.
    EvaluationFailed {
        /// Host-provided failure detail.
        message: String,
    },
    /// A command rejected or failed the invocation.
    CommandFailed {
        /// Command that failed.
        command: CommandId,
        /// Host-provided failure detail.
        message: String,
    },
    /// The request reached a surface that cannot serve it.
    Unsupported {
        /// What cannot be served, and why.
        message: String,
    },
    /// No pending selection with this id exists on this instance.
    UnknownSelection {
        /// Id that was not found.
        id: SelectionId,
    },
    /// The request expired before this answer.
    ExpiredSelection {
        /// Id that had already expired.
        id: SelectionId,
    },
    /// The request was already answered, rejected, cancelled, or shut down.
    SettledSelection {
        /// Id that had already settled.
        id: SelectionId,
    },
    /// Paths, cardinality, or kind are incompatible with the pending request.
    MalformedSelection {
        /// What was wrong with the answer.
        message: String,
    },
}

/// How `Debug` renders a one-field tuple struct named `name` around `text`.
pub open spec fn debug_tuple(name: Seq<char>, text: Seq<char>) -> Seq<char> {
    name + "("@ + rust_debug_str(text) + ")"@
}

/// The human-readable wording of a tool error.
pub open spec fn tool_error_text(e: ToolError) -> Seq<char> {
    match e {
        ToolError::UnresolvedRef { element } => "element ref "@ + debug_tuple(
            "ElementRef"@,
            element@,
        ) + " does not resolve against the live DOM"@,
        ToolError::UnknownWindow { window } => "window "@ + debug_tuple("WindowId"@, window@)
            + " does not exist"@,
        ToolError::UnknownWebview { webview } => "webview "@ + debug_tuple(
            "WebviewLabel"@,
            webview@,
        ) + " is not hosted by the window"@,
        ToolError::WaitTimeout { timeout_ms } => "predicate did not hold within "@ + decimal(
            timeout_ms as nat,
        ) + " ms"@,
        ToolError::EvaluationFailed { message } => "evaluate failed: "@ + message@,
        ToolError::CommandFailed { command, message } => "command "@ + debug_tuple(
            "CommandId"@,
            command@,
        ) + " failed: "@ + message@,
        ToolError::Unsupported { message } => "unsupported: "@ + message@,
        ToolError::UnknownSelection { id } => "selection "@ + debug_tuple("SelectionId"@, id@)
            + " is not pending on this instance"@,
        ToolError::ExpiredSelection { id } => "selection "@ + debug_tuple("SelectionId"@, id@)
            + " expired before settlement"@,
        ToolError::SettledSelection { id } => "selection "@ + debug_tuple("SelectionId"@, id@)
            + " has already settled"@,
        ToolError::MalformedSelection { message } => "malformed selection answer: "@ + message@,
    }
}

fn render_debug_tuple(out: &mut String, name: &str, text: &str)
    ensures
        final(out)@ == old(out)@ + debug_tuple(name@, text@),
{
    push_str(out, name);
    push_str(out, "(");
    let quoted = debug_str(text);
    push_str(out, quoted.as_str());
    push_str(out, ")");
}

impl ToolError {
    /// The error's wording, as its `Display` would print it.
    pub fn message(&self) -> (r: String)
        ensures
            r@ == tool_error_text(*self),
    {
        let mut out = String::new();
        match self {
            ToolError::UnresolvedRef { element } => {
                push_str(&mut out, "element ref ");
                render_debug_tuple(&mut out, "ElementRef", element.as_str());
                push_str(&mut out, " does not resolve against the live DOM");
            },
            ToolError::UnknownWindow { window } => {
                push_str(&mut out, "window ");
                render_debug_tuple(&mut out, "WindowId", window.as_str());
                push_str(&mut out, " does not exist");
            },
            ToolError::UnknownWebview { webview } => {
                push_str(&mut out, "webview ");
                render_debug_tuple(&mut out, "WebviewLabel", webview.as_str());
                push_str(&mut out, " is not hosted by the window");
            },
            ToolError::WaitTimeout { timeout_ms } => {
                push_str(&mut out, "predicate did not hold within ");
                let n = decimal_string(*timeout_ms as u64);
                push_str(&mut out, n.as_str());
                push_str(&mut out, " ms");
            },
            ToolError::EvaluationFailed { message } => {
                push_str(&mut out, "evaluate failed: ");
                push_str(&mut out, message.as_str());
            },
            ToolError::CommandFailed { command, message } => {
                push_str(&mut out, "command ");
                render_debug_tuple(&mut out, "CommandId", command.as_str());
                push_str(&mut out, " failed: ");
                push_str(&mut out, message.as_str());
            },
            ToolError::Unsupported { message } => {
                push_str(&mut out, "unsupported: ");
                push_str(&mut out, message.as_str());
            },
            ToolError::UnknownSelection { id } => {
                push_str(&mut out, "selection ");
                render_debug_tuple(&mut out, "SelectionId", id.as_str());
                push_str(&mut out, " is not pending on this instance");
            },
            ToolError::ExpiredSelection { id } => {
                push_str(&mut out, "selection ");
                render_debug_tuple(&mut out, "SelectionId", id.as_str());
                push_str(&mut out, " expired before settlement");
            },
            ToolError::SettledSelection { id } => {
                push_str(&mut out, "selection ");
                render_debug_tuple(&mut out, "SelectionId", id.as_str());
                push_str(&mut out, " has already settled");
            },
            ToolError::MalformedSelection { message } => {
                push_str(&mut out, "malformed selection answer: ");
                push_str(&mut out, message.as_str());
            },
        }
        out
    }
}

} // verus!
