//! Per-instance pending-selection registry.
//!
//! One registry belongs to one control-surface instance. Agent-originated
//! `open`/`save` picker calls begin a request here; `answer_selection` and
//! `reject_selection` settle it exactly once. Reads return the still-pending
//! set, so a late subscriber discovers a request created before it joined.
//! Expiry, cancellation, and shutdown settle the waiter too, so the caller is
//! never left waiting.
//!
//! The registry decides; whoever holds the waiters delivers. Every
//! settlement appends one [`Delivery`] for its request, which
//! [`SelectionRegistry::take_deliveries`] hands over. Time enters as a
//! millisecond reading supplied by the caller, and what the filesystem says
//! of an answered path enters as [`PathFacts`].

use vstd::prelude::*;
use crate::control::codec::{base64url_unpadded, encode_base64url, fill_random};
use crate::control::json::{json_items, json_view, Json, JsonView};
use crate::control::tools::{SelectionId, ToolError};
use crate::text::{
    contains_char, copy_string, debug_str, has_char, owned, push_str, rust_debug_str, str_eq,
};

verus! {

/// How long an unanswered request lives before it expires, in milliseconds.
pub const DEFAULT_SELECTION_TTL_MS: u64 = 60000;

/// The text of each string.
pub open spec fn strings_view(v: Seq<String>) -> Seq<Seq<char>> {
    v.map_values(|s: String| s@)
}

/// The text of an optional string.
pub open spec fn opt_text(o: Option<String>) -> Option<Seq<char>> {
    match o {
        Some(s) => Some(s@),
        None => None,
    }
}

/// A copy of each string, in order.
pub fn copy_strings(v: &Vec<String>) -> (r: Vec<String>)
    ensures
        strings_view(r@) == strings_view(v@),
{
    let mut r: Vec<String> = Vec::new();
    let mut i: usize = 0;
    while i < v.len()
        invariant
            i <= v@.len(),
            r@.len() == i,
            forall|k: int| 0 <= k < i ==> (#[trigger] r@[k])@ == v@[k]@,
        decreases v@.len() - i,
    {
        r.push(copy_string(&v[i]));
        i += 1;
    }
    assert(strings_view(r@) =~= strings_view(v@));
    r
}

/// A copy of an optional string.
pub fn copy_opt_string(o: &Option<String>) -> (r: Option<String>)
    ensures
        opt_text(r) == opt_text(*o),
{
    match o {
        Some(s) => Some(copy_string(s)),
        None => None,
    }
}

/// Dialog filter copied from the caller's picker options.
pub struct SelectionFilter {
    /// Filter display name.
    pub name: String,
    /// File extensions without a leading dot.
    pub extensions: Vec<String>,
}

impl View for SelectionFilter {
    type V = (Seq<char>, Seq<Seq<char>>);

    open spec fn view(&self) -> (Seq<char>, Seq<Seq<char>>) {
        (self.name@, strings_view(self.extensions@))
    }
}

impl SelectionFilter {
    /// A copy with the same name and extensions.
    pub fn duplicate(&self) -> (r: Self)
        ensures
            r@ == self@,
    {
        SelectionFilter { name: copy_string(&self.name), extensions: copy_strings(&self.extensions) }
    }
}

/// The view of each filter.
pub open spec fn filters_view(v: Seq<SelectionFilter>) -> Seq<(Seq<char>, Seq<Seq<char>>)> {
    v.map_values(|f: SelectionFilter| f@)
}

/// A copy of each filter, in order.
pub fn copy_filters(v: &Vec<SelectionFilter>) -> (r: Vec<SelectionFilter>)
    ensures
        filters_view(r@) == filters_view(v@),
{
    let mut r: Vec<SelectionFilter> = Vec::new();
    let mut i: usize = 0;
    while i < v.len()
        invariant
            i <= v@.len(),
            r@.len() == i,
            forall|k: int| 0 <= k < i ==> (#[trigger] r@[k])@ == v@[k]@,
        decreases v@.len() - i,
    {
        r.push(v[i].duplicate());
        i += 1;
    }
    assert(filters_view(r@) =~= filters_view(v@));
    r
}

/// Open vs save. Directory intent is [`BeginSelectionRequest::directory`].
#[derive(Clone, Copy, Debug, PartialEq, Eq, Structural)]
pub enum SelectionKind {
    /// A picker `open` call.
    Open,
    /// A picker `save` call. The chosen path is never written.
    Save,
}

/// What one picker call wants before it is assigned an id.
pub struct BeginSelectionRequest {
    /// Open or save.
    pub kind: SelectionKind,
    /// Directory intent; only meaningful for [`SelectionKind::Open`].
    pub directory: bool,
    /// Multiple paths; only meaningful for [`SelectionKind::Open`].
    pub multiple: bool,
    /// Optional extension filters. Hints for the agent; not enforced.
    pub filters: Vec<SelectionFilter>,
    /// Dialog title, when the caller supplied one.
    pub title: Option<String>,
    /// Default-path hint, never an answer.
    pub default_path: Option<String>,
    /// Requesting window label, when known.
    pub window: Option<String>,
    /// Requesting webview label, when known.
    pub webview: Option<String>,
}

/// What a pending request holds, as mathematical values.
pub struct PendingView {
    /// Request id.
    pub id: Seq<char>,
    /// Owning instance.
    pub instance: Seq<char>,
    /// Open or save.
    pub kind: SelectionKind,
    /// Directory intent.
    pub directory: bool,
    /// Multiple-path intent.
    pub multiple: bool,
    /// Extension filters.
    pub filters: Seq<(Seq<char>, Seq<Seq<char>>)>,
    /// Dialog title.
    pub title: Option<Seq<char>>,
    /// Default-path hint.
    pub default_path: Option<Seq<char>>,
    /// Requesting window label.
    pub window: Option<Seq<char>>,
    /// Requesting webview label.
    pub webview: Option<Seq<char>>,
}

/// One still-pending request as published on the selection resource.
pub struct PendingSelection {
    /// Request id the agent answers with.
    pub id: SelectionId,
    /// Instance that owns this request (`appId:pid`).
    pub instance: String,
    /// Open or save.
    pub kind: SelectionKind,
    /// Directory intent.
    pub directory: bool,
    /// Multiple-path intent.
    pub multiple: bool,
    /// Optional extension filters.
    pub filters: Vec<SelectionFilter>,
    /// Dialog title, when supplied.
    pub title: Option<String>,
    /// Default-path hint, never an answer.
    pub default_path: Option<String>,
    /// Requesting window label, when known.
    pub window: Option<String>,
    /// Requesting webview label, when known.
    pub webview: Option<String>,
}

impl View for PendingSelection {
    type V = PendingView;

    open spec fn view(&self) -> PendingView {
        PendingView {
            id: self.id@,
            instance: self.instance@,
            kind: self.kind,
            directory: self.directory,
            multiple: self.multiple,
            filters: filters_view(self.filters@),
            title: opt_text(self.title),
            default_path: opt_text(self.default_path),
            window: opt_text(self.window),
            webview: opt_text(self.webview),
        }
    }
}

impl PendingSelection {
    /// A copy with the same contents.
    pub fn duplicate(&self) -> (r: Self)
        ensures
            r@ == self@,
    {
        PendingSelection {
            id: self.id.duplicate(),
            instance: copy_string(&self.instance),
            kind: self.kind,
            directory: self.directory,
            multiple: self.multiple,
            filters: copy_filters(&self.filters),
            title: copy_opt_string(&self.title),
            default_path: copy_opt_string(&self.default_path),
            window: copy_opt_string(&self.window),
            webview: copy_opt_string(&self.webview),
        }
    }
}

/// The pending record a request becomes under `id`, owned by `instance`.
pub open spec fn pending_from(
    request: BeginSelectionRequest,
    id: Seq<char>,
    instance: Seq<char>,
) -> PendingView {
    PendingView {
        id,
        instance,
        kind: request.kind,
        directory: request.directory,
        multiple: request.multiple,
        filters: filters_view(request.filters@),
        title: opt_text(request.title),
        default_path: opt_text(request.default_path),
        window: opt_text(request.window),
        webview: opt_text(request.webview),
    }
}

/// Body of the selection resource.
pub struct SelectionResource {
    /// Still-pending requests, newest last.
    pub pending: Vec<PendingSelection>,
}

/// How a pending request resolved for its waiter.
#[derive(Debug, PartialEq, Eq)]
pub enum SelectionOutcome {
    /// The agent supplied paths.
    Answered(Vec<String>),
    /// Explicit reject: the picker's cancellation result (`null`).
    Rejected,
    /// The time to live elapsed before settlement.
    Expired,
    /// The waiter was dropped, or the host cancelled.
    Cancelled,
    /// The control server is shutting down.
    Shutdown,
}

/// What an outcome holds, as mathematical values.
pub enum OutcomeView {
    /// The answered paths.
    Answered(Seq<Seq<char>>),
    /// Rejected.
    Rejected,
    /// Expired.
    Expired,
    /// Cancelled.
    Cancelled,
    /// Shut down.
    Shutdown,
}

impl View for SelectionOutcome {
    type V = OutcomeView;

    open spec fn view(&self) -> OutcomeView {
        match self {
            SelectionOutcome::Answered(paths) => OutcomeView::Answered(strings_view(paths@)),
            SelectionOutcome::Rejected => OutcomeView::Rejected,
            SelectionOutcome::Expired => OutcomeView::Expired,
            SelectionOutcome::Cancelled => OutcomeView::Cancelled,
            SelectionOutcome::Shutdown => OutcomeView::Shutdown,
        }
    }
}

/// Failure to begin a request, before it is pending.
#[derive(Clone, Copy, Debug, PartialEq, Eq, Structural)]
pub enum BeginSelectionError {
    /// The operating system's random source was unavailable for the id.
    EntropyUnavailable,
}

impl BeginSelectionError {
    /// The error's wording.
    pub fn message(&self) -> (r: String)
        ensures
            r@ == "selection id entropy unavailable"@,
    {
        owned("selection id entropy unavailable")
    }
}

/// What the filesystem says of one path, following links: whether it
/// exists, and whether it is a directory or a regular file.
#[derive(Clone, Copy, Debug, PartialEq, Eq, Structural)]
pub struct PathFacts {
    /// The path names something.
    pub exists: bool,
    /// It names a directory.
    pub is_dir: bool,
    /// It names a regular file.
    pub is_file: bool,
}

/// One delivery owed to a waiter: the outcome its request settled with.
pub struct Delivery {
    /// Request that settled.
    pub id: SelectionId,
    /// How it settled.
    pub outcome: SelectionOutcome,
}

impl View for Delivery {
    type V = (Seq<char>, OutcomeView);

    open spec fn view(&self) -> (Seq<char>, OutcomeView) {
        (self.id@, self.outcome@)
    }
}

/// Whether `r` is the malformed-answer error worded `m`.
pub open spec fn is_malformed(r: Result<(), ToolError>, m: Seq<char>) -> bool {
    r matches Err(ToolError::MalformedSelection { message }) && message@ == m
}

/// Every path is non-empty and free of NUL.
pub open spec fn paths_well_formed(paths: Seq<Seq<char>>) -> bool {
    forall|i: int| 0 <= i < paths.len() ==> (#[trigger] paths[i]).len() > 0 && !has_char(paths[i], '\0')
}

/// The first refusal an `open` answer earns from its paths `i..`.
pub open spec fn open_scan(paths: Seq<Seq<char>>, facts: Seq<PathFacts>, directory: bool, i: int) -> Option<
    Seq<char>,
>
    decreases paths.len() - i,
{
    if i < 0 || i >= paths.len() {
        None
    } else if !facts[i].exists {
        Some("open path "@ + rust_debug_str(paths[i]) + " does not exist"@)
    } else if directory && !facts[i].is_dir {
        Some("open directory path "@ + rust_debug_str(paths[i]) + " is not a directory"@)
    } else if !directory && !facts[i].is_file {
        Some("open file path "@ + rust_debug_str(paths[i]) + " is not a file"@)
    } else {
        open_scan(paths, facts, directory, i + 1)
    }
}

/// Why an answer of `paths`, whose filesystem facts are `facts`, does not
/// fit a request of this kind, if it does not.
pub open spec fn answer_refusal(
    kind: SelectionKind,
    directory: bool,
    multiple: bool,
    paths: Seq<Seq<char>>,
    facts: Seq<PathFacts>,
) -> Option<Seq<char>> {
    if !paths_well_formed(paths) {
        Some("paths must be non-empty and must not contain NUL"@)
    } else {
        match kind {
            SelectionKind::Save => {
                if multiple || paths.len() != 1 {
                    Some("save accepts exactly one path"@)
                } else if facts[0].is_dir {
                    Some("save path must not be an existing directory"@)
                } else {
                    None
                }
            },
            SelectionKind::Open => {
                if multiple && paths.len() == 0 {
                    Some("multiple open requires at least one path"@)
                } else if !multiple && paths.len() != 1 {
                    Some("single open accepts exactly one path"@)
                } else {
                    open_scan(paths, facts, directory, 0)
                }
            },
        }
    }
}

fn malformed(message: &str) -> (r: ToolError)
    ensures
        r matches ToolError::MalformedSelection { message: m } && m@ == message@,
{
    ToolError::MalformedSelection { message: owned(message) }
}

fn quoted_message(head: &str, path: &str, tail: &str) -> (r: ToolError)
    ensures
        r matches ToolError::MalformedSelection { message: m } && m@ == head@ + rust_debug_str(
            path@,
        ) + tail@,
{
    let mut m = owned(head);
    let q = debug_str(path);
    push_str(&mut m, q.as_str());
    push_str(&mut m, tail);
    ToolError::MalformedSelection { message: m }
}

/// Checks an answer against a pending request: every path non-empty and
/// NUL-free; `save` takes exactly one path that is not an existing
/// directory; `open` takes one path, or at least one when multiple, each
/// existing and of the kind the request asked for.
pub fn validate_answer(spec: &PendingSelection, paths: &Vec<String>, facts: &Vec<PathFacts>) -> (r:
    Result<(), ToolError>)
    requires
        paths@.len() == facts@.len(),
    ensures
        match answer_refusal(
            spec.kind,
            spec.directory,
            spec.multiple,
            strings_view(paths@),
            facts@,
        ) {
            None => r is Ok,
            Some(m) => is_malformed(r, m),
        },
{
    let ghost ps = strings_view(paths@);
    let mut i: usize = 0;
    while i < paths.len()
        invariant
            i <= paths@.len(),
            ps == strings_view(paths@),
            forall|k: int| 0 <= k < i ==> (#[trigger] ps[k]).len() > 0 && !has_char(ps[k], '\0'),
        decreases paths@.len() - i,
    {
        let p = paths[i].as_str();
        assert(ps[i as int] == p@);
        if p.is_empty() || contains_char(p, '\0') {
            return Err(malformed("paths must be non-empty and must not contain NUL"));
        }
        i += 1;
    }
    assert(paths_well_formed(ps));
    match spec.kind {
        SelectionKind::Save => {
            if spec.multiple || paths.len() != 1 {
                return Err(malformed("save accepts exactly one path"));
            }
            if facts[0].is_dir {
                return Err(malformed("save path must not be an existing directory"));
            }
            Ok(())
        },
        SelectionKind::Open => {
            if spec.multiple {
                if paths.len() == 0 {
                    return Err(malformed("multiple open requires at least one path"));
                }
            } else if paths.len() != 1 {
                return Err(malformed("single open accepts exactly one path"));
            }
            let mut j: usize = 0;
            while j < paths.len()
                invariant
                    j <= paths@.len(),
                    paths@.len() == facts@.len(),
                    ps == strings_view(paths@),
                    spec.kind == SelectionKind::Open,
                    paths_well_formed(ps),
                    spec.multiple ==> paths@.len() > 0,
                    !spec.multiple ==> paths@.len() == 1,
                    open_scan(ps, facts@, spec.directory, 0) == open_scan(
                        ps,
                        facts@,
                        spec.directory,
                        j as int,
                    ),
                decreases paths@.len() - j,
            {
                let p = paths[j].as_str();
                assert(ps[j as int] == p@);
                let f = facts[j];
                if !f.exists {
                    return Err(quoted_message("open path ", p, " does not exist"));
                }
                if spec.directory {
                    if !f.is_dir {
                        return Err(quoted_message("open directory path ", p, " is not a directory"));
                    }
                } else if !f.is_file {
                    return Err(quoted_message("open file path ", p, " is not a file"));
                }
                j += 1;
            }
            Ok(())
        },
    }
}

/// The value a picker call resolves with for each outcome.
pub open spec fn plugin_value(multiple: bool, outcome: OutcomeView) -> Option<JsonView> {
    match outcome {
        OutcomeView::Answered(paths) => if multiple {
            Some(JsonView::Array(paths.map_values(|p: Seq<char>| JsonView::String(p))))
        } else {
            Some(JsonView::String(if paths.len() > 0 { paths[0] } else { Seq::empty() }))
        },
        OutcomeView::Rejected => Some(JsonView::Null),
        _ => None,
    }
}

/// Each string as a JSON string, in order.
fn json_strings(paths: &Vec<String>) -> (r: Vec<Json>)
    ensures
        json_items(r@) == paths@.map_values(|p: String| JsonView::String(p@)),
{
    let mut r: Vec<Json> = Vec::new();
    let mut i: usize = 0;
    while i < paths.len()
        invariant
            i <= paths@.len(),
            json_items(r@) == paths@.take(i as int).map_values(|p: String| JsonView::String(p@)),
            r@.len() == i,
        decreases paths@.len() - i,
    {
        let ghost before = r@;
        r.push(Json::String(copy_string(&paths[i])));
        proof {
            assert(r@.subrange(0, r@.len() - 1) == before);
            assert(json_items(r@) == json_items(before).push(json_view(r@[i as int])));
            assert(paths@.take(i + 1) == paths@.take(i as int).push(paths@[i as int]));
            assert(paths@.take(i + 1).map_values(|p: String| JsonView::String(p@)) =~= paths@.take(
                i as int,
            ).map_values(|p: String| JsonView::String(p@)).push(JsonView::String(paths@[i as int]@)));
        }
        i += 1;
    }
    assert(paths@.take(paths@.len() as int) == paths@);
    r
}

/// Maps a settled outcome onto the picker-compatible result: the path (or
/// every path, for a multiple `open`) when answered, `null` when rejected,
/// the typed expiry error when expired, and an unsupported error when
/// cancelled or shut down.
pub fn plugin_result(id: &SelectionId, multiple: bool, outcome: &SelectionOutcome) -> (r: Result<
    Json,
    ToolError,
>)
    ensures
        match plugin_value(multiple, outcome@) {
            Some(v) => r is Ok && r->Ok_0@ == v,
            None => match outcome@ {
                OutcomeView::Expired => r matches Err(ToolError::ExpiredSelection { id: e }) && e@
                    == id@,
                _ => r matches Err(ToolError::Unsupported { message })
                    && message@ == "selection was cancelled before settlement"@,
            },
        },
{
    match outcome {
        SelectionOutcome::Answered(paths) => {
            if multiple {
                let items = json_strings(paths);
                proof {
                    assert(paths@.map_values(|p: String| JsonView::String(p@)) =~= strings_view(
                        paths@,
                    ).map_values(|p: Seq<char>| JsonView::String(p)));
                }
                Ok(Json::Array(items))
            } else if paths.len() > 0 {
                Ok(Json::String(copy_string(&paths[0])))
            } else {
                Ok(Json::String(String::new()))
            }
        },
        SelectionOutcome::Rejected => Ok(Json::Null),
        SelectionOutcome::Expired => Err(ToolError::ExpiredSelection { id: id.duplicate() }),
        _ => Err(
            ToolError::Unsupported { message: owned("selection was cancelled before settlement") },
        ),
    }
}

/// The path text of `path`; text that is already a string converts
/// without loss.
pub fn path_string(path: &str) -> (r: String)
    ensures
        r@ == path@,
{
    owned(path)
}

/// Where one request stands.
pub enum SlotState {
    /// Awaiting an answer until `deadline_ms`.
    Pending {
        /// The published request.
        spec: PendingSelection,
        /// Reading of the caller's clock, in milliseconds, at which it expires.
        deadline_ms: u64,
    },
    /// Answered, rejected, cancelled, or shut down.
    Settled,
    /// Its time ran out before an answer.
    Expired,
}

/// Where one request stands, as mathematical values.
pub enum SlotView {
    /// Awaiting an answer until `deadline_ms`.
    Pending {
        /// The published request.
        spec: PendingView,
        /// Expiry reading, in milliseconds.
        deadline_ms: u64,
    },
    /// Answered, rejected, cancelled, or shut down.
    Settled,
    /// Expired.
    Expired,
}

/// The view of a slot state.
pub open spec fn slot_view(s: SlotState) -> SlotView {
    match s {
        SlotState::Pending { spec, deadline_ms } => SlotView::Pending { spec: spec@, deadline_ms },
        SlotState::Settled => SlotView::Settled,
        SlotState::Expired => SlotView::Expired,
    }
}

struct Slot {
    id: SelectionId,
    state: SlotState,
}

impl View for Slot {
    type V = (Seq<char>, SlotView);

    closed spec fn view(&self) -> (Seq<char>, SlotView) {
        (self.id@, slot_view(self.state))
    }
}

/// Index of the slot recorded for `id`, searching from the newest.
pub open spec fn find_slot(slots: Seq<(Seq<char>, SlotView)>, id: Seq<char>) -> Option<int>
    decreases slots.len(),
{
    if slots.len() == 0 {
        None
    } else if slots.last().0 == id {
        Some(slots.len() - 1)
    } else {
        find_slot(slots.drop_last(), id)
    }
}

/// Whether a slot is pending with a deadline no later than `now`.
pub open spec fn expires(s: SlotView, now: u64) -> bool {
    s matches SlotView::Pending { deadline_ms, .. } && deadline_ms <= now
}

/// The slots after expiring every pending one whose deadline has come.
pub open spec fn swept(slots: Seq<(Seq<char>, SlotView)>, now: u64) -> Seq<(Seq<char>, SlotView)> {
    slots.map_values(
        |s: (Seq<char>, SlotView)|
            if expires(s.1, now) {
                (s.0, SlotView::Expired)
            } else {
                s
            },
    )
}

/// Ids of the slots that expire at `now`, in slot order.
pub open spec fn expiring_ids(slots: Seq<(Seq<char>, SlotView)>, now: u64) -> Seq<Seq<char>>
    decreases slots.len(),
{
    if slots.len() == 0 {
        Seq::empty()
    } else {
        let rest = expiring_ids(slots.drop_last(), now);
        if expires(slots.last().1, now) {
            rest.push(slots.last().0)
        } else {
            rest
        }
    }
}

/// The slots after settling every pending one.
pub open spec fn shut(slots: Seq<(Seq<char>, SlotView)>) -> Seq<(Seq<char>, SlotView)> {
    slots.map_values(
        |s: (Seq<char>, SlotView)|
            if s.1 is Pending {
                (s.0, SlotView::Settled)
            } else {
                s
            },
    )
}

/// Ids of the pending slots, in slot order.
pub open spec fn pending_ids(slots: Seq<(Seq<char>, SlotView)>) -> Seq<Seq<char>>
    decreases slots.len(),
{
    if slots.len() == 0 {
        Seq::empty()
    } else {
        let rest = pending_ids(slots.drop_last());
        if slots.last().1 is Pending {
            rest.push(slots.last().0)
        } else {
            rest
        }
    }
}

/// The published records of the pending slots, in slot order.
pub open spec fn pending_records(slots: Seq<(Seq<char>, SlotView)>) -> Seq<PendingView>
    decreases slots.len(),
{
    if slots.len() == 0 {
        Seq::empty()
    } else {
        let rest = pending_records(slots.drop_last());
        match slots.last().1 {
            SlotView::Pending { spec, .. } => rest.push(spec),
            _ => rest,
        }
    }
}

/// One delivery of `outcome` to each of `ids`, in order.
pub open spec fn deliveries_of(ids: Seq<Seq<char>>, outcome: OutcomeView) -> Seq<
    (Seq<char>, OutcomeView),
> {
    ids.map_values(|id: Seq<char>| (id, outcome))
}

/// The generation after one more bump; the counter wraps at its maximum.
pub open spec fn bumped(g: u64) -> u64 {
    if g == u64::MAX {
        0
    } else {
        (g + 1) as u64
    }
}

/// The generation after a sweep at `now`: bumped once if anything expired.
pub open spec fn swept_generation(g: u64, slots: Seq<(Seq<char>, SlotView)>, now: u64) -> u64 {
    if expiring_ids(slots, now).len() > 0 {
        bumped(g)
    } else {
        g
    }
}

/// Why settling the slot found for an id is refused, by the error kind's
/// wording: unknown, already settled, or expired.
pub enum SettleRefusal {
    /// No slot has this id.
    Unknown,
    /// The slot was already settled.
    Settled,
    /// The slot had expired.
    Expired,
}

/// The refusal settling `id` earns in `slots`, if any.
pub open spec fn settle_refusal(slots: Seq<(Seq<char>, SlotView)>, id: Seq<char>) -> Option<
    SettleRefusal,
> {
    match find_slot(slots, id) {
        None => Some(SettleRefusal::Unknown),
        Some(i) => match slots[i].1 {
            SlotView::Settled => Some(SettleRefusal::Settled),
            SlotView::Expired => Some(SettleRefusal::Expired),
            SlotView::Pending { .. } => None,
        },
    }
}

/// Whether `r` is the typed error for `refusal` on `id`.
pub open spec fn refused_with(r: Result<(), ToolError>, refusal: SettleRefusal, id: Seq<char>) -> bool {
    match refusal {
        SettleRefusal::Unknown => r matches Err(ToolError::UnknownSelection { id: e }) && e@ == id,
        SettleRefusal::Settled => r matches Err(ToolError::SettledSelection { id: e }) && e@ == id,
        SettleRefusal::Expired => r matches Err(ToolError::ExpiredSelection { id: e }) && e@ == id,
    }
}

/// Per-instance pending-selection registry.
pub struct SelectionRegistry {
    instance: String,
    ttl_ms: u64,
    generation: u64,
    slots: Vec<Slot>,
    deliveries: Vec<Delivery>,
}

/// The request id twelve bytes drawn from the random source give: `sel_`
/// and their unpadded base64url text.
pub fn selection_id_from_random(bytes: &Vec<u8>) -> (r: Result<SelectionId, BeginSelectionError>)
    requires
        bytes@.len() == 12,
    ensures
        r is Ok,
        r->Ok_0@ == "sel_"@ + base64url_unpadded(bytes@),
{
    let encoded = encode_base64url(bytes.as_slice());
    let mut text = owned("sel_");
    push_str(&mut text, encoded.as_str());
    proof {
        reveal_strlit("sel_");
        assert(crate::control::codec::unpadded_len(12) == 16);
        assert forall|i: int| 0 <= i < text@.len() implies (#[trigger] text@[i] as u32) < 0x80 by {
            if i >= 4 {
                assert(text@[i] == encoded@[i - 4]);
                assert(crate::control::codec::is_base64url_spec(encoded@[i - 4]));
            }
        }
        crate::text::lemma_utf8_len_ascii(text@);
        assert(text@.len() == 20);
    }
    match SelectionId::new(text.as_str()) {
        Ok(id) => Ok(id),
        Err(_) => Err(BeginSelectionError::EntropyUnavailable),
    }
}

/// Draws a fresh request id from the operating system's random source (see
/// [`selection_id_from_random`]); fails only when that source does.
fn generate_id() -> (r: Result<SelectionId, BeginSelectionError>)
    ensures
        r matches Err(e) ==> e == BeginSelectionError::EntropyUnavailable,
        r matches Ok(id) ==> exists|bytes: Seq<u8>|
            bytes.len() == 12 && id@ == "sel_"@ + base64url_unpadded(bytes),
{
    let mut bytes: Vec<u8> = vec![0u8; 12];
    if !fill_random(bytes.as_mut_slice()) {
        return Err(BeginSelectionError::EntropyUnavailable);
    }
    selection_id_from_random(&bytes)
}

impl SelectionRegistry {
    /// The slots, oldest first.
    pub closed spec fn slots_model(&self) -> Seq<(Seq<char>, SlotView)> {
        self.slots@.map_values(|s: Slot| s@)
    }

    /// Deliveries owed and not yet taken, in the order they arose.
    pub closed spec fn deliveries_model(&self) -> Seq<(Seq<char>, OutcomeView)> {
        self.deliveries@.map_values(|d: Delivery| d@)
    }

    /// The instance identity stamped on pending records.
    pub closed spec fn instance_model(&self) -> Seq<char> {
        self.instance@
    }

    /// Time to live of a request, in milliseconds.
    pub closed spec fn ttl_model(&self) -> u64 {
        self.ttl_ms
    }

    /// The generation counter.
    pub closed spec fn generation_model(&self) -> u64 {
        self.generation
    }

    /// `self` and `other` belong to the same instance with the same time to
    /// live.
    pub open spec fn same_settings(&self, other: &Self) -> bool {
        self.instance_model() == other.instance_model() && self.ttl_model() == other.ttl_model()
    }

    /// `self` is `old` after a sweep at `now` and nothing else.
    pub open spec fn is_swept(&self, old: &Self, now: u64) -> bool {
        &&& self.same_settings(old)
        &&& self.slots_model() == swept(old.slots_model(), now)
        &&& self.deliveries_model() == old.deliveries_model() + deliveries_of(
            expiring_ids(old.slots_model(), now),
            OutcomeView::Expired,
        )
        &&& self.generation_model() == swept_generation(
            old.generation_model(),
            old.slots_model(),
            now,
        )
    }

    /// Registry for `instance` (`appId:pid`) with the default time to live.
    pub fn new(instance: &str) -> (r: Self)
        ensures
            r.instance_model() == instance@,
            r.ttl_model() == DEFAULT_SELECTION_TTL_MS,
            r.generation_model() == 0,
            r.slots_model().len() == 0,
            r.deliveries_model().len() == 0,
    {
        Self::with_ttl(instance, DEFAULT_SELECTION_TTL_MS)
    }

    /// Registry with an explicit time to live, in milliseconds.
    pub fn with_ttl(instance: &str, ttl_ms: u64) -> (r: Self)
        ensures
            r.instance_model() == instance@,
            r.ttl_model() == ttl_ms,
            r.generation_model() == 0,
            r.slots_model().len() == 0,
            r.deliveries_model().len() == 0,
    {
        SelectionRegistry {
            instance: owned(instance),
            ttl_ms,
            generation: 0,
            slots: Vec::new(),
            deliveries: Vec::new(),
        }
    }

    /// Identity this registry stamps on pending records.
    pub fn instance(&self) -> (r: &str)
        ensures
            r@ == self.instance_model(),
    {
        self.instance.as_str()
    }

    /// Generation: bumped on every begin and on every settling step.
    pub fn generation(&self) -> (r: u64)
        ensures
            r == self.generation_model(),
    {
        self.generation
    }

    /// Time to live of a request, in milliseconds.
    pub fn ttl_ms(&self) -> (r: u64)
        ensures
            r == self.ttl_model(),
    {
        self.ttl_ms
    }

    fn bump(&mut self)
        ensures
            final(self).same_settings(old(self)),
            final(self).slots_model() == old(self).slots_model(),
            final(self).deliveries_model() == old(self).deliveries_model(),
            final(self).generation_model() == bumped(old(self).generation_model()),
    {
        if self.generation == u64::MAX {
            self.generation = 0;
        } else {
            self.generation = self.generation + 1;
        }
    }

    fn find(&self, id: &SelectionId) -> (r: Option<usize>)
        ensures
            match find_slot(self.slots_model(), id@) {
                Some(i) => r is Some && r->Some_0 as int == i,
                None => r is None,
            },
            r matches Some(i) ==> i < self.slots@.len(),
    {
        let ghost model = self.slots_model();
        let mut i: usize = self.slots.len();
        assert(model.take(i as int) == model);
        while i > 0
            invariant
                i <= self.slots@.len(),
                model == self.slots_model(),
                find_slot(model, id@) == find_slot(model.take(i as int), id@),
            decreases i,
        {
            i -= 1;
            let ghost prefix = model.take(i + 1);
            assert(prefix.drop_last() == model.take(i as int));
            assert(prefix.last() == model[i as int]);
            assert(model[i as int].0 == self.slots@[i as int].id@);
            if str_eq(self.slots[i].id.as_str(), id.as_str()) {
                return Some(i);
            }
        }
        None
    }

    fn settle_at(&mut self, i: usize, expired: bool, outcome: SelectionOutcome)
        requires
            i < old(self).slots@.len(),
        ensures
            final(self).same_settings(old(self)),
            final(self).slots_model() == old(self).slots_model().update(
                i as int,
                (
                    old(self).slots_model()[i as int].0,
                    if expired {
                        SlotView::Expired
                    } else {
                        SlotView::Settled
                    },
                ),
            ),
            final(self).deliveries_model() == old(self).deliveries_model().push(
                (old(self).slots_model()[i as int].0, outcome@),
            ),
            final(self).generation_model() == bumped(old(self).generation_model()),
    {
        let id = self.slots[i].id.duplicate();
        let id2 = self.slots[i].id.duplicate();
        let state = if expired {
            SlotState::Expired
        } else {
            SlotState::Settled
        };
        let ghost before = self.slots@;
        self.slots.set(i, Slot { id, state });
        self.deliveries.push(Delivery { id: id2, outcome });
        proof {
            assert(self.slots_model() =~= old(self).slots_model().update(
                i as int,
                (
                    old(self).slots_model()[i as int].0,
                    if expired {
                        SlotView::Expired
                    } else {
                        SlotView::Settled
                    },
                ),
            ));
            assert(self.deliveries_model() =~= old(self).deliveries_model().push(
                (old(self).slots_model()[i as int].0, outcome@),
            ));
        }
        self.bump();
    }

    /// Expires every pending request whose deadline is no later than
    /// `now_ms`, owing each waiter its expiry.
    pub fn sweep(&mut self, now_ms: u64)
        ensures
            final(self).is_swept(old(self), now_ms),
    {
        let ghost old_slots = self.slots_model();
        let ghost old_deliveries = self.deliveries_model();
        let mut any = false;
        let mut i: usize = 0;
        while i < self.slots.len()
            invariant
                i <= self.slots@.len(),
                self.slots@.len() == old_slots.len(),
                self.same_settings(old(self)),
                self.generation_model() == old(self).generation_model(),
                forall|k: int|
                    0 <= k < i ==> #[trigger] self.slots_model()[k] == swept(old_slots, now_ms)[k],
                forall|k: int|
                    i <= k < old_slots.len() ==> #[trigger] self.slots_model()[k] == old_slots[k],
                self.deliveries_model() == old_deliveries + deliveries_of(
                    expiring_ids(old_slots.take(i as int), now_ms),
                    OutcomeView::Expired,
                ),
                any == (expiring_ids(old_slots.take(i as int), now_ms).len() > 0),
            decreases old_slots.len() - i,
        {
            let due = match &self.slots[i].state {
                SlotState::Pending { deadline_ms, .. } => *deadline_ms <= now_ms,
                _ => false,
            };
            let ghost prefix = old_slots.take(i + 1);
            proof {
                assert(prefix.drop_last() == old_slots.take(i as int));
                assert(prefix.last() == old_slots[i as int]);
                assert(old_slots[i as int] == self.slots_model()[i as int]);
                assert(due == expires(old_slots[i as int].1, now_ms));
            }
            if due {
                let ghost before = self.slots_model();
                let ghost before_d = self.deliveries_model();
                let id = self.slots[i].id.duplicate();
                let id2 = self.slots[i].id.duplicate();
                self.slots.set(i, Slot { id, state: SlotState::Expired });
                self.deliveries.push(Delivery { id: id2, outcome: SelectionOutcome::Expired });
                any = true;
                proof {
                    assert(self.slots_model() =~= before.update(
                        i as int,
                        (old_slots[i as int].0, SlotView::Expired),
                    ));
                    assert(self.deliveries_model() =~= before_d.push(
                        (old_slots[i as int].0, OutcomeView::Expired),
                    ));
                    assert(deliveries_of(expiring_ids(prefix, now_ms), OutcomeView::Expired)
                        =~= deliveries_of(
                        expiring_ids(old_slots.take(i as int), now_ms),
                        OutcomeView::Expired,
                    ).push((old_slots[i as int].0, OutcomeView::Expired)));
                }
            }
            i += 1;
        }
        proof {
            assert(old_slots.take(old_slots.len() as int) == old_slots);
            assert(self.slots_model() =~= swept(old_slots, now_ms));
        }
        if any {
            self.bump();
        }
    }

    /// Still-pending requests, oldest first, after sweeping expired ones.
    pub fn pending(&mut self, now_ms: u64) -> (r: Vec<PendingSelection>)
        ensures
            final(self).is_swept(old(self), now_ms),
            r@.map_values(|p: PendingSelection| p@) == pending_records(final(self).slots_model()),
    {
        self.sweep(now_ms);
        let ghost model = self.slots_model();
        let mut out: Vec<PendingSelection> = Vec::new();
        let mut i: usize = 0;
        while i < self.slots.len()
            invariant
                i <= self.slots@.len(),
                model == self.slots_model(),
                out@.map_values(|p: PendingSelection| p@) == pending_records(
                    model.take(i as int),
                ),
            decreases self.slots@.len() - i,
        {
            let ghost prefix = model.take(i + 1);
            proof {
                assert(prefix.drop_last() == model.take(i as int));
                assert(prefix.last() == model[i as int]);
            }
            match &self.slots[i].state {
                SlotState::Pending { spec, .. } => {
                    let ghost before = out@;
                    out.push(spec.duplicate());
                    proof {
                        assert(out@.map_values(|p: PendingSelection| p@) =~= before.map_values(
                            |p: PendingSelection| p@,
                        ).push(spec@));
                    }
                },
                _ => {},
            }
            i += 1;
        }
        assert(model.take(model.len() as int) == model);
        out
    }

    /// Body of the selection resource: the still-pending requests.
    pub fn resource_body(&mut self, now_ms: u64) -> (r: SelectionResource)
        ensures
            final(self).is_swept(old(self), now_ms),
            r.pending@.map_values(|p: PendingSelection| p@) == pending_records(
                final(self).slots_model(),
            ),
    {
        SelectionResource { pending: self.pending(now_ms) }
    }

    /// Publishes `request` under `id`, pending until `now_ms` plus the time
    /// to live. A slot already holding `id` is replaced.
    pub fn begin_with_id(&mut self, request: BeginSelectionRequest, id: SelectionId, now_ms: u64)
        requires
            now_ms + old(self).ttl_model() <= u64::MAX,
        ensures
            final(self).same_settings(old(self)),
            final(self).deliveries_model() == old(self).deliveries_model(),
            final(self).generation_model() == bumped(old(self).generation_model()),
            ({
                let entry = (
                    id@,
                    SlotView::Pending {
                        spec: pending_from(request, id@, old(self).instance_model()),
                        deadline_ms: (now_ms + old(self).ttl_model()) as u64,
                    },
                );
                final(self).slots_model() == match find_slot(old(self).slots_model(), id@) {
                    Some(i) => old(self).slots_model().update(i, entry),
                    None => old(self).slots_model().push(entry),
                }
            }),
    {
        let ghost req = request;
        let ghost idv = id@;
        let found = self.find(&id);
        let spec = PendingSelection {
            id: id.duplicate(),
            instance: copy_string(&self.instance),
            kind: request.kind,
            directory: request.directory,
            multiple: request.multiple,
            filters: request.filters,
            title: request.title,
            default_path: request.default_path,
            window: request.window,
            webview: request.webview,
        };
        let deadline_ms = now_ms + self.ttl_ms;
        let slot = Slot { id, state: SlotState::Pending { spec, deadline_ms } };
        let ghost entry = slot@;
        assert(entry == (
            idv,
            SlotView::Pending {
                spec: pending_from(req, idv, old(self).instance_model()),
                deadline_ms: (now_ms + old(self).ttl_model()) as u64,
            },
        ));
        match found {
            Some(i) => {
                self.slots.set(i, slot);
                assert(self.slots_model() =~= old(self).slots_model().update(i as int, entry));
            },
            None => {
                self.slots.push(slot);
                assert(self.slots_model() =~= old(self).slots_model().push(entry));
            },
        }
        let ghost mid = self.slots_model();
        assert(mid == match find_slot(old(self).slots_model(), idv) {
            Some(k) => old(self).slots_model().update(k, entry),
            None => old(self).slots_model().push(entry),
        });
        self.bump();
        assert(self.slots_model() == mid);
    }

    /// Sweeps, then publishes a pending request under a fresh random id and
    /// returns that id; the caller waits on deliveries for it.
    pub fn begin(&mut self, request: BeginSelectionRequest, now_ms: u64) -> (r: Result<
        SelectionId,
        BeginSelectionError,
    >)
        requires
            now_ms + old(self).ttl_model() <= u64::MAX,
        ensures
            final(self).same_settings(old(self)),
            r matches Err(e) ==> e == BeginSelectionError::EntropyUnavailable
                && final(self).is_swept(old(self), now_ms),
            r matches Ok(id) ==> {
                let s0 = swept(old(self).slots_model(), now_ms);
                let entry = (
                    id@,
                    SlotView::Pending {
                        spec: pending_from(request, id@, old(self).instance_model()),
                        deadline_ms: (now_ms + old(self).ttl_model()) as u64,
                    },
                );
                &&& exists|bytes: Seq<u8>|
                    bytes.len() == 12 && id@ == "sel_"@ + base64url_unpadded(bytes)
                &&& final(self).slots_model() == match find_slot(s0, id@) {
                    Some(i) => s0.update(i, entry),
                    None => s0.push(entry),
                }
                &&& final(self).deliveries_model() == old(self).deliveries_model()
                    + deliveries_of(expiring_ids(old(self).slots_model(), now_ms), OutcomeView::Expired)
                &&& final(self).generation_model() == bumped(
                    swept_generation(old(self).generation_model(), old(self).slots_model(), now_ms),
                )
            },
    {
        self.sweep(now_ms);
        let id = match generate_id() {
            Ok(id) => id,
            Err(e) => return Err(e),
        };
        let handle = id.duplicate();
        self.begin_with_id(request, id, now_ms);
        Ok(handle)
    }

    /// Sweeps, then settles the request `id` with `outcome`, leaving it
    /// settled (or expired, when `expired`).
    fn settle_terminal(&mut self, id: &SelectionId, outcome: SelectionOutcome, expired: bool, now_ms: u64) -> (r: Result<(), ToolError>)
        ensures
            final(self).same_settings(old(self)),
            ({
                let s0 = swept(old(self).slots_model(), now_ms);
                let d0 = old(self).deliveries_model() + deliveries_of(
                    expiring_ids(old(self).slots_model(), now_ms),
                    OutcomeView::Expired,
                );
                let g0 = swept_generation(old(self).generation_model(), old(self).slots_model(), now_ms);
                match settle_refusal(s0, id@) {
                    Some(f) => refused_with(r, f, id@) && final(self).slots_model() == s0
                        && final(self).deliveries_model() == d0 && final(self).generation_model() == g0,
                    None => {
                        let i = find_slot(s0, id@)->Some_0;
                        &&& r is Ok
                        &&& final(self).slots_model() == s0.update(
                            i,
                            (id@, if expired { SlotView::Expired } else { SlotView::Settled }),
                        )
                        &&& final(self).deliveries_model() == d0.push((id@, outcome@))
                        &&& final(self).generation_model() == bumped(g0)
                    },
                }
            }),
    {
        self.sweep(now_ms);
        let found = self.find(id);
        let i = match found {
            None => return Err(ToolError::UnknownSelection { id: id.duplicate() }),
            Some(i) => i,
        };
        proof {
            lemma_find_slot_matches(self.slots_model(), id@);
            assert(self.slots_model()[i as int] == self.slots@[i as int]@);
        }
        match &self.slots[i].state {
            SlotState::Settled => return Err(ToolError::SettledSelection { id: id.duplicate() }),
            SlotState::Expired => return Err(ToolError::ExpiredSelection { id: id.duplicate() }),
            SlotState::Pending { .. } => {},
        }
        self.settle_at(i, expired, outcome);
        Ok(())
    }

    /// The agent's answer: checks cardinality and path kinds, then settles
    /// the request once, owing its waiter the paths.
    pub fn answer(&mut self, id: &SelectionId, paths: &Vec<String>, facts: &Vec<PathFacts>, now_ms: u64) -> (r: Result<(), ToolError>)
        requires
            paths@.len() == facts@.len(),
        ensures
            final(self).same_settings(old(self)),
            ({
                let s0 = swept(old(self).slots_model(), now_ms);
                let d0 = old(self).deliveries_model() + deliveries_of(
                    expiring_ids(old(self).slots_model(), now_ms),
                    OutcomeView::Expired,
                );
                let g0 = swept_generation(old(self).generation_model(), old(self).slots_model(), now_ms);
                let unchanged = final(self).slots_model() == s0 && final(self).deliveries_model() == d0
                    && final(self).generation_model() == g0;
                match settle_refusal(s0, id@) {
                    Some(f) => refused_with(r, f, id@) && unchanged,
                    None => {
                        let i = find_slot(s0, id@)->Some_0;
                        let spec = s0[i].1->spec;
                        match answer_refusal(
                            spec.kind,
                            spec.directory,
                            spec.multiple,
                            strings_view(paths@),
                            facts@,
                        ) {
                            Some(m) => is_malformed(r, m) && unchanged,
                            None => {
                                &&& r is Ok
                                &&& final(self).slots_model() == s0.update(i, (id@, SlotView::Settled))
                                &&& final(self).deliveries_model() == d0.push(
                                    (id@, OutcomeView::Answered(strings_view(paths@))),
                                )
                                &&& final(self).generation_model() == bumped(g0)
                            },
                        }
                    },
                }
            }),
    {
        self.sweep(now_ms);
        let found = self.find(id);
        let i = match found {
            None => return Err(ToolError::UnknownSelection { id: id.duplicate() }),
            Some(i) => i,
        };
        proof {
            lemma_find_slot_matches(self.slots_model(), id@);
            assert(self.slots_model()[i as int] == self.slots@[i as int]@);
        }
        match &self.slots[i].state {
            SlotState::Settled => return Err(ToolError::SettledSelection { id: id.duplicate() }),
            SlotState::Expired => return Err(ToolError::ExpiredSelection { id: id.duplicate() }),
            SlotState::Pending { spec, .. } => {
                let verdict = validate_answer(spec, paths, facts);
                if verdict.is_err() {
                    return verdict;
                }
            },
        }
        let delivered = copy_strings(paths);
        self.settle_at(i, false, SelectionOutcome::Answered(delivered));
        Ok(())
    }

    /// Explicit reject: the caller's picker resolves as `null`.
    pub fn reject(&mut self, id: &SelectionId, now_ms: u64) -> (r: Result<(), ToolError>)
        ensures
            final(self).same_settings(old(self)),
            ({
                let s0 = swept(old(self).slots_model(), now_ms);
                let d0 = old(self).deliveries_model() + deliveries_of(
                    expiring_ids(old(self).slots_model(), now_ms),
                    OutcomeView::Expired,
                );
                let g0 = swept_generation(old(self).generation_model(), old(self).slots_model(), now_ms);
                match settle_refusal(s0, id@) {
                    Some(f) => refused_with(r, f, id@) && final(self).slots_model() == s0
                        && final(self).deliveries_model() == d0 && final(self).generation_model() == g0,
                    None => {
                        &&& r is Ok
                        &&& final(self).slots_model() == s0.update(find_slot(s0, id@)->Some_0, (id@, SlotView::Settled))
                        &&& final(self).deliveries_model() == d0.push((id@, OutcomeView::Rejected))
                        &&& final(self).generation_model() == bumped(g0)
                    },
                }
            }),
    {
        self.settle_terminal(id, SelectionOutcome::Rejected, false, now_ms)
    }

    /// Cancels a still-pending request (its waiter was dropped, or the host
    /// cancelled); a request no longer pending is left as it is.
    pub fn cancel(&mut self, id: &SelectionId, now_ms: u64)
        ensures
            final(self).same_settings(old(self)),
            ({
                let s0 = swept(old(self).slots_model(), now_ms);
                let d0 = old(self).deliveries_model() + deliveries_of(
                    expiring_ids(old(self).slots_model(), now_ms),
                    OutcomeView::Expired,
                );
                let g0 = swept_generation(old(self).generation_model(), old(self).slots_model(), now_ms);
                match settle_refusal(s0, id@) {
                    Some(f) => final(self).slots_model() == s0 && final(self).deliveries_model() == d0
                        && final(self).generation_model() == g0,
                    None => {
                        &&& final(self).slots_model() == s0.update(find_slot(s0, id@)->Some_0, (id@, SlotView::Settled))
                        &&& final(self).deliveries_model() == d0.push((id@, OutcomeView::Cancelled))
                        &&& final(self).generation_model() == bumped(g0)
                    },
                }
            }),
    {
        let _ = self.settle_terminal(id, SelectionOutcome::Cancelled, false, now_ms);
    }

    /// Expires the request `id` when its waiter's timer fires; a request no
    /// longer pending is left as it is.
    pub fn expire(&mut self, id: &SelectionId, now_ms: u64)
        ensures
            final(self).same_settings(old(self)),
            ({
                let s0 = swept(old(self).slots_model(), now_ms);
                let d0 = old(self).deliveries_model() + deliveries_of(
                    expiring_ids(old(self).slots_model(), now_ms),
                    OutcomeView::Expired,
                );
                let g0 = swept_generation(old(self).generation_model(), old(self).slots_model(), now_ms);
                match settle_refusal(s0, id@) {
                    Some(f) => final(self).slots_model() == s0 && final(self).deliveries_model() == d0
                        && final(self).generation_model() == g0,
                    None => {
                        &&& final(self).slots_model() == s0.update(find_slot(s0, id@)->Some_0, (id@, SlotView::Expired))
                        &&& final(self).deliveries_model() == d0.push((id@, OutcomeView::Expired))
                        &&& final(self).generation_model() == bumped(g0)
                    },
                }
            }),
    {
        let _ = self.settle_terminal(id, SelectionOutcome::Expired, true, now_ms);
    }

    /// Settles every pending request, owing each waiter the shutdown.
    /// Idempotent.
    pub fn shutdown(&mut self)
        ensures
            final(self).same_settings(old(self)),
            final(self).slots_model() == shut(old(self).slots_model()),
            final(self).deliveries_model() == old(self).deliveries_model() + deliveries_of(
                pending_ids(old(self).slots_model()),
                OutcomeView::Shutdown,
            ),
            final(self).generation_model() == if pending_ids(old(self).slots_model()).len() > 0 {
                bumped(old(self).generation_model())
            } else {
                old(self).generation_model()
            },
    {
        let ghost old_slots = self.slots_model();
        let ghost old_deliveries = self.deliveries_model();
        let mut any = false;
        let mut i: usize = 0;
        while i < self.slots.len()
            invariant
                i <= self.slots@.len(),
                self.slots@.len() == old_slots.len(),
                self.same_settings(old(self)),
                self.generation_model() == old(self).generation_model(),
                forall|k: int| 0 <= k < i ==> #[trigger] self.slots_model()[k] == shut(old_slots)[k],
                forall|k: int|
                    i <= k < old_slots.len() ==> #[trigger] self.slots_model()[k] == old_slots[k],
                self.deliveries_model() == old_deliveries + deliveries_of(
                    pending_ids(old_slots.take(i as int)),
                    OutcomeView::Shutdown,
                ),
                any == (pending_ids(old_slots.take(i as int)).len() > 0),
            decreases old_slots.len() - i,
        {
            let live = match &self.slots[i].state {
                SlotState::Pending { .. } => true,
                _ => false,
            };
            let ghost prefix = old_slots.take(i + 1);
            proof {
                assert(prefix.drop_last() == old_slots.take(i as int));
                assert(prefix.last() == old_slots[i as int]);
                assert(old_slots[i as int] == self.slots_model()[i as int]);
            }
            if live {
                let ghost before = self.slots_model();
                let ghost before_d = self.deliveries_model();
                let id = self.slots[i].id.duplicate();
                let id2 = self.slots[i].id.duplicate();
                self.slots.set(i, Slot { id, state: SlotState::Settled });
                self.deliveries.push(Delivery { id: id2, outcome: SelectionOutcome::Shutdown });
                any = true;
                proof {
                    assert(self.slots_model() =~= before.update(
                        i as int,
                        (old_slots[i as int].0, SlotView::Settled),
                    ));
                    assert(self.deliveries_model() =~= before_d.push(
                        (old_slots[i as int].0, OutcomeView::Shutdown),
                    ));
                    assert(deliveries_of(pending_ids(prefix), OutcomeView::Shutdown) =~= deliveries_of(
                        pending_ids(old_slots.take(i as int)),
                        OutcomeView::Shutdown,
                    ).push((old_slots[i as int].0, OutcomeView::Shutdown)));
                }
            }
            i += 1;
        }
        proof {
            assert(old_slots.take(old_slots.len() as int) == old_slots);
            assert(self.slots_model() =~= shut(old_slots));
        }
        if any {
            self.bump();
        }
    }

    /// Hands over every delivery owed so far, oldest first.
    pub fn take_deliveries(&mut self) -> (r: Vec<Delivery>)
        ensures
            final(self).same_settings(old(self)),
            final(self).slots_model() == old(self).slots_model(),
            final(self).generation_model() == old(self).generation_model(),
            r@.map_values(|d: Delivery| d@) == old(self).deliveries_model(),
            final(self).deliveries_model().len() == 0,
    {
        let mut taken: Vec<Delivery> = Vec::new();
        std::mem::swap(&mut taken, &mut self.deliveries);
        proof {
            assert(self.deliveries_model() =~= Seq::<(Seq<char>, OutcomeView)>::empty());
        }
        taken
    }
}

/// The slot [`find_slot`] finds carries the id it was asked for.
pub proof fn lemma_find_slot_matches(slots: Seq<(Seq<char>, SlotView)>, id: Seq<char>)
    ensures
        find_slot(slots, id) matches Some(i) ==> 0 <= i < slots.len() && slots[i].0 == id,
    decreases slots.len(),
{
    if slots.len() > 0 && slots.last().0 != id {
        lemma_find_slot_matches(slots.drop_last(), id);
    }
}

/// Sweeping and shutting down keep every slot's id where it was.
proof fn lemma_find_slot_stable(slots: Seq<(Seq<char>, SlotView)>, id: Seq<char>, now: u64)
    ensures
        find_slot(swept(slots, now), id) == find_slot(slots, id),
        find_slot(shut(slots), id) == find_slot(slots, id),
    decreases slots.len(),
{
    if slots.len() > 0 {
        assert(swept(slots, now).drop_last() =~= swept(slots.drop_last(), now));
        assert(shut(slots).drop_last() =~= shut(slots.drop_last()));
        lemma_find_slot_stable(slots.drop_last(), id, now);
    }
}

/// Settlement is final: once a request is no longer pending, sweeping and
/// shutting down leave it as it is, and any later answer, reject, cancel or
/// expiry of it is refused with the error its state names, changing nothing
/// and owing no delivery.
pub proof fn law_settlement_is_final(slots: Seq<(Seq<char>, SlotView)>, id: Seq<char>, now: u64)
    requires
        find_slot(slots, id) matches Some(i) && !(slots[i].1 is Pending),
    ensures
        settle_refusal(swept(slots, now), id) == settle_refusal(slots, id),
        settle_refusal(shut(slots), id) == settle_refusal(slots, id),
        settle_refusal(slots, id) is Some,
        !(settle_refusal(slots, id) matches Some(SettleRefusal::Unknown)),
{
    lemma_find_slot_stable(slots, id, now);
    lemma_find_slot_matches(slots, id);
}

/// A request settles at most once: whichever settling step succeeds first
/// leaves it no longer pending, so every later one is refused.
pub proof fn law_settles_once(slots: Seq<(Seq<char>, SlotView)>, id: Seq<char>, now: u64, expired: bool)
    requires
        settle_refusal(slots, id) is None,
    ensures
        ({
            let after = slots.update(
                find_slot(slots, id)->Some_0,
                (id, if expired { SlotView::Expired } else { SlotView::Settled }),
            );
            &&& settle_refusal(after, id) is Some
            &&& settle_refusal(swept(after, now), id) is Some
        }),
{
    lemma_find_slot_matches(slots, id);
    let i = find_slot(slots, id)->Some_0;
    let after = slots.update(i, (id, if expired { SlotView::Expired } else { SlotView::Settled }));
    lemma_find_slot_update(slots, id, i, (id, if expired { SlotView::Expired } else { SlotView::Settled }));
    lemma_find_slot_stable(after, id, now);
}

/// Replacing the slot [`find_slot`] finds by one with the same id keeps it
/// the slot found.
proof fn lemma_find_slot_update(
    slots: Seq<(Seq<char>, SlotView)>,
    id: Seq<char>,
    i: int,
    entry: (Seq<char>, SlotView),
)
    requires
        find_slot(slots, id) == Some(i),
        entry.0 == id,
    ensures
        find_slot(slots.update(i, entry), id) == Some(i),
    decreases slots.len(),
{
    lemma_find_slot_matches(slots, id);
    if slots.last().0 != id {
        assert(slots.update(i, entry).drop_last() =~= slots.drop_last().update(i, entry));
        lemma_find_slot_update(slots.drop_last(), id, i, entry);
    }
}

} // verus!
