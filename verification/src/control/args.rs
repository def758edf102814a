//! Wire argument shapes for the tools, and their conversion into the
//! vocabulary. Every identifier crosses as a plain string; conversion
//! validates, and the first invalid field, in field order, is reported.

use vstd::prelude::*;
use crate::control::tools::{
    ClickRequest, CommandId, CommandRequest, DragRequest, ElementRef, EvaluateRequest, KeyModifier,
    PressRequest, ScreenshotRequest, ScrollRequest, SnapshotRequest, TypeRequest,
    WaitForRequest, WaitPredicate, WebviewLabel, WindowId, opaque_id_refusal,
};
use crate::control::json::Json;
use crate::text::{debug_str, owned, push_str, rust_debug_str, str_eq};

verus! {

/// Invalid wire input, surfaced as a JSON-RPC invalid-params error.
#[derive(Debug)]
pub struct InvalidParams {
    /// What was wrong.
    pub message: String,
}

/// The message `head` followed by the `Debug` rendering of `value`.
pub open spec fn quoted(head: Seq<char>, value: Seq<char>) -> Seq<char> {
    head + rust_debug_str(value)
}

fn invalid(head: &str, value: &str) -> (r: InvalidParams)
    ensures
        r.message@ == quoted(head@, value@),
{
    let mut m = owned(head);
    let q = debug_str(value);
    push_str(&mut m, q.as_str());
    InvalidParams { message: m }
}

/// Whether `r` reports the invalid value `value` with `head`.
pub open spec fn refused<T>(r: Result<T, InvalidParams>, head: Seq<char>, value: Seq<char>) -> bool {
    r is Err && r->Err_0.message@ == quoted(head, value)
}

/// Whether an optional identifier is acceptable.
pub open spec fn optional_ok(value: Option<String>) -> bool {
    match value {
        Some(v) => opaque_id_refusal(v@) is None,
        None => true,
    }
}

/// The text of an optional identifier that is not acceptable.
pub open spec fn bad_text(value: Option<String>) -> Seq<char> {
    match value {
        Some(v) => v@,
        None => Seq::empty(),
    }
}

/// Whether a converted optional identifier carries the wire text.
pub open spec fn carries_window(r: Option<WindowId>, value: Option<String>) -> bool {
    match (r, value) {
        (Some(id), Some(v)) => id@ == v@,
        (None, None) => true,
        _ => false,
    }
}

/// Whether a converted optional label carries the wire text.
pub open spec fn carries_webview(r: Option<WebviewLabel>, value: Option<String>) -> bool {
    match (r, value) {
        (Some(id), Some(v)) => id@ == v@,
        (None, None) => true,
        _ => false,
    }
}

/// Whether a converted optional ref carries the wire text.
pub open spec fn carries_element(r: Option<ElementRef>, value: Option<String>) -> bool {
    match (r, value) {
        (Some(id), Some(v)) => id@ == v@,
        (None, None) => true,
        _ => false,
    }
}

/// Parses an optional window target.
pub fn window_target(value: Option<String>) -> (r: Result<Option<WindowId>, InvalidParams>)
    ensures
        optional_ok(value) ==> r is Ok && carries_window(r->Ok_0, value),
        !optional_ok(value) ==> refused(r, "invalid window id "@, bad_text(value)),
{
    match value {
        None => Ok(None),
        Some(v) => match WindowId::new(v.as_str()) {
            Ok(id) => Ok(Some(id)),
            Err(_) => Err(invalid("invalid window id ", v.as_str())),
        },
    }
}

/// Parses an optional child-webview target.
pub fn webview_target(value: Option<String>) -> (r: Result<Option<WebviewLabel>, InvalidParams>)
    ensures
        optional_ok(value) ==> r is Ok && carries_webview(r->Ok_0, value),
        !optional_ok(value) ==> refused(r, "invalid webview label "@, bad_text(value)),
{
    match value {
        None => Ok(None),
        Some(v) => match WebviewLabel::new(v.as_str()) {
            Ok(id) => Ok(Some(id)),
            Err(_) => Err(invalid("invalid webview label ", v.as_str())),
        },
    }
}

/// Parses one element ref.
pub fn element_ref(value: &str) -> (r: Result<ElementRef, InvalidParams>)
    ensures
        opaque_id_refusal(value@) is None ==> r is Ok && r->Ok_0@ == value@,
        opaque_id_refusal(value@) is Some ==> refused(r, "invalid element ref "@, value@),
{
    match ElementRef::new(value) {
        Ok(id) => Ok(id),
        Err(_) => Err(invalid("invalid element ref ", value)),
    }
}

/// Parses an optional element ref.
pub fn optional_element(value: Option<String>) -> (r: Result<Option<ElementRef>, InvalidParams>)
    ensures
        optional_ok(value) ==> r is Ok && carries_element(r->Ok_0, value),
        !optional_ok(value) ==> refused(r, "invalid element ref "@, bad_text(value)),
{
    match value {
        None => Ok(None),
        Some(v) => match element_ref(v.as_str()) {
            Ok(id) => Ok(Some(id)),
            Err(e) => Err(e),
        },
    }
}

/// `snapshot` arguments.
pub struct SnapshotArgs {
    /// Window id to snapshot; omit for the frontmost window.
    pub window: Option<String>,
    /// Child webview label to snapshot; omit for the window's UI webview.
    pub webview: Option<String>,
}

impl SnapshotArgs {
    /// Validates into the vocabulary request.
    pub fn into_request(self) -> (r: Result<SnapshotRequest, InvalidParams>)
        ensures
            !optional_ok(self.window) ==> refused(r, "invalid window id "@, bad_text(self.window)),
            optional_ok(self.window) && !optional_ok(self.webview) ==> refused(
                r,
                "invalid webview label "@,
                bad_text(self.webview),
            ),
            optional_ok(self.window) && optional_ok(self.webview) ==> r is Ok && carries_window(
                r->Ok_0.window,
                self.window,
            ) && carries_webview(r->Ok_0.webview, self.webview),
    {
        let window = match window_target(self.window) {
            Ok(w) => w,
            Err(e) => return Err(e),
        };
        let webview = match webview_target(self.webview) {
            Ok(w) => w,
            Err(e) => return Err(e),
        };
        Ok(SnapshotRequest { window, webview })
    }
}

/// `click` arguments.
pub struct ClickArgs {
    /// Window id containing the element; omit for the frontmost window.
    pub window: Option<String>,
    /// Child webview label containing the element; omit for the UI webview.
    pub webview: Option<String>,
    /// Element ref from a prior snapshot.
    pub element: String,
}

/// The first refusal among a window, a webview and element refs, in order.
pub open spec fn targets_ok(window: Option<String>, webview: Option<String>) -> bool {
    optional_ok(window) && optional_ok(webview)
}

impl ClickArgs {
    /// Validates into the vocabulary request.
    pub fn into_request(self) -> (r: Result<ClickRequest, InvalidParams>)
        ensures
            !optional_ok(self.window) ==> refused(r, "invalid window id "@, bad_text(self.window)),
            optional_ok(self.window) && !optional_ok(self.webview) ==> refused(
                r,
                "invalid webview label "@,
                bad_text(self.webview),
            ),
            targets_ok(self.window, self.webview) && opaque_id_refusal(self.element@) is Some
                ==> refused(r, "invalid element ref "@, self.element@),
            targets_ok(self.window, self.webview) && opaque_id_refusal(self.element@) is None
                ==> r is Ok && carries_window(r->Ok_0.window, self.window) && carries_webview(
                r->Ok_0.webview,
                self.webview,
            ) && r->Ok_0.element@ == self.element@,
    {
        let window = match window_target(self.window) {
            Ok(w) => w,
            Err(e) => return Err(e),
        };
        let webview = match webview_target(self.webview) {
            Ok(w) => w,
            Err(e) => return Err(e),
        };
        let element = match element_ref(self.element.as_str()) {
            Ok(e) => e,
            Err(e) => return Err(e),
        };
        Ok(ClickRequest { window, webview, element })
    }
}

/// `type` arguments.
pub struct TypeArgs {
    /// Window id containing the element; omit for the frontmost window.
    pub window: Option<String>,
    /// Child webview label containing the element; omit for the UI webview.
    pub webview: Option<String>,
    /// Element ref from a prior snapshot.
    pub element: String,
    /// Text to enter.
    pub text: String,
}

impl TypeArgs {
    /// Validates into the vocabulary request.
    pub fn into_request(self) -> (r: Result<TypeRequest, InvalidParams>)
        ensures
            !optional_ok(self.window) ==> refused(r, "invalid window id "@, bad_text(self.window)),
            optional_ok(self.window) && !optional_ok(self.webview) ==> refused(
                r,
                "invalid webview label "@,
                bad_text(self.webview),
            ),
            targets_ok(self.window, self.webview) && opaque_id_refusal(self.element@) is Some
                ==> refused(r, "invalid element ref "@, self.element@),
            targets_ok(self.window, self.webview) && opaque_id_refusal(self.element@) is None
                ==> r is Ok && carries_window(r->Ok_0.window, self.window) && carries_webview(
                r->Ok_0.webview,
                self.webview,
            ) && r->Ok_0.element@ == self.element@ && r->Ok_0.text == self.text,
    {
        let window = match window_target(self.window) {
            Ok(w) => w,
            Err(e) => return Err(e),
        };
        let webview = match webview_target(self.webview) {
            Ok(w) => w,
            Err(e) => return Err(e),
        };
        let element = match element_ref(self.element.as_str()) {
            Ok(e) => e,
            Err(e) => return Err(e),
        };
        Ok(TypeRequest { window, webview, element, text: self.text })
    }
}

/// The modifier a wire name selects.
pub open spec fn modifier_named(name: Seq<char>) -> Option<KeyModifier> {
    if name == "alt"@ {
        Some(KeyModifier::Alt)
    } else if name == "control"@ {
        Some(KeyModifier::Control)
    } else if name == "meta"@ {
        Some(KeyModifier::Meta)
    } else if name == "shift"@ {
        Some(KeyModifier::Shift)
    } else {
        None
    }
}

/// Index of the first wire name that selects no modifier.
pub open spec fn first_unknown(names: Seq<Seq<char>>) -> Option<int>
    decreases names.len(),
{
    if names.len() == 0 {
        None
    } else if modifier_named(names[0]) is None {
        Some(0)
    } else {
        match first_unknown(names.drop_first()) {
            Some(i) => Some(i + 1),
            None => None,
        }
    }
}

/// Whether some wire name selects `m`.
pub open spec fn names_select(names: Seq<Seq<char>>, m: KeyModifier) -> bool {
    exists|i: int| 0 <= i < names.len() && modifier_named(#[trigger] names[i]) == Some(m)
}

/// The modifier set the wire names select, as a set in ascending order.
pub open spec fn modifier_set(names: Seq<Seq<char>>) -> Seq<KeyModifier> {
    let a = if names_select(names, KeyModifier::Alt) { seq![KeyModifier::Alt] } else { Seq::empty() };
    let c = if names_select(names, KeyModifier::Control) { seq![KeyModifier::Control] } else { Seq::empty() };
    let m = if names_select(names, KeyModifier::Meta) { seq![KeyModifier::Meta] } else { Seq::empty() };
    let s = if names_select(names, KeyModifier::Shift) { seq![KeyModifier::Shift] } else { Seq::empty() };
    a + c + m + s
}

/// Whether `name` is one of the four wire modifier names.
pub open spec fn known_modifier_name(name: Seq<char>) -> bool {
    name == "alt"@ || name == "control"@ || name == "meta"@ || name == "shift"@
}

proof fn lemma_modifier_names_distinct()
    ensures
        "alt"@ != "control"@,
        "alt"@ != "meta"@,
        "alt"@ != "shift"@,
        "control"@ != "meta"@,
        "control"@ != "shift"@,
        "meta"@ != "shift"@,
{
    reveal_strlit("alt");
    reveal_strlit("control");
    reveal_strlit("meta");
    reveal_strlit("shift");
    assert("alt"@.len() != "control"@.len());
    assert("alt"@.len() != "meta"@.len());
    assert("alt"@.len() != "shift"@.len());
    assert("control"@.len() != "meta"@.len());
    assert("control"@.len() != "shift"@.len());
    assert("meta"@.len() != "shift"@.len());
}

proof fn lemma_first_unknown_none(names: Seq<Seq<char>>)
    ensures
        first_unknown(names) is None <==> forall|i: int|
            0 <= i < names.len() ==> known_modifier_name(#[trigger] names[i]),
    decreases names.len(),
{
    lemma_modifier_names_distinct();
    if names.len() > 0 {
        lemma_first_unknown_none(names.drop_first());
        if first_unknown(names) is None {
            assert forall|i: int| 0 <= i < names.len() implies known_modifier_name(#[trigger] names[i]) by {
                if i > 0 {
                    assert(names[i] == names.drop_first()[i - 1]);
                }
            }
        }
        if forall|i: int| 0 <= i < names.len() ==> known_modifier_name(#[trigger] names[i]) {
            assert(known_modifier_name(names[0]));
            assert forall|i: int| 0 <= i < names.drop_first().len() implies known_modifier_name(
                #[trigger] names.drop_first()[i],
            ) by {
                assert(names.drop_first()[i] == names[i + 1]);
            }
        }
    }
}

/// Each wire modifier name selects its own modifier: the names are accepted
/// exactly when every one is `alt`, `control`, `meta` or `shift`, and then
/// the modifier set holds Alt, Control, Meta or Shift exactly when the
/// names hold `alt`, `control`, `meta` or `shift` respectively.
pub proof fn law_modifier_names_select_their_own_modifier(names: Seq<Seq<char>>)
    ensures
        first_unknown(names) is None <==> forall|i: int|
            0 <= i < names.len() ==> known_modifier_name(#[trigger] names[i]),
        first_unknown(names) is None ==> {
            &&& modifier_set(names).contains(KeyModifier::Alt) <==> names.contains("alt"@)
            &&& modifier_set(names).contains(KeyModifier::Control) <==> names.contains("control"@)
            &&& modifier_set(names).contains(KeyModifier::Meta) <==> names.contains("meta"@)
            &&& modifier_set(names).contains(KeyModifier::Shift) <==> names.contains("shift"@)
        },
{
    lemma_first_unknown_none(names);
    lemma_modifier_names_distinct();
    let set = modifier_set(names);
    let a = if names_select(names, KeyModifier::Alt) { seq![KeyModifier::Alt] } else { Seq::empty() };
    let c = if names_select(names, KeyModifier::Control) { seq![KeyModifier::Control] } else { Seq::empty() };
    let m = if names_select(names, KeyModifier::Meta) { seq![KeyModifier::Meta] } else { Seq::empty() };
    let s = if names_select(names, KeyModifier::Shift) { seq![KeyModifier::Shift] } else { Seq::empty() };
    assert(set == a + c + m + s);
    assert forall|k: KeyModifier| set.contains(k) <==> names_select(names, k) by {
        if names_select(names, k) {
            match k {
                KeyModifier::Alt => assert(set[0] == k),
                KeyModifier::Control => assert(set[a.len() as int] == k),
                KeyModifier::Meta => assert(set[(a.len() + c.len()) as int] == k),
                KeyModifier::Shift => assert(set[(a.len() + c.len() + m.len()) as int] == k),
            }
        }
        if set.contains(k) {
            let j = choose|j: int| 0 <= j < set.len() && set[j] == k;
            if j < a.len() {
                assert(set[j] == a[j]);
            } else if j < a.len() + c.len() {
                assert(set[j] == c[j - a.len()]);
            } else if j < a.len() + c.len() + m.len() {
                assert(set[j] == m[j - a.len() - c.len()]);
            } else {
                assert(set[j] == s[j - a.len() - c.len() - m.len()]);
            }
        }
    }
    assert forall|t: Seq<char>, k: KeyModifier|
        known_modifier_name(t) && modifier_named(t) == Some(k) implies (t == "alt"@ <==> k
        == KeyModifier::Alt) && (t == "control"@ <==> k == KeyModifier::Control) && (t == "meta"@
        <==> k == KeyModifier::Meta) && (t == "shift"@ <==> k == KeyModifier::Shift) by {}
    if names.contains("meta"@) {
        let i = choose|i: int| 0 <= i < names.len() && names[i] == "meta"@;
        assert(modifier_named(names[i]) == Some(KeyModifier::Meta));
    }
    if names.contains("alt"@) {
        let i = choose|i: int| 0 <= i < names.len() && names[i] == "alt"@;
        assert(modifier_named(names[i]) == Some(KeyModifier::Alt));
    }
    if names.contains("control"@) {
        let i = choose|i: int| 0 <= i < names.len() && names[i] == "control"@;
        assert(modifier_named(names[i]) == Some(KeyModifier::Control));
    }
    if names.contains("shift"@) {
        let i = choose|i: int| 0 <= i < names.len() && names[i] == "shift"@;
        assert(modifier_named(names[i]) == Some(KeyModifier::Shift));
    }
    if names_select(names, KeyModifier::Meta) {
        let i = choose|i: int| 0 <= i < names.len() && modifier_named(#[trigger] names[i]) == Some(KeyModifier::Meta);
        assert(names[i] == "meta"@);
    }
    if names_select(names, KeyModifier::Alt) {
        let i = choose|i: int| 0 <= i < names.len() && modifier_named(#[trigger] names[i]) == Some(KeyModifier::Alt);
        assert(names[i] == "alt"@);
    }
    if names_select(names, KeyModifier::Control) {
        let i = choose|i: int| 0 <= i < names.len() && modifier_named(#[trigger] names[i]) == Some(KeyModifier::Control);
        assert(names[i] == "control"@);
    }
    if names_select(names, KeyModifier::Shift) {
        let i = choose|i: int| 0 <= i < names.len() && modifier_named(#[trigger] names[i]) == Some(KeyModifier::Shift);
        assert(names[i] == "shift"@);
    }
}

/// Collects wire modifier names into the modifier set, refusing the first
/// unknown name.
pub fn modifiers_from_names(names: &Vec<String>) -> (r: Result<Vec<KeyModifier>, InvalidParams>)
    ensures
        match first_unknown(names@.map_values(|s: String| s@)) {
            Some(i) => refused(r, "unknown key modifier "@, names@[i]@),
            None => r is Ok && r->Ok_0@ == modifier_set(names@.map_values(|s: String| s@)),
        },
        r is Ok <==> forall|i: int|
            0 <= i < names@.len() ==> known_modifier_name(#[trigger] names@[i]@),
        r is Ok ==> (r->Ok_0@.contains(KeyModifier::Meta) <==> names@.map_values(|s: String| s@).contains("meta"@)),
        r is Ok ==> (r->Ok_0@.contains(KeyModifier::Control) <==> names@.map_values(|s: String| s@).contains("control"@)),
        r is Ok ==> (r->Ok_0@.contains(KeyModifier::Alt) <==> names@.map_values(|s: String| s@).contains("alt"@)),
        r is Ok ==> (r->Ok_0@.contains(KeyModifier::Shift) <==> names@.map_values(|s: String| s@).contains("shift"@)),
{
    let ghost views = names@.map_values(|s: String| s@);
    proof {
        law_modifier_names_select_their_own_modifier(views);
        assert forall|i: int| 0 <= i < names@.len() implies views[i] == #[trigger] names@[i]@ by {}
    }
    let mut alt = false;
    let mut control = false;
    let mut meta = false;
    let mut shift = false;
    let mut i: usize = 0;
    assert(views.skip(0) == views);
    while i < names.len()
        invariant
            i <= names@.len(),
            views == names@.map_values(|s: String| s@),
            forall|k: int| 0 <= k < i ==> modifier_named(#[trigger] views[k]) is Some,
            first_unknown(views) == match first_unknown(views.skip(i as int)) {
                Some(j) => Some(j + i),
                None => None,
            },
            alt == names_select(views.take(i as int), KeyModifier::Alt),
            control == names_select(views.take(i as int), KeyModifier::Control),
            meta == names_select(views.take(i as int), KeyModifier::Meta),
            shift == names_select(views.take(i as int), KeyModifier::Shift),
        decreases names@.len() - i,
    {
        let name = names[i].as_str();
        let ghost prefix = views.take(i + 1);
        proof {
            assert(views[i as int] == name@);
            assert(views.skip(i as int)[0] == views[i as int]);
            assert(views.skip(i as int).drop_first() == views.skip(i + 1));
            assert(prefix[i as int] == name@);
            assert forall|k: int| 0 <= k < i implies prefix[k] == views.take(i as int)[k] by {}
        }
        if str_eq(name, "alt") {
            alt = true;
        } else if str_eq(name, "control") {
            control = true;
        } else if str_eq(name, "meta") {
            meta = true;
        } else if str_eq(name, "shift") {
            shift = true;
        } else {
            return Err(invalid("unknown key modifier ", name));
        }
        proof {
            let p = views.take(i as int);
            assert(names_select(prefix, KeyModifier::Alt) == (names_select(p, KeyModifier::Alt) || modifier_named(name@) == Some(KeyModifier::Alt)));
            assert(names_select(prefix, KeyModifier::Control) == (names_select(p, KeyModifier::Control) || modifier_named(name@) == Some(KeyModifier::Control)));
            assert(names_select(prefix, KeyModifier::Meta) == (names_select(p, KeyModifier::Meta) || modifier_named(name@) == Some(KeyModifier::Meta)));
            assert(names_select(prefix, KeyModifier::Shift) == (names_select(p, KeyModifier::Shift) || modifier_named(name@) == Some(KeyModifier::Shift)));
        }
        i += 1;
    }
    assert(views.take(views.len() as int) == views);
    let mut set: Vec<KeyModifier> = Vec::new();
    if alt {
        set.push(KeyModifier::Alt);
    }
    if control {
        set.push(KeyModifier::Control);
    }
    if meta {
        set.push(KeyModifier::Meta);
    }
    if shift {
        set.push(KeyModifier::Shift);
    }
    assert(set@ =~= modifier_set(views));
    Ok(set)
}

/// `press` arguments.
pub struct PressArgs {
    /// Window id containing the element; omit for the frontmost window.
    pub window: Option<String>,
    /// Child webview label containing the element; omit for the UI webview.
    pub webview: Option<String>,
    /// Element ref to dispatch against; omit for the focused element.
    pub element: Option<String>,
    /// Key name, e.g. `Enter`, `Escape`, `a`.
    pub key: String,
    /// Modifiers held during the press: `alt`, `control`, `meta`, `shift`.
    pub modifiers: Vec<String>,
}

impl PressArgs {
    /// Validates into the vocabulary request: modifiers first, then window,
    /// webview, and element.
    pub fn into_request(self) -> (r: Result<PressRequest, InvalidParams>)
        ensures
            ({
                let names = self.modifiers@.map_values(|s: String| s@);
                match first_unknown(names) {
                    Some(i) => refused(r, "unknown key modifier "@, self.modifiers@[i]@),
                    None => if !optional_ok(self.window) {
                        refused(r, "invalid window id "@, bad_text(self.window))
                    } else if !optional_ok(self.webview) {
                        refused(r, "invalid webview label "@, bad_text(self.webview))
                    } else if !optional_ok(self.element) {
                        refused(r, "invalid element ref "@, bad_text(self.element))
                    } else {
                        r is Ok && carries_window(r->Ok_0.window, self.window) && carries_webview(
                            r->Ok_0.webview,
                            self.webview,
                        ) && carries_element(r->Ok_0.element, self.element) && r->Ok_0.key
                            == self.key && r->Ok_0.modifiers@ == modifier_set(names)
                    },
                }
            }),
    {
        let modifiers = match modifiers_from_names(&self.modifiers) {
            Ok(m) => m,
            Err(e) => return Err(e),
        };
        let window = match window_target(self.window) {
            Ok(w) => w,
            Err(e) => return Err(e),
        };
        let webview = match webview_target(self.webview) {
            Ok(w) => w,
            Err(e) => return Err(e),
        };
        let element = match optional_element(self.element) {
            Ok(e) => e,
            Err(e) => return Err(e),
        };
        Ok(PressRequest { window, webview, element, key: self.key, modifiers })
    }
}

/// `scroll` arguments.
pub struct ScrollArgs {
    /// Window id containing the element; omit for the frontmost window.
    pub window: Option<String>,
    /// Child webview label to scroll; omit for the UI webview.
    pub webview: Option<String>,
    /// Element ref to scroll; omit to scroll the document.
    pub element: Option<String>,
    /// Horizontal delta in logical pixels.
    pub delta_x: i32,
    /// Vertical delta in logical pixels.
    pub delta_y: i32,
}

impl ScrollArgs {
    /// Validates into the vocabulary request.
    pub fn into_request(self) -> (r: Result<ScrollRequest, InvalidParams>)
        ensures
            !optional_ok(self.window) ==> refused(r, "invalid window id "@, bad_text(self.window)),
            optional_ok(self.window) && !optional_ok(self.webview) ==> refused(
                r,
                "invalid webview label "@,
                bad_text(self.webview),
            ),
            targets_ok(self.window, self.webview) && !optional_ok(self.element) ==> refused(
                r,
                "invalid element ref "@,
                bad_text(self.element),
            ),
            targets_ok(self.window, self.webview) && optional_ok(self.element) ==> r is Ok
                && carries_window(r->Ok_0.window, self.window) && carries_webview(
                r->Ok_0.webview,
                self.webview,
            ) && carries_element(r->Ok_0.element, self.element) && r->Ok_0.delta_x == self.delta_x
                && r->Ok_0.delta_y == self.delta_y,
    {
        let window = match window_target(self.window) {
            Ok(w) => w,
            Err(e) => return Err(e),
        };
        let webview = match webview_target(self.webview) {
            Ok(w) => w,
            Err(e) => return Err(e),
        };
        let element = match optional_element(self.element) {
            Ok(e) => e,
            Err(e) => return Err(e),
        };
        Ok(ScrollRequest { window, webview, element, delta_x: self.delta_x, delta_y: self.delta_y })
    }
}

/// `drag` arguments. Synthetic in-page events only.
pub struct DragArgs {
    /// Window id containing the elements; omit for the frontmost window.
    pub window: Option<String>,
    /// Child webview label containing the elements; omit for the UI webview.
    pub webview: Option<String>,
    /// Element ref the drag starts on.
    pub source: String,
    /// Element ref the drag ends on.
    pub target: String,
}

impl DragArgs {
    /// Validates into the vocabulary request.
    pub fn into_request(self) -> (r: Result<DragRequest, InvalidParams>)
        ensures
            !optional_ok(self.window) ==> refused(r, "invalid window id "@, bad_text(self.window)),
            optional_ok(self.window) && !optional_ok(self.webview) ==> refused(
                r,
                "invalid webview label "@,
                bad_text(self.webview),
            ),
            targets_ok(self.window, self.webview) && opaque_id_refusal(self.source@) is Some
                ==> refused(r, "invalid element ref "@, self.source@),
            targets_ok(self.window, self.webview) && opaque_id_refusal(self.source@) is None
                && opaque_id_refusal(self.target@) is Some ==> refused(
                r,
                "invalid element ref "@,
                self.target@,
            ),
            targets_ok(self.window, self.webview) && opaque_id_refusal(self.source@) is None
                && opaque_id_refusal(self.target@) is None ==> r is Ok && carries_window(
                r->Ok_0.window,
                self.window,
            ) && carries_webview(r->Ok_0.webview, self.webview) && r->Ok_0.source@ == self.source@
                && r->Ok_0.target@ == self.target@,
    {
        let window = match window_target(self.window) {
            Ok(w) => w,
            Err(e) => return Err(e),
        };
        let webview = match webview_target(self.webview) {
            Ok(w) => w,
            Err(e) => return Err(e),
        };
        let source = match element_ref(self.source.as_str()) {
            Ok(e) => e,
            Err(e) => return Err(e),
        };
        let target = match element_ref(self.target.as_str()) {
            Ok(e) => e,
            Err(e) => return Err(e),
        };
        Ok(DragRequest { window, webview, source, target })
    }
}

/// `evaluate` arguments.
pub struct EvaluateArgs {
    /// Window id to evaluate in; omit for the frontmost window.
    pub window: Option<String>,
    /// Child webview label to evaluate in; omit for the UI webview.
    pub webview: Option<String>,
    /// JavaScript source evaluated in the page's main world.
    pub js: String,
}

impl EvaluateArgs {
    /// Validates into the vocabulary request.
    pub fn into_request(self) -> (r: Result<EvaluateRequest, InvalidParams>)
        ensures
            !optional_ok(self.window) ==> refused(r, "invalid window id "@, bad_text(self.window)),
            optional_ok(self.window) && !optional_ok(self.webview) ==> refused(
                r,
                "invalid webview label "@,
                bad_text(self.webview),
            ),
            targets_ok(self.window, self.webview) ==> r is Ok && carries_window(
                r->Ok_0.window,
                self.window,
            ) && carries_webview(r->Ok_0.webview, self.webview) && r->Ok_0.js == self.js,
    {
        let window = match window_target(self.window) {
            Ok(w) => w,
            Err(e) => return Err(e),
        };
        let webview = match webview_target(self.webview) {
            Ok(w) => w,
            Err(e) => return Err(e),
        };
        Ok(EvaluateRequest { window, webview, js: self.js })
    }
}

/// `wait_for` predicate, wire shape. DOM-relative only.
pub enum WaitPredicateArgs {
    /// Holds when the ref resolves against the live DOM.
    RefResolve {
        /// Element ref expected to resolve.
        element: String,
    },
    /// Holds when the ref no longer resolves against the live DOM.
    RefAbsent {
        /// Element ref expected to be gone.
        element: String,
    },
    /// Holds when the page URL contains the needle.
    PageUrlContains {
        /// Substring expected in the URL.
        needle: String,
    },
    /// Holds when the page title contains the needle.
    PageTitleContains {
        /// Substring expected in the title.
        needle: String,
    },
}

/// The element ref a wire predicate names, if any.
pub open spec fn predicate_ref(p: WaitPredicateArgs) -> Option<Seq<char>> {
    match p {
        WaitPredicateArgs::RefResolve { element } => Some(element@),
        WaitPredicateArgs::RefAbsent { element } => Some(element@),
        _ => None,
    }
}

/// Whether a converted predicate is the wire predicate.
pub open spec fn same_predicate(r: WaitPredicate, p: WaitPredicateArgs) -> bool {
    match (r, p) {
        (WaitPredicate::RefResolve { element: e }, WaitPredicateArgs::RefResolve { element: w }) => e@ == w@,
        (WaitPredicate::RefAbsent { element: e }, WaitPredicateArgs::RefAbsent { element: w }) => e@ == w@,
        (WaitPredicate::PageUrlContains { needle: n }, WaitPredicateArgs::PageUrlContains { needle: w }) => n == w,
        (WaitPredicate::PageTitleContains { needle: n }, WaitPredicateArgs::PageTitleContains { needle: w }) => n == w,
        _ => false,
    }
}

/// `wait_for` arguments.
pub struct WaitForArgs {
    /// Window id to wait in; omit for the frontmost window.
    pub window: Option<String>,
    /// Child webview label to wait in; omit for the UI webview.
    pub webview: Option<String>,
    /// DOM-relative predicate to await.
    pub predicate: WaitPredicateArgs,
    /// Hard bound in milliseconds.
    pub timeout_ms: u32,
}

impl WaitForArgs {
    /// Validates into the vocabulary request: the predicate's ref first,
    /// then window and webview.
    pub fn into_request(self) -> (r: Result<WaitForRequest, InvalidParams>)
        ensures
            ({
                let bad_ref = match predicate_ref(self.predicate) {
                    Some(e) => opaque_id_refusal(e) is Some,
                    None => false,
                };
                if bad_ref {
                    refused(r, "invalid element ref "@, predicate_ref(self.predicate)->Some_0)
                } else if !optional_ok(self.window) {
                    refused(r, "invalid window id "@, bad_text(self.window))
                } else if !optional_ok(self.webview) {
                    refused(r, "invalid webview label "@, bad_text(self.webview))
                } else {
                    r is Ok && carries_window(r->Ok_0.window, self.window) && carries_webview(
                        r->Ok_0.webview,
                        self.webview,
                    ) && same_predicate(r->Ok_0.predicate, self.predicate) && r->Ok_0.timeout_ms
                        == self.timeout_ms
                }
            }),
    {
        let ghost wire = self.predicate;
        let predicate = match self.predicate {
            WaitPredicateArgs::RefResolve { element } => match element_ref(element.as_str()) {
                Ok(e) => WaitPredicate::RefResolve { element: e },
                Err(e) => return Err(e),
            },
            WaitPredicateArgs::RefAbsent { element } => match element_ref(element.as_str()) {
                Ok(e) => WaitPredicate::RefAbsent { element: e },
                Err(e) => return Err(e),
            },
            WaitPredicateArgs::PageUrlContains { needle } => WaitPredicate::PageUrlContains {
                needle,
            },
            WaitPredicateArgs::PageTitleContains { needle } => WaitPredicate::PageTitleContains {
                needle,
            },
        };
        assert(same_predicate(predicate, wire));
        let window = match window_target(self.window) {
            Ok(w) => w,
            Err(e) => return Err(e),
        };
        let webview = match webview_target(self.webview) {
            Ok(w) => w,
            Err(e) => return Err(e),
        };
        Ok(WaitForRequest { window, webview, predicate, timeout_ms: self.timeout_ms })
    }
}

/// `screenshot` arguments.
pub struct ScreenshotArgs {
    /// Window id to capture; omit for the frontmost window.
    pub window: Option<String>,
}

impl ScreenshotArgs {
    /// Validates into the vocabulary request.
    pub fn into_request(self) -> (r: Result<ScreenshotRequest, InvalidParams>)
        ensures
            !optional_ok(self.window) ==> refused(r, "invalid window id "@, bad_text(self.window)),
            optional_ok(self.window) ==> r is Ok && carries_window(r->Ok_0.window, self.window),
    {
        let window = match window_target(self.window) {
            Ok(w) => w,
            Err(e) => return Err(e),
        };
        Ok(ScreenshotRequest { window })
    }
}

/// Parses a command id.
pub fn command_id(value: &str) -> (r: Result<CommandId, InvalidParams>)
    ensures
        opaque_id_refusal(value@) is None ==> r is Ok && r->Ok_0@ == value@,
        opaque_id_refusal(value@) is Some ==> refused(r, "invalid command id "@, value@),
{
    match CommandId::new(value) {
        Ok(id) => Ok(id),
        Err(_) => Err(invalid("invalid command id ", value)),
    }
}

/// `command` arguments.
pub struct CommandArgs {
    /// Command id to invoke.
    pub command: String,
    /// Command argument payload, when the command takes one.
    pub argument: Option<Json>,
}

impl CommandArgs {
    /// Validates into the vocabulary request; the payload passes as it is.
    pub fn into_request(self) -> (r: Result<CommandRequest, InvalidParams>)
        ensures
            opaque_id_refusal(self.command@) is None ==> r is Ok && r->Ok_0.command@
                == self.command@ && r->Ok_0.argument == self.argument,
            opaque_id_refusal(self.command@) is Some ==> refused(
                r,
                "invalid command id "@,
                self.command@,
            ),
    {
        let command = match command_id(self.command.as_str()) {
            Ok(id) => id,
            Err(e) => return Err(e),
        };
        Ok(CommandRequest { command, argument: self.argument })
    }
}

} // verus!
