//! Observability resources that ride `subscriptions/listen`: console
//! messages, page errors, and navigations, each one resource, and the listen
//! cursor that walks them.

use vstd::prelude::*;
use crate::control::headers::copy_items;
use crate::control::json::{
    as_str_spec, as_u64_spec, get_spec, json_items, json_members, lemma_items_view,
    lemma_members_view, Json, JsonView,
};
use crate::text::{decimal, decimal_string, owned, push_str, str_eq};

verus! {

/// Console messages captured by the in-page shim.
pub const CONSOLE_URI: &'static str = "longhorn://agent-control/console";

/// Uncaught page errors and unhandled rejections.
pub const ERROR_URI: &'static str = "longhorn://agent-control/error";

/// Same-document navigations.
pub const NAVIGATION_URI: &'static str = "longhorn://agent-control/navigation";

/// Pending file and folder selections.
pub const SELECTION_URI: &'static str = "longhorn://agent-control/selection";

/// The event kind each resource carries, by its URI.
pub open spec fn kind_of_uri(uri: Seq<char>) -> Option<Seq<char>> {
    if uri == CONSOLE_URI@ {
        Some("console"@)
    } else if uri == ERROR_URI@ {
        Some("error"@)
    } else if uri == NAVIGATION_URI@ {
        Some("navigation"@)
    } else {
        None
    }
}

/// The resource URI carrying each event kind.
pub open spec fn uri_of_kind(kind: Seq<char>) -> Option<Seq<char>> {
    if kind == "console"@ {
        Some(CONSOLE_URI@)
    } else if kind == "error"@ {
        Some(ERROR_URI@)
    } else if kind == "navigation"@ {
        Some(NAVIGATION_URI@)
    } else {
        None
    }
}

/// Whether `uri` names one of the event resources.
pub fn known_uri(uri: &str) -> (r: bool)
    ensures
        r == kind_of_uri(uri@) is Some,
{
    str_eq(uri, CONSOLE_URI) || str_eq(uri, ERROR_URI) || str_eq(uri, NAVIGATION_URI)
}

/// The event kind the resource `uri` carries.
pub fn kind_for_uri(uri: &str) -> (r: Option<&'static str>)
    ensures
        match kind_of_uri(uri@) {
            Some(k) => r is Some && r->Some_0@ == k,
            None => r is None,
        },
{
    if str_eq(uri, CONSOLE_URI) {
        Some("console")
    } else if str_eq(uri, ERROR_URI) {
        Some("error")
    } else if str_eq(uri, NAVIGATION_URI) {
        Some("navigation")
    } else {
        None
    }
}

/// The resource URI carrying events of `kind`.
pub fn uri_for_kind(kind: &str) -> (r: Option<&'static str>)
    ensures
        match uri_of_kind(kind@) {
            Some(u) => r is Some && r->Some_0@ == u,
            None => r is None,
        },
{
    if str_eq(kind, "console") {
        Some(CONSOLE_URI)
    } else if str_eq(kind, "error") {
        Some(ERROR_URI)
    } else if str_eq(kind, "navigation") {
        Some(NAVIGATION_URI)
    } else {
        None
    }
}

/// Event resources and event kinds map onto each other both ways: the
/// resource of a resource's kind is that resource, and the kind of a kind's
/// resource is that kind.
pub proof fn law_event_resources_round_trip(uri: Seq<char>, kind: Seq<char>)
    ensures
        kind_of_uri(uri) matches Some(k) ==> uri_of_kind(k) == Some(uri),
        uri_of_kind(kind) matches Some(u) ==> kind_of_uri(u) == Some(kind),
{
    reveal_strlit("longhorn://agent-control/console");
    reveal_strlit("longhorn://agent-control/error");
    reveal_strlit("longhorn://agent-control/navigation");
    reveal_strlit("console");
    reveal_strlit("error");
    reveal_strlit("navigation");
    assert(CONSOLE_URI@.len() != ERROR_URI@.len());
    assert(CONSOLE_URI@.len() != NAVIGATION_URI@.len());
    assert(ERROR_URI@.len() != NAVIGATION_URI@.len());
    assert("console"@.len() != "error"@.len());
    assert("console"@.len() != "navigation"@.len());
    assert("error"@.len() != "navigation"@.len());
}

/// One event resource as listed to clients.
pub struct ResourceInfo {
    /// The resource URI.
    pub uri: &'static str,
    /// Its short name.
    pub name: &'static str,
    /// What it holds.
    pub description: &'static str,
    /// The media type of its body.
    pub mime_type: &'static str,
}

/// The view of a listed resource: URI, name, description, media type.
pub open spec fn resource_view(r: ResourceInfo) -> (Seq<char>, Seq<char>, Seq<char>, Seq<char>) {
    (r.uri@, r.name@, r.description@, r.mime_type@)
}

/// The event resources, in listing order.
pub open spec fn listed_resources() -> Seq<(Seq<char>, Seq<char>, Seq<char>, Seq<char>)> {
    seq![
        (CONSOLE_URI@, "console"@, "Console output captured in the page"@, "application/json"@),
        (ERROR_URI@, "page-error"@, "Uncaught page errors and unhandled rejections"@, "application/json"@),
        (NAVIGATION_URI@, "navigation"@, "In-page navigation events"@, "application/json"@),
    ]
}

/// Lists the event resources: console output, page errors, navigations.
pub fn all_resources() -> (r: Vec<ResourceInfo>)
    ensures
        r@.map_values(|x: ResourceInfo| resource_view(x)) == listed_resources(),
{
    let r = vec![
        ResourceInfo {
            uri: CONSOLE_URI,
            name: "console",
            description: "Console output captured in the page",
            mime_type: "application/json",
        },
        ResourceInfo {
            uri: ERROR_URI,
            name: "page-error",
            description: "Uncaught page errors and unhandled rejections",
            mime_type: "application/json",
        },
        ResourceInfo {
            uri: NAVIGATION_URI,
            name: "navigation",
            description: "In-page navigation events",
            mime_type: "application/json",
        },
    ];
    assert(r@.map_values(|x: ResourceInfo| resource_view(x)) =~= listed_resources());
    r
}

/// The `seq` number an event carries, when it carries one as a `u64`.
pub open spec fn event_seq(event: JsonView) -> Option<nat> {
    match get_spec(event, "seq"@) {
        Some(v) => as_u64_spec(v),
        None => None,
    }
}

/// The largest `seq` the events carry, if any carries one.
pub open spec fn max_seq(events: Seq<JsonView>) -> Option<nat>
    decreases events.len(),
{
    if events.len() == 0 {
        None
    } else {
        match (max_seq(events.drop_last()), event_seq(events.last())) {
            (Some(a), Some(b)) => Some(if a >= b { a } else { b }),
            (Some(a), None) => Some(a),
            (None, last) => last,
        }
    }
}

/// The cursor after a batch: its largest `seq`, or `previous` when it
/// carries none.
pub open spec fn cursor_after(previous: nat, events: Seq<JsonView>) -> nat {
    match max_seq(events) {
        Some(m) => m,
        None => previous,
    }
}

/// Advances the listen cursor past a delivered batch: the largest `seq`
/// the batch carries, or `previous` when it carries none. The ring's next
/// sequence number is never the cursor.
pub fn advance_listen_cursor(previous: u64, events: &Vec<Json>) -> (r: u64)
    ensures
        r == cursor_after(previous as nat, json_items(events@)),
{
    proof {
        lemma_items_view(events@);
    }
    let ghost views = json_items(events@);
    let mut best: Option<u64> = None;
    let mut i: usize = 0;
    while i < events.len()
        invariant
            i <= events@.len(),
            views == json_items(events@),
            views.len() == events@.len(),
            forall|k: int| 0 <= k < events@.len() ==> #[trigger] views[k] == events@[k]@,
            match max_seq(views.take(i as int)) {
                Some(m) => best is Some && best->Some_0 as nat == m,
                None => best is None,
            },
        decreases events@.len() - i,
    {
        let ghost prefix = views.take(i + 1);
        proof {
            assert(prefix.drop_last() == views.take(i as int));
            assert(prefix.last() == views[i as int]);
            assert(views[i as int] == events@[i as int]@);
        }
        let seq = match events[i].get("seq") {
            Some(v) => v.as_u64(),
            None => None,
        };
        proof {
            match seq {
                Some(s) => assert(event_seq(prefix.last()) == Some(s as nat)),
                None => assert(event_seq(prefix.last()) is None),
            }
        }
        match seq {
            Some(s) => {
                best = match best {
                    Some(b) => if b >= s {
                        Some(b)
                    } else {
                        Some(s)
                    },
                    None => Some(s),
                };
            },
            None => {},
        }
        i += 1;
    }
    assert(views.take(views.len() as int) == views);
    match best {
        Some(b) => b,
        None => previous,
    }
}

/// The page script that reads the in-page event ring after `since`: the
/// ring's JSON when the shim is installed, else an empty batch whose next
/// sequence number is `since`.
pub open spec fn read_events_script_text(since: nat) -> Seq<char> {
    "JSON.stringify(globalThis.__longhornAgentControl ? globalThis.__longhornAgentControl.readEvents("@
        + decimal(since) + ") : {events:[], nextSeq:"@ + decimal(since) + ", dropped:0})"@
}

/// The page script that reads the event ring after `since_seq`.
pub fn read_events_script(since_seq: u64) -> (r: String)
    ensures
        r@ == read_events_script_text(since_seq as nat),
{
    let digits = decimal_string(since_seq);
    let mut out = owned(
        "JSON.stringify(globalThis.__longhornAgentControl ? globalThis.__longhornAgentControl.readEvents(",
    );
    push_str(&mut out, digits.as_str());
    push_str(&mut out, ") : {events:[], nextSeq:");
    push_str(&mut out, digits.as_str());
    push_str(&mut out, ", dropped:0})");
    out
}

/// One read of the event ring: the events, the ring's next sequence
/// number, and how many events it dropped.
pub struct EventBatch {
    /// The events, in ring order.
    pub events: Vec<Json>,
    /// The sequence number the ring assigns next.
    pub next_seq: u64,
    /// Events the ring dropped.
    pub dropped: u64,
}

/// The `events` array of a ring reply; empty when it has none.
pub open spec fn batch_events(reply: JsonView) -> Seq<JsonView> {
    match get_spec(reply, "events"@) {
        Some(JsonView::Array(items)) => items,
        _ => Seq::empty(),
    }
}

/// The `u64` member `key` of a ring reply, or `default`.
pub open spec fn count_member(reply: JsonView, key: Seq<char>, default: nat) -> nat {
    match get_spec(reply, key) {
        Some(v) => match as_u64_spec(v) {
            Some(n) => n,
            None => default,
        },
        None => default,
    }
}

fn count_or(reply: &Json, key: &str, default: u64) -> (r: u64)
    ensures
        r == count_member(reply@, key@, default as nat),
{
    match reply.get(key) {
        Some(v) => match v.as_u64() {
            Some(n) => n,
            None => default,
        },
        None => default,
    }
}

/// Reads a parsed ring reply: its `events` array (empty without one), its
/// `nextSeq` (else `since_seq`), and its `dropped` count (else 0).
pub fn event_batch(reply: &Json, since_seq: u64) -> (r: EventBatch)
    ensures
        json_items(r.events@) == batch_events(reply@),
        r.next_seq == count_member(reply@, "nextSeq"@, since_seq as nat),
        r.dropped == count_member(reply@, "dropped"@, 0),
{
    let events = match reply.get("events") {
        Some(Json::Array(items)) => copy_items(items),
        _ => {
            let none: Vec<Json> = Vec::new();
            proof {
                lemma_items_view(none@);
                assert(json_items(none@) =~= Seq::<JsonView>::empty());
            }
            none
        },
    };
    EventBatch {
        events,
        next_seq: count_or(reply, "nextSeq", since_seq),
        dropped: count_or(reply, "dropped", 0),
    }
}

/// The `kind` text an event carries.
pub open spec fn event_kind(event: JsonView) -> Option<Seq<char>> {
    match get_spec(event, "kind"@) {
        Some(v) => as_str_spec(v),
        None => None,
    }
}

/// The events of `kind`, in order.
pub open spec fn events_of_kind(events: Seq<JsonView>, kind: Seq<char>) -> Seq<JsonView>
    decreases events.len(),
{
    if events.len() == 0 {
        Seq::empty()
    } else {
        let rest = events_of_kind(events.drop_last(), kind);
        if event_kind(events.last()) == Some(kind) {
            rest.push(events.last())
        } else {
            rest
        }
    }
}

/// The body of an event resource: its events, the ring's next sequence
/// number, and the drop count.
pub open spec fn resource_body_view(events: Seq<JsonView>, next_seq: nat, dropped: nat) -> JsonView {
    JsonView::Object(
        seq![
            ("events"@, JsonView::Array(events)),
            ("nextSeq"@, JsonView::Number(decimal(next_seq))),
            ("dropped"@, JsonView::Number(decimal(dropped))),
        ],
    )
}

fn has_kind(event: &Json, kind: &str) -> (r: bool)
    ensures
        r == (event_kind(event@) == Some(kind@)),
{
    match event.get("kind") {
        Some(v) => match v.as_str() {
            Some(t) => str_eq(t, kind),
            None => false,
        },
        None => false,
    }
}

/// The body of the event resource `uri` over one ring read: the events of
/// the resource's kind, with the ring's counters. `None` for a URI that
/// names no event resource.
pub fn event_resource_body(uri: &str, batch: &EventBatch) -> (r: Option<Json>)
    ensures
        match kind_of_uri(uri@) {
            Some(k) => r is Some && r->Some_0@ == resource_body_view(
                events_of_kind(json_items(batch.events@), k),
                batch.next_seq as nat,
                batch.dropped as nat,
            ),
            None => r is None,
        },
{
    let kind = match kind_for_uri(uri) {
        Some(k) => k,
        None => return None,
    };
    proof {
        lemma_items_view(batch.events@);
    }
    let ghost views = json_items(batch.events@);
    let mut kept: Vec<Json> = Vec::new();
    let mut i: usize = 0;
    proof {
        lemma_items_view(kept@);
        assert(views.take(0) =~= Seq::<JsonView>::empty());
    }
    while i < batch.events.len()
        invariant
            i <= batch.events@.len(),
            views == json_items(batch.events@),
            views.len() == batch.events@.len(),
            forall|k: int| 0 <= k < batch.events@.len() ==> #[trigger] views[k] == batch.events@[k]@,
            json_items(kept@) == events_of_kind(views.take(i as int), kind@),
        decreases batch.events@.len() - i,
    {
        let ghost before = kept@;
        let ghost prefix = views.take(i + 1);
        proof {
            assert(prefix.drop_last() == views.take(i as int));
            assert(prefix.last() == batch.events@[i as int]@);
        }
        if has_kind(&batch.events[i], kind) {
            kept.push(crate::control::headers::copy_json(&batch.events[i]));
            proof {
                lemma_items_view(before);
                lemma_items_view(kept@);
                assert(json_items(kept@) =~= json_items(before).push(prefix.last()));
            }
        }
        i += 1;
    }
    proof {
        assert(views.take(views.len() as int) == views);
    }
    let members: Vec<(String, Json)> = vec![
        (owned("events"), Json::Array(kept)),
        (owned("nextSeq"), Json::Number(decimal_string(batch.next_seq))),
        (owned("dropped"), Json::Number(decimal_string(batch.dropped))),
    ];
    proof {
        lemma_members_view(members@);
        assert(json_members(members@) =~= seq![
            ("events"@, JsonView::Array(events_of_kind(views, kind@))),
            ("nextSeq"@, JsonView::Number(decimal(batch.next_seq as nat))),
            ("dropped"@, JsonView::Number(decimal(batch.dropped as nat))),
        ]);
    }
    Some(Json::Object(members))
}

/// What the listen loop keeps between ticks: the cursor past the events
/// already delivered, and the selection generation last announced.
pub struct ListenState {
    /// The largest event `seq` delivered so far.
    pub cursor: u64,
    /// The selection registry generation last announced.
    pub selection_generation: u64,
}

/// The resources a batch of events announces to a subscriber of `uris`,
/// in event order: each event's resource, when its kind has one and the
/// subscriber listens to it.
pub open spec fn announced(events: Seq<JsonView>, uris: Seq<Seq<char>>) -> Seq<Seq<char>>
    decreases events.len(),
{
    if events.len() == 0 {
        Seq::empty()
    } else {
        let rest = announced(events.drop_last(), uris);
        match event_kind(events.last()) {
            Some(k) => match uri_of_kind(k) {
                Some(u) => if uris.contains(u) {
                    rest.push(u)
                } else {
                    rest
                },
                None => rest,
            },
            None => rest,
        }
    }
}

/// Whether `uris` lists `uri`.
fn lists_uri(uris: &Vec<String>, uri: &str) -> (r: bool)
    ensures
        r == uris@.map_values(|s: String| s@).contains(uri@),
{
    let ghost views = uris@.map_values(|s: String| s@);
    let mut i: usize = 0;
    while i < uris.len()
        invariant
            i <= uris@.len(),
            views == uris@.map_values(|s: String| s@),
            forall|k: int| 0 <= k < i ==> #[trigger] views[k] != uri@,
        decreases uris@.len() - i,
    {
        if str_eq(uris[i].as_str(), uri) {
            assert(views[i as int] == uri@);
            return true;
        }
        i += 1;
    }
    false
}

/// One tick of the listen loop. When the subscriber listens to
/// [`SELECTION_URI`] and the selection generation moved, the selection
/// resource is announced first and the new generation kept. When the event
/// ring was read (`events`), the cursor advances past the batch and each
/// subscribed event resource is announced per event; an unread ring (no
/// page yet, or the read failed) leaves the cursor for the next tick.
pub fn listen_tick(
    state: &ListenState,
    subscribed: &Vec<String>,
    generation: u64,
    events: Option<&Vec<Json>>,
) -> (r: (ListenState, Vec<String>))
    ensures
        ({
            let uris = subscribed@.map_values(|s: String| s@);
            let changed = uris.contains(SELECTION_URI@) && generation != state.selection_generation;
            &&& r.0.selection_generation == (if changed {
                generation
            } else {
                state.selection_generation
            })
            &&& r.0.cursor == match events {
                Some(evs) => cursor_after(state.cursor as nat, json_items(evs@)),
                None => state.cursor as nat,
            }
            &&& r.1@.map_values(|s: String| s@) == (if changed {
                seq![SELECTION_URI@]
            } else {
                Seq::<Seq<char>>::empty()
            }) + match events {
                Some(evs) => announced(json_items(evs@), uris),
                None => Seq::<Seq<char>>::empty(),
            }
        }),
{
    let ghost uris = subscribed@.map_values(|s: String| s@);
    let mut notify: Vec<String> = Vec::new();
    let mut selection_generation = state.selection_generation;
    if lists_uri(subscribed, SELECTION_URI) && generation != state.selection_generation {
        selection_generation = generation;
        notify.push(owned(SELECTION_URI));
    }
    let ghost head = notify@.map_values(|s: String| s@);
    proof {
        if notify@.len() == 1 {
            assert(head =~= seq![SELECTION_URI@]);
        } else {
            assert(head =~= Seq::<Seq<char>>::empty());
        }
    }
    let cursor = match events {
        None => {
            assert(head + Seq::<Seq<char>>::empty() =~= head);
            return (ListenState { cursor: state.cursor, selection_generation }, notify);
        },
        Some(evs) => {
            proof {
                lemma_items_view(evs@);
            }
            let ghost views = json_items(evs@);
            let mut i: usize = 0;
            proof {
                assert(views.take(0) =~= Seq::<JsonView>::empty());
                assert(notify@.map_values(|s: String| s@) =~= head + announced(
                    views.take(0),
                    uris,
                ));
            }
            while i < evs.len()
                invariant
                    i <= evs@.len(),
                    views == json_items(evs@),
                    views.len() == evs@.len(),
                    uris == subscribed@.map_values(|s: String| s@),
                    forall|k: int| 0 <= k < evs@.len() ==> #[trigger] views[k] == evs@[k]@,
                    notify@.map_values(|s: String| s@) == head + announced(
                        views.take(i as int),
                        uris,
                    ),
                decreases evs@.len() - i,
            {
                let ghost before = notify@;
                let ghost prefix = views.take(i + 1);
                proof {
                    assert(prefix.drop_last() == views.take(i as int));
                    assert(prefix.last() == evs@[i as int]@);
                }
                let kind = match evs[i].get("kind") {
                    Some(v) => v.as_str(),
                    None => None,
                };
                let uri = match kind {
                    Some(k) => uri_for_kind(k),
                    None => None,
                };
                match uri {
                    Some(u) => {
                        if lists_uri(subscribed, u) {
                            notify.push(owned(u));
                            proof {
                                assert(notify@.map_values(|s: String| s@) =~= before.map_values(
                                    |s: String| s@,
                                ).push(u@));
                            }
                        }
                    },
                    None => {},
                }
                i += 1;
            }
            proof {
                assert(views.take(views.len() as int) == views);
            }
            advance_listen_cursor(state.cursor, evs)
        },
    };
    (ListenState { cursor, selection_generation }, notify)
}

/// How a resource read is answered.
pub enum ResourceRoute {
    /// The pending-selection resource.
    Selection,
    /// The event resource carrying events of this kind.
    Events(&'static str),
    /// No such resource; the error says so.
    Unknown(String),
}

/// Routes a resource read by URI: the selection resource, an event
/// resource by its kind, or an unknown resource named in the error.
pub fn route_resource(uri: &str) -> (r: ResourceRoute)
    ensures
        uri@ == SELECTION_URI@ ==> r is Selection,
        uri@ != SELECTION_URI@ ==> match kind_of_uri(uri@) {
            Some(k) => r matches ResourceRoute::Events(t) && t@ == k,
            None => r matches ResourceRoute::Unknown(m) && m@ == "unknown resource "@ + uri@,
        },
{
    if str_eq(uri, SELECTION_URI) {
        return ResourceRoute::Selection;
    }
    match kind_for_uri(uri) {
        Some(kind) => ResourceRoute::Events(kind),
        None => {
            let mut message = owned("unknown resource ");
            push_str(&mut message, uri);
            ResourceRoute::Unknown(message)
        },
    }
}

} // verus!
