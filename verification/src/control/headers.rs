//! Session state and header synthesis for the stdio carrier.
//!
//! Each client message posted to the server carries the header set the
//! server expects from an HTTP client: `Mcp-Method`, `Mcp-Name` for
//! methods that name a target, `MCP-Protocol-Version` once a version is in
//! force, and `Mcp-Param-*` for annotated `tools/call` arguments. From the
//! standard-headers version on, the request's params also gain the `_meta`
//! envelope the server requires; anything the harness declared itself is
//! kept.

use vstd::prelude::*;
use crate::control::codec::{base64_standard_of_text, encode_base64_standard};
use crate::control::json::{
    as_str_spec, find_member, get_spec, json_items, json_members, json_view, lemma_items_view,
    lemma_member_index, lemma_members_view, member_index, member_named, Json, JsonView,
};
use crate::text::{
    chars_of, copy_string, ends_with, lemma_text_lt_irreflexive, lemma_text_lt_total, owned,
    push_str, str_eq, strip_prefix_owned, text_less, text_lt, utf8_len, utf8_len_exceeds,
};

verus! {

/// Protocol version from which the server requires the standard header set.
pub const STANDARD_HEADERS_VERSION: &'static str = "2026-07-28";

/// Opening of a base64-wrapped header value.
pub const BASE64_PREFIX: &'static str = "=?base64?";

/// Closing of a base64-wrapped header value.
pub const BASE64_SUFFIX: &'static str = "?=";

/// `_meta` key of the declared protocol version.
pub const META_PROTOCOL_VERSION: &'static str = "io.modelcontextprotocol/protocolVersion";

/// `_meta` key of the declared client capabilities.
pub const META_CLIENT_CAPABILITIES: &'static str = "io.modelcontextprotocol/clientCapabilities";

/// Longest header value, in UTF-8 bytes, that base64 can wrap without its
/// length computation overflowing: three quarters of the address space,
/// more than any text in memory can hold.
pub open spec fn max_wrappable() -> nat {
    ((usize::MAX - 4) / 4 * 3) as nat
}

/// Whether `version` is at or past the standard-headers version.
pub open spec fn at_standard(version: Seq<char>) -> bool {
    !text_lt(version, STANDARD_HEADERS_VERSION@)
}

/// The tool input schemas, by tool name, as mathematical values.
pub open spec fn schemas_view(v: Seq<(String, Vec<(String, Json)>)>) -> Seq<
    (Seq<char>, Seq<(Seq<char>, JsonView)>),
> {
    v.map_values(|e: (String, Vec<(String, Json)>)| (e.0@, json_members(e.1@)))
}

/// What the carrier has learned of the session, as mathematical values.
pub struct SessionView {
    /// The negotiated protocol version.
    pub negotiated: Option<Seq<char>>,
    /// Cached tool input schemas, by tool name.
    pub schemas: Seq<(Seq<char>, Seq<(Seq<char>, JsonView)>)>,
}

/// Session state negotiated with the server: the protocol version from the
/// `initialize` result and the tool input schemas from `tools/list`.
pub struct SessionState {
    /// The negotiated protocol version, once known.
    pub negotiated: Option<String>,
    /// Tool input schemas (their members), by tool name.
    pub tool_schemas: Vec<(String, Vec<(String, Json)>)>,
}

impl View for SessionState {
    type V = SessionView;

    open spec fn view(&self) -> SessionView {
        SessionView {
            negotiated: match self.negotiated {
                Some(v) => Some(v@),
                None => None,
            },
            schemas: schemas_view(self.tool_schemas@),
        }
    }
}

impl Default for SessionState {
    fn default() -> (r: Self)
        ensures
            r@.negotiated is None,
            r@.schemas.len() == 0,
    {
        SessionState { negotiated: None, tool_schemas: Vec::new() }
    }
}

/// Whether a session's negotiated version asks for the standard headers.
pub open spec fn standard_spec(s: SessionView) -> bool {
    s.negotiated matches Some(v) && at_standard(v)
}

/// The schema cached for `name`: the first entry of that name.
pub open spec fn schema_named(
    schemas: Seq<(Seq<char>, Seq<(Seq<char>, JsonView)>)>,
    name: Seq<char>,
) -> Option<Seq<(Seq<char>, JsonView)>>
    decreases schemas.len(),
{
    if schemas.len() == 0 {
        None
    } else if schemas[0].0 == name {
        Some(schemas[0].1)
    } else {
        schema_named(schemas.drop_first(), name)
    }
}

impl SessionState {
    /// Whether the negotiated version asks for the standard headers.
    pub fn standard_headers(&self) -> (r: bool)
        ensures
            r == standard_spec(self@),
    {
        match &self.negotiated {
            Some(v) => !text_less(v.as_str(), STANDARD_HEADERS_VERSION),
            None => false,
        }
    }

    /// The schema cached for `name`.
    pub fn schema_for(&self, name: &str) -> (r: Option<&Vec<(String, Json)>>)
        ensures
            match schema_named(self@.schemas, name@) {
                Some(s) => r is Some && json_members(r->Some_0@) == s,
                None => r is None,
            },
    {
        let ghost all = self@.schemas;
        let mut i: usize = 0;
        assert(all.skip(0) == all);
        while i < self.tool_schemas.len()
            invariant
                i <= self.tool_schemas@.len(),
                all == self@.schemas,
                all.len() == self.tool_schemas@.len(),
                schema_named(all, name@) == schema_named(all.skip(i as int), name@),
            decreases self.tool_schemas@.len() - i,
        {
            assert(all.skip(i as int)[0] == all[i as int]);
            assert(all.skip(i as int).drop_first() == all.skip(i + 1));
            if str_eq(self.tool_schemas[i].0.as_str(), name) {
                return Some(&self.tool_schemas[i].1);
            }
            i += 1;
        }
        None
    }

    /// Caches `schema` for `name`, replacing the schema held for it.
    pub fn remember_schema(&mut self, name: String, schema: Vec<(String, Json)>)
        ensures
            final(self)@.negotiated == old(self)@.negotiated,
            final(self)@.schemas == schema_inserted(old(self)@.schemas, name@, json_members(schema@)),
    {
        let ghost all = self@.schemas;
        let mut i: usize = 0;
        while i < self.tool_schemas.len()
            invariant
                i <= self.tool_schemas@.len(),
                all == self@.schemas,
                self@ == old(self)@,
                all.len() == self.tool_schemas@.len(),
                forall|k: int| 0 <= k < i ==> (#[trigger] all[k]).0 != name@,
            decreases self.tool_schemas@.len() - i,
        {
            if str_eq(self.tool_schemas[i].0.as_str(), name.as_str()) {
                proof {
                    lemma_schema_insert_at(all, name@, json_members(schema@), i as int);
                }
                self.tool_schemas.set(i, (name, schema));
                assert(self@.schemas =~= all.update(i as int, (name@, json_members(schema@))));
                return;
            }
            i += 1;
        }
        proof {
            lemma_schema_insert_at(all, name@, json_members(schema@), all.len() as int);
        }
        self.tool_schemas.push((name, schema));
        assert(self@.schemas =~= all.push((name@, json_members(schema@))));
    }
}

/// The schemas after caching `schema` for `name`: the first entry of that
/// name is replaced, or the entry is appended.
pub open spec fn schema_inserted(
    schemas: Seq<(Seq<char>, Seq<(Seq<char>, JsonView)>)>,
    name: Seq<char>,
    schema: Seq<(Seq<char>, JsonView)>,
) -> Seq<(Seq<char>, Seq<(Seq<char>, JsonView)>)>
    decreases schemas.len(),
{
    if schemas.len() == 0 {
        seq![(name, schema)]
    } else if schemas[0].0 == name {
        schemas.update(0, (name, schema))
    } else {
        seq![schemas[0]] + schema_inserted(schemas.drop_first(), name, schema)
    }
}

proof fn lemma_schema_insert_at(
    schemas: Seq<(Seq<char>, Seq<(Seq<char>, JsonView)>)>,
    name: Seq<char>,
    schema: Seq<(Seq<char>, JsonView)>,
    i: int,
)
    requires
        0 <= i <= schemas.len(),
        forall|k: int| 0 <= k < i ==> (#[trigger] schemas[k]).0 != name,
        i < schemas.len() ==> schemas[i].0 == name,
    ensures
        schema_inserted(schemas, name, schema) == if i < schemas.len() {
            schemas.update(i, (name, schema))
        } else {
            schemas.push((name, schema))
        },
    decreases i,
{
    if i > 0 {
        let rest = schemas.drop_first();
        assert forall|k: int| 0 <= k < i - 1 implies (#[trigger] rest[k]).0 != name by {
            assert(rest[k] == schemas[k + 1]);
        }
        lemma_schema_insert_at(rest, name, schema, i - 1);
        if i < schemas.len() {
            assert(seq![schemas[0]] + rest.update(i - 1, (name, schema)) =~= schemas.update(
                i,
                (name, schema),
            ));
        } else {
            assert(seq![schemas[0]] + rest.push((name, schema)) =~= schemas.push((name, schema)));
        }
    } else if schemas.len() == 0 {
        assert(seq![(name, schema)] =~= schemas.push((name, schema)));
    }
}

/// Whether `s` starts with `p`.
pub open spec fn starts_with_spec(s: Seq<char>, p: Seq<char>) -> bool {
    p.len() <= s.len() && s.take(p.len() as int) == p
}

/// Whether `s` ends with `p`.
pub open spec fn ends_with_spec(s: Seq<char>, p: Seq<char>) -> bool {
    p.len() <= s.len() && s.skip(s.len() - p.len()) == p
}

/// Whether a header value cannot travel bare: it starts or ends with a
/// space or tab, holds a character outside printable ASCII, or already looks
/// like a base64-wrapped value. The empty value travels bare.
pub open spec fn requires_base64_spec(v: Seq<char>) -> bool {
    if v.len() == 0 {
        false
    } else if v[0] == ' ' || v[0] == '\t' || v.last() == ' ' || v.last() == '\t' {
        true
    } else if exists|i: int|
        0 <= i < v.len() && ((#[trigger] v[i] as u32) < 0x20 || (v[i] as u32) > 0x7E) {
        true
    } else {
        starts_with_spec(v, BASE64_PREFIX@) && ends_with_spec(v, BASE64_SUFFIX@)
    }
}

/// How a header value travels: bare, or wrapped as `=?base64?<b64>?=`.
pub open spec fn header_value_spec(v: Seq<char>) -> Seq<char> {
    if requires_base64_spec(v) && utf8_len(v) <= max_wrappable() {
        BASE64_PREFIX@ + base64_standard_of_text(v) + BASE64_SUFFIX@
    } else {
        v
    }
}

/// Whether `value` must be base64-wrapped to travel as a header value.
pub fn requires_base64(value: &str) -> (r: bool)
    ensures
        r == requires_base64_spec(value@),
{
    let cs = chars_of(value);
    if cs.len() == 0 {
        return false;
    }
    let first = cs[0];
    let last = cs[cs.len() - 1];
    if first == ' ' || first == '\t' || last == ' ' || last == '\t' {
        return true;
    }
    let mut i: usize = 0;
    while i < cs.len()
        invariant
            i <= cs@.len(),
            cs@ == value@,
            forall|k: int|
                0 <= k < i ==> !((#[trigger] cs@[k] as u32) < 0x20 || (cs@[k] as u32) > 0x7E),
        decreases cs@.len() - i,
    {
        let u = cs[i] as u32;
        if u < 0x20 || u > 0x7E {
            return true;
        }
        i += 1;
    }
    strip_prefix_owned(value, BASE64_PREFIX).is_some() && ends_with(value, BASE64_SUFFIX)
}

/// Wraps a header value as `=?base64?<b64>?=` when it cannot travel bare.
pub fn encode_header_value(value: &str) -> (r: String)
    ensures
        r@ == header_value_spec(value@),
{
    let limit: usize = (usize::MAX - 4) / 4 * 3;
    if requires_base64(value) && !utf8_len_exceeds(value, limit) {
        let mut out = owned(BASE64_PREFIX);
        let encoded = encode_base64_standard(value);
        push_str(&mut out, encoded.as_str());
        push_str(&mut out, BASE64_SUFFIX);
        out
    } else {
        owned(value)
    }
}

/// The member of `params` whose text names the target of `method`, if the
/// method names one.
pub open spec fn name_key(method: Seq<char>) -> Option<Seq<char>> {
    if method == "tools/call"@ || method == "prompts/get"@ {
        Some("name"@)
    } else if method == "resources/read"@ || method == "resources/subscribe"@ || method
        == "resources/unsubscribe"@ {
        Some("uri"@)
    } else if method == "tasks/get"@ || method == "tasks/update"@ || method == "tasks/cancel"@ {
        Some("taskId"@)
    } else {
        None
    }
}

/// The text member `key` of `v`.
pub open spec fn text_member(v: JsonView, key: Seq<char>) -> Option<Seq<char>> {
    match get_spec(v, key) {
        Some(m) => as_str_spec(m),
        None => None,
    }
}

/// The `Mcp-Name` value of a message with this method and params.
pub open spec fn name_spec(method: Seq<char>, params: Option<JsonView>) -> Option<Seq<char>> {
    match (params, name_key(method)) {
        (Some(p), Some(k)) => text_member(p, k),
        _ => None,
    }
}

fn text_of(v: Option<&Json>) -> (r: Option<String>)
    ensures
        match v {
            Some(j) => match as_str_spec(j@) {
                Some(t) => r is Some && r->Some_0@ == t,
                None => r is None,
            },
            None => r is None,
        },
{
    match v {
        Some(j) => match j.as_str() {
            Some(t) => Some(owned(t)),
            None => None,
        },
        None => None,
    }
}

/// The `Mcp-Name` value for methods that carry one: `name` for tool calls
/// and prompts, `uri` for resources, `taskId` for tasks.
pub fn extract_name(method: &str, params: Option<&Json>) -> (r: Option<String>)
    ensures
        match name_spec(
            method@,
            match params {
                Some(p) => Some(p@),
                None => None,
            },
        ) {
            Some(n) => r is Some && r->Some_0@ == n,
            None => r is None,
        },
        (method@ == "tools/call"@ || method@ == "prompts/get"@) ==> match params {
            Some(p) => match text_member(p@, "name"@) {
                Some(n) => r is Some && r->Some_0@ == n,
                None => r is None,
            },
            None => r is None,
        },
{
    proof {
        match params {
            Some(p) => law_name_header_parameter(method@, p@),
            None => {},
        }
    }
    let params = match params {
        Some(p) => p,
        None => return None,
    };
    let key = if str_eq(method, "tools/call") || str_eq(method, "prompts/get") {
        "name"
    } else if str_eq(method, "resources/read") || str_eq(method, "resources/subscribe") || str_eq(
        method,
        "resources/unsubscribe",
    ) {
        "uri"
    } else if str_eq(method, "tasks/get") || str_eq(method, "tasks/update") || str_eq(
        method,
        "tasks/cancel",
    ) {
        "taskId"
    } else {
        return None;
    };
    text_of(params.get(key))
}

/// `members` with a member `key` holding `default` appended, unless one of
/// that name is there already.
pub open spec fn with_default(
    members: Seq<(Seq<char>, JsonView)>,
    key: Seq<char>,
    default: JsonView,
) -> Seq<(Seq<char>, JsonView)> {
    if member_named(members, key) is Some {
        members
    } else {
        members.push((key, default))
    }
}

/// The protocol version a params object declares in its own `_meta`.
pub open spec fn declared_version(params: JsonView) -> Option<Seq<char>> {
    match get_spec(params, "_meta"@) {
        Some(meta) => text_member(meta, META_PROTOCOL_VERSION@),
        None => None,
    }
}

/// The protocol version in force for a message: the one its params declare,
/// else the negotiated one; none when the message has no params object.
pub open spec fn effective_version(message: JsonView, negotiated: Option<Seq<char>>) -> Option<
    Seq<char>,
> {
    match get_spec(message, "params"@) {
        Some(JsonView::Object(ms)) => match declared_version(JsonView::Object(ms)) {
            Some(d) => Some(d),
            None => negotiated,
        },
        _ => None,
    }
}

/// A `_meta` object completed with the declared version and empty client
/// capabilities, where it lacks them; anything but an object is left alone.
pub open spec fn assured_meta(meta: JsonView, version: Seq<char>) -> JsonView {
    match meta {
        JsonView::Object(ms) => JsonView::Object(
            with_default(
                with_default(ms, META_PROTOCOL_VERSION@, JsonView::String(version)),
                META_CLIENT_CAPABILITIES@,
                JsonView::Object(Seq::empty()),
            ),
        ),
        other => other,
    }
}

/// Params members with the `_meta` envelope assured.
pub open spec fn assured_params(members: Seq<(Seq<char>, JsonView)>, version: Seq<char>) -> Seq<
    (Seq<char>, JsonView),
> {
    let ms = with_default(members, "_meta"@, JsonView::Object(Seq::empty()));
    let i = member_index(ms, "_meta"@)->Some_0;
    ms.update(i, (ms[i].0, assured_meta(ms[i].1, version)))
}

/// A message after `_meta` assurance: from the standard-headers version on,
/// its params object gains what the envelope lacks; otherwise it is
/// unchanged.
pub open spec fn assured_message(message: JsonView, negotiated: Option<Seq<char>>) -> JsonView {
    match (message, effective_version(message, negotiated)) {
        (JsonView::Object(ms), Some(e)) => if at_standard(e) {
            let i = member_index(ms, "params"@)->Some_0;
            JsonView::Object(
                ms.update(i, (ms[i].0, JsonView::Object(assured_params(ms[i].1->Object_0, e)))),
            )
        } else {
            message
        },
        _ => message,
    }
}

proof fn lemma_members_replace(members: Seq<(String, Json)>, i: int, entry: (String, Json))
    requires
        0 <= i < members.len(),
    ensures
        json_members(members.update(i, entry)) == json_members(members).update(
            i,
            (entry.0@, json_view(entry.1)),
        ),
{
    lemma_members_view(members);
    lemma_members_view(members.update(i, entry));
    assert(json_members(members.update(i, entry)) =~= json_members(members).update(
        i,
        (entry.0@, json_view(entry.1)),
    ));
}

proof fn lemma_members_push(members: Seq<(String, Json)>, entry: (String, Json))
    ensures
        json_members(members.push(entry)) == json_members(members).push(
            (entry.0@, json_view(entry.1)),
        ),
{
    lemma_members_view(members);
    lemma_members_view(members.push(entry));
    assert(json_members(members.push(entry)) =~= json_members(members).push(
        (entry.0@, json_view(entry.1)),
    ));
}

/// Appends `key` holding `default` unless a member of that name exists.
fn add_default(members: Vec<(String, Json)>, key: &str, default: Json) -> (r: Vec<(String, Json)>)
    ensures
        json_members(r@) == with_default(json_members(members@), key@, default@),
{
    let mut ms = members;
    let found = find_member(&ms, key);
    proof {
        lemma_member_index(json_members(ms@), key@);
    }
    match found {
        Some(_) => ms,
        None => {
            let ghost before = ms@;
            ms.push((owned(key), default));
            proof {
                lemma_members_push(before, ms@.last());
            }
            ms
        },
    }
}

/// Puts `value` in place of member `i`'s value, keeping its name, and
/// returns the value it held.
fn swap_value(members: &mut Vec<(String, Json)>, i: usize, value: Json) -> (previous: Json)
    requires
        i < old(members)@.len(),
    ensures
        previous == old(members)@[i as int].1,
        final(members)@.len() == old(members)@.len(),
        final(members)@[i as int].0@ == old(members)@[i as int].0@,
        json_members(final(members)@) == json_members(old(members)@).update(
            i as int,
            (old(members)@[i as int].0@, value@),
        ),
{
    let ghost before = members@;
    let (key, held) = members.remove(i);
    members.insert(i, (key, value));
    proof {
        assert(members@ =~= before.update(i as int, members@[i as int]));
        lemma_members_replace(before, i as int, members@[i as int]);
    }
    held
}

/// Completes a `_meta` value: the declared version and empty client
/// capabilities where an object lacks them.
fn assure_meta_value(meta: Json, version: &String) -> (r: Json)
    ensures
        r@ == assured_meta(meta@, version@),
{
    match meta {
        Json::Object(ms) => {
            let ms = add_default(ms, META_PROTOCOL_VERSION, Json::String(copy_string(version)));
            let ms = add_default(ms, META_CLIENT_CAPABILITIES, Json::Object(Vec::new()));
            Json::Object(ms)
        },
        other => other,
    }
}

/// Assures the `_meta` envelope in params members.
fn assure_params(members: Vec<(String, Json)>, version: &String) -> (r: Vec<(String, Json)>)
    ensures
        json_members(r@) == assured_params(json_members(members@), version@),
{
    let mut ms = add_default(members, "_meta", Json::Object(Vec::new()));
    let ghost with_meta = json_members(ms@);
    let found = find_member(&ms, "_meta");
    proof {
        lemma_member_index(with_meta, "_meta"@);
        lemma_member_index(json_members(members@), "_meta"@);
        lemma_members_view(ms@);
        if member_index(json_members(members@), "_meta"@) is None {
            assert(with_meta.last().0 == "_meta"@);
            assert(member_named(with_meta, "_meta"@) is Some) by {
                lemma_member_named_last(with_meta, "_meta"@);
            }
        }
    }
    let i = match found {
        Some(i) => i,
        None => return ms,
    };
    assert(member_index(with_meta, "_meta"@) == Some(i as int));
    let ghost key = ms@[i as int].0@;
    let meta = swap_value(&mut ms, i, Json::Null);
    assert(meta@ == with_meta[i as int].1);
    let completed = assure_meta_value(meta, version);
    let _ = swap_value(&mut ms, i, completed);
    assert(json_members(ms@) =~= with_meta.update(
        i as int,
        (with_meta[i as int].0, assured_meta(with_meta[i as int].1, version@)),
    ));
    ms
}

/// A member named `key` at the end is found when no earlier one is.
proof fn lemma_member_named_last(members: Seq<(Seq<char>, JsonView)>, key: Seq<char>)
    requires
        members.len() > 0,
        members.last().0 == key,
    ensures
        member_named(members, key) is Some,
    decreases members.len(),
{
    if members[0].0 != key {
        lemma_member_named_last(members.drop_first(), key);
    }
}

/// Merges the standard-path `_meta` envelope into a message's params
/// without touching anything the harness declared, and returns the version
/// in force: the params' own declared version, else the negotiated one,
/// else none.
pub fn assure_meta(message: &mut Json, session: &SessionState) -> (r: Option<String>)
    ensures
        match effective_version(old(message)@, session@.negotiated) {
            Some(e) => r is Some && r->Some_0@ == e,
            None => r is None,
        },
        final(message)@ == assured_message(old(message)@, session@.negotiated),
{
    let mut taken = Json::Null;
    std::mem::swap(&mut taken, message);
    let mut members = match taken {
        Json::Object(ms) => ms,
        other => {
            *message = other;
            return None;
        },
    };
    let ghost ms0 = json_members(members@);
    proof {
        lemma_members_view(members@);
        lemma_member_index(ms0, "params"@);
    }
    let i = match find_member(&members, "params") {
        Some(i) => i,
        None => {
            *message = Json::Object(members);
            return None;
        },
    };
    let declared = match &members[i].1 {
        Json::Object(_) => {
            let meta = members[i].1.get("_meta");
            match meta {
                Some(m) => text_of(m.get(META_PROTOCOL_VERSION)),
                None => None,
            }
        },
        _ => {
            *message = Json::Object(members);
            return None;
        },
    };
    let effective = match declared {
        Some(d) => d,
        None => match &session.negotiated {
            Some(n) => copy_string(n),
            None => {
                *message = Json::Object(members);
                return None;
            },
        },
    };
    assert(ms0[i as int].1 is Object);
    assert(get_spec(old(message)@, "params"@) == Some(ms0[i as int].1));
    assert(effective_version(old(message)@, session@.negotiated) == Some(effective@));
    if !text_less(effective.as_str(), STANDARD_HEADERS_VERSION) {
        let params = swap_value(&mut members, i, Json::Null);
        assert(params@ == ms0[i as int].1);
        let completed = match params {
            Json::Object(pm) => Json::Object(assure_params(pm, &effective)),
            other => other,
        };
        let _ = swap_value(&mut members, i, completed);
        assert(json_members(members@) =~= ms0.update(
            i as int,
            (
                ms0[i as int].0,
                JsonView::Object(assured_params(ms0[i as int].1->Object_0, effective@)),
            ),
        ));
    }
    *message = Json::Object(members);
    Some(effective)
}

/// The standard header set of a message, once `_meta` is assured: the
/// method, the name when the method names a target, the version in force,
/// and the promoted arguments of a standard-path tool call.
pub open spec fn headers_spec(message: JsonView, session: SessionView) -> Seq<(Seq<char>, Seq<char>)> {
    match text_member(message, "method"@) {
        None => Seq::empty(),
        Some(method) => {
            let assured = assured_message(message, session.negotiated);
            let params = get_spec(assured, "params"@);
            let with_method = seq![("Mcp-Method"@, method)];
            let with_name = match name_spec(method, params) {
                Some(n) => with_method.push(("Mcp-Name"@, header_value_spec(n))),
                None => with_method,
            };
            match effective_version(message, session.negotiated) {
                None => with_name,
                Some(e) => {
                    let with_version = with_name.push(("MCP-Protocol-Version"@, e));
                    if method == "tools/call"@ && standard_spec(session) && params is Some {
                        with_version + promoted_spec(params->Some_0, session)
                    } else {
                        with_version
                    }
                },
            }
        },
    }
}

/// Prepares one client message for posting: assures the `_meta` envelope
/// and returns the header set, as the server's own HTTP client would send
/// them. A message without a method is left alone and gets no headers.
pub fn prepare_outgoing(message: &mut Json, session: &SessionState) -> (r: Vec<(String, String)>)
    ensures
        final(message)@ == (if text_member(old(message)@, "method"@) is Some {
            assured_message(old(message)@, session@.negotiated)
        } else {
            old(message)@
        }),
        r@.map_values(|h: (String, String)| (h.0@, h.1@)) == headers_spec(old(message)@, session@),
{
    let mut headers: Vec<(String, String)> = Vec::new();
    let method = match text_of(message.get("method")) {
        Some(m) => m,
        None => {
            assert(headers@.map_values(|h: (String, String)| (h.0@, h.1@)) =~= Seq::<(Seq<char>, Seq<char>)>::empty());
            return headers;
        },
    };
    let effective = assure_meta(message, session);
    headers.push((owned("Mcp-Method"), copy_string(&method)));
    let name = extract_name(method.as_str(), message.get("params"));
    match name {
        Some(n) => headers.push((owned("Mcp-Name"), encode_header_value(n.as_str()))),
        None => {},
    }
    match effective {
        Some(e) => {
            headers.push((owned("MCP-Protocol-Version"), e));
            if str_eq(method.as_str(), "tools/call") && session.standard_headers() {
                match message.get("params") {
                    Some(params) => promote_param_headers(params, session, &mut headers),
                    None => {},
                }
            }
        },
        None => {},
    }
    proof {
        assert(headers@.map_values(|h: (String, String)| (h.0@, h.1@)) =~= headers_spec(
            old(message)@,
            session@,
        ));
    }
    headers
}

/// The annotated properties of a schema: each property whose own schema
/// names a header in `x-mcp-header`, with that header, in schema order.
pub open spec fn annotations(props: Seq<(Seq<char>, JsonView)>) -> Seq<(Seq<char>, Seq<char>)>
    decreases props.len(),
{
    if props.len() == 0 {
        Seq::empty()
    } else {
        let rest = annotations(props.drop_last());
        match text_member(props.last().1, "x-mcp-header"@) {
            Some(h) => rest.push((props.last().0, h)),
            None => rest,
        }
    }
}

/// `sorted` with `entry` placed by name, replacing an entry of equal name:
/// how an ordered map takes an insertion.
pub open spec fn sorted_insert(
    sorted: Seq<(Seq<char>, Seq<char>)>,
    entry: (Seq<char>, Seq<char>),
) -> Seq<(Seq<char>, Seq<char>)>
    decreases sorted.len(),
{
    if sorted.len() == 0 {
        seq![entry]
    } else if text_lt(entry.0, sorted[0].0) {
        seq![entry] + sorted
    } else if entry.0 == sorted[0].0 {
        sorted.update(0, entry)
    } else {
        seq![sorted[0]] + sorted_insert(sorted.drop_first(), entry)
    }
}

/// Entries gathered into an ordered map by name, later ones replacing
/// earlier ones of the same name.
pub open spec fn by_name(entries: Seq<(Seq<char>, Seq<char>)>) -> Seq<(Seq<char>, Seq<char>)>
    decreases entries.len(),
{
    if entries.len() == 0 {
        Seq::empty()
    } else {
        sorted_insert(by_name(entries.drop_last()), entries.last())
    }
}

/// The text a primitive argument travels as: a string as itself, a boolean
/// as `true` or `false`, a number as its literal; nothing for others.
pub open spec fn primitive_text(v: Option<JsonView>) -> Option<Seq<char>> {
    match v {
        Some(JsonView::String(s)) => Some(s),
        Some(JsonView::Bool(b)) => Some(if b { "true"@ } else { "false"@ }),
        Some(JsonView::Number(t)) => Some(t),
        _ => None,
    }
}

/// `Mcp-Param-<header>` for each annotated property, by property name,
/// whose argument is a primitive.
pub open spec fn param_headers(
    annotated: Seq<(Seq<char>, Seq<char>)>,
    arguments: JsonView,
) -> Seq<(Seq<char>, Seq<char>)>
    decreases annotated.len(),
{
    if annotated.len() == 0 {
        Seq::empty()
    } else {
        let rest = param_headers(annotated.drop_last(), arguments);
        let (property, header) = annotated.last();
        match primitive_text(get_spec(arguments, property)) {
            Some(v) => rest.push(("Mcp-Param-"@ + header, header_value_spec(v))),
            None => rest,
        }
    }
}

/// The promoted argument headers of a tool call's params: nothing unless
/// the tool's schema is cached, the call has arguments, and the schema has
/// a `properties` object.
pub open spec fn promoted_spec(params: JsonView, session: SessionView) -> Seq<(Seq<char>, Seq<char>)> {
    match text_member(params, "name"@) {
        None => Seq::empty(),
        Some(name) => match schema_named(session.schemas, name) {
            None => Seq::empty(),
            Some(schema) => match get_spec(params, "arguments"@) {
                None => Seq::empty(),
                Some(arguments) => match get_spec(JsonView::Object(schema), "properties"@) {
                    Some(JsonView::Object(props)) => param_headers(
                        by_name(annotations(props)),
                        arguments,
                    ),
                    _ => Seq::empty(),
                },
            },
        },
    }
}

proof fn lemma_sorted_insert_at(
    sorted: Seq<(Seq<char>, Seq<char>)>,
    entry: (Seq<char>, Seq<char>),
    k: int,
)
    requires
        0 <= k <= sorted.len(),
        forall|j: int| 0 <= j < k ==> text_lt(#[trigger] sorted[j].0, entry.0),
        k < sorted.len() ==> !text_lt(sorted[k].0, entry.0),
    ensures
        sorted_insert(sorted, entry) == if k < sorted.len() && sorted[k].0 == entry.0 {
            sorted.update(k, entry)
        } else {
            sorted.take(k) + seq![entry] + sorted.skip(k)
        },
    decreases k,
{
    if k == 0 {
        if sorted.len() > 0 {
            lemma_text_lt_total(entry.0, sorted[0].0);
            assert(sorted.take(0) + seq![entry] + sorted.skip(0) =~= seq![entry] + sorted);
        } else {
            assert(sorted.take(0) + seq![entry] + sorted.skip(0) =~= seq![entry]);
        }
    } else {
        lemma_text_lt_total(entry.0, sorted[0].0);
        lemma_text_lt_irreflexive(entry.0);
        let rest = sorted.drop_first();
        assert forall|j: int| 0 <= j < k - 1 implies text_lt(#[trigger] rest[j].0, entry.0) by {
            assert(rest[j] == sorted[j + 1]);
        }
        lemma_sorted_insert_at(rest, entry, k - 1);
        if k < sorted.len() && sorted[k].0 == entry.0 {
            assert(seq![sorted[0]] + rest.update(k - 1, entry) =~= sorted.update(k, entry));
        } else {
            assert(seq![sorted[0]] + (rest.take(k - 1) + seq![entry] + rest.skip(k - 1)) =~= sorted.take(
                k,
            ) + seq![entry] + sorted.skip(k));
        }
    }
}

/// The view of a header or annotation list.
pub open spec fn pairs_view(v: Seq<(String, String)>) -> Seq<(Seq<char>, Seq<char>)> {
    v.map_values(|h: (String, String)| (h.0@, h.1@))
}

/// Places `entry` by name into `sorted`, replacing an entry of equal name.
fn insert_by_name(sorted: &mut Vec<(String, String)>, entry: (String, String))
    ensures
        pairs_view(final(sorted)@) == sorted_insert(pairs_view(old(sorted)@), (entry.0@, entry.1@)),
{
    let ghost before = pairs_view(sorted@);
    let ghost e = (entry.0@, entry.1@);
    let mut k: usize = 0;
    while k < sorted.len() && text_less(sorted[k].0.as_str(), entry.0.as_str())
        invariant
            k <= sorted@.len(),
            before == pairs_view(sorted@),
            sorted@ == old(sorted)@,
            e == (entry.0@, entry.1@),
            forall|j: int| 0 <= j < k ==> text_lt(#[trigger] before[j].0, e.0),
        decreases sorted@.len() - k,
    {
        k += 1;
    }
    proof {
        lemma_sorted_insert_at(before, e, k as int);
    }
    if k < sorted.len() && str_eq(sorted[k].0.as_str(), entry.0.as_str()) {
        sorted.set(k, entry);
        assert(pairs_view(sorted@) =~= before.update(k as int, e));
    } else {
        sorted.insert(k, entry);
        assert(pairs_view(sorted@) =~= before.take(k as int) + seq![e] + before.skip(k as int));
    }
}

/// Promotes annotated primitive `tools/call` arguments to `Mcp-Param-*`
/// headers, by property name, using the cached schema.
pub fn promote_param_headers(
    params: &Json,
    session: &SessionState,
    headers: &mut Vec<(String, String)>,
)
    ensures
        pairs_view(final(headers)@) == pairs_view(old(headers)@) + promoted_spec(params@, session@),
{
    let ghost start = pairs_view(headers@);
    assert(start + Seq::<(Seq<char>, Seq<char>)>::empty() == start);
    let name = match text_of(params.get("name")) {
        Some(n) => n,
        None => return,
    };
    let schema = match session.schema_for(name.as_str()) {
        Some(s) => s,
        None => return,
    };
    let arguments = match params.get("arguments") {
        Some(a) => a,
        None => return,
    };
    proof {
        lemma_members_view(schema@);
        lemma_member_index(json_members(schema@), "properties"@);
    }
    let props = match find_member(schema, "properties") {
        Some(i) => match &schema[i].1 {
            Json::Object(p) => p,
            _ => return,
        },
        None => return,
    };
    proof {
        lemma_members_view(props@);
    }
    let annotated = sorted_annotations(props);
    push_param_headers(&annotated, arguments, headers);
}

/// The annotated properties of a schema's `properties`, by name.
fn sorted_annotations(props: &Vec<(String, Json)>) -> (r: Vec<(String, String)>)
    ensures
        pairs_view(r@) == by_name(annotations(json_members(props@))),
{
    proof {
        lemma_members_view(props@);
    }
    let ghost pv = json_members(props@);
    let mut annotated: Vec<(String, String)> = Vec::new();
    let mut i: usize = 0;
    while i < props.len()
        invariant
            i <= props@.len(),
            pv == json_members(props@),
            pv.len() == props@.len(),
            forall|k: int|
                0 <= k < props@.len() ==> #[trigger] pv[k] == (props@[k].0@, json_view(props@[k].1)),
            pairs_view(annotated@) == by_name(annotations(pv.take(i as int))),
        decreases props@.len() - i,
    {
        let ghost prefix = pv.take(i + 1);
        proof {
            assert(prefix.drop_last() == pv.take(i as int));
            assert(prefix.last() == pv[i as int]);
        }
        match text_of(props[i].1.get("x-mcp-header")) {
            Some(h) => {
                insert_by_name(&mut annotated, (copy_string(&props[i].0), h));
                proof {
                    assert(annotations(prefix).drop_last() == annotations(pv.take(i as int)));
                }
            },
            None => {},
        }
        i += 1;
    }
    assert(pv.take(pv.len() as int) == pv);
    annotated
}

/// Appends `Mcp-Param-<header>` for each annotated property, in order,
/// whose argument is a primitive.
fn push_param_headers(
    annotated: &Vec<(String, String)>,
    arguments: &Json,
    headers: &mut Vec<(String, String)>,
)
    ensures
        pairs_view(final(headers)@) == pairs_view(old(headers)@) + param_headers(
            pairs_view(annotated@),
            arguments@,
        ),
{
    let ghost start = pairs_view(headers@);
    let ghost ann = pairs_view(annotated@);
    let mut j: usize = 0;
    assert(start + param_headers(ann.take(0), arguments@) =~= start);
    while j < annotated.len()
        invariant
            j <= annotated@.len(),
            ann == pairs_view(annotated@),
            pairs_view(headers@) == start + param_headers(ann.take(j as int), arguments@),
        decreases annotated@.len() - j,
    {
        let ghost prefix = ann.take(j + 1);
        proof {
            assert(prefix.drop_last() == ann.take(j as int));
            assert(prefix.last() == ann[j as int]);
        }
        let property = annotated[j].0.as_str();
        let value: Option<String> = match arguments.get(property) {
            Some(Json::String(v)) => Some(copy_string(v)),
            Some(Json::Bool(b)) => Some(
                if *b {
                    owned("true")
                } else {
                    owned("false")
                },
            ),
            Some(Json::Number(t)) => Some(copy_string(t)),
            _ => None,
        };
        match value {
            Some(v) => {
                let mut name = owned("Mcp-Param-");
                push_str(&mut name, annotated[j].1.as_str());
                let ghost before = headers@;
                headers.push((name, encode_header_value(v.as_str())));
                proof {
                    assert(pairs_view(headers@) =~= pairs_view(before).push(
                        (headers@.last().0@, headers@.last().1@),
                    ));
                }
            },
            None => {},
        }
        j += 1;
    }
    assert(ann.take(ann.len() as int) == ann);
}

/// What the session learns from one server message answering a request of
/// `request_method`: the negotiated version from an `initialize` result,
/// and, on the standard path, each tool's input schema from a `tools/list`
/// result.
pub open spec fn observed(
    session: SessionView,
    message: JsonView,
    request_method: Option<Seq<char>>,
) -> SessionView {
    match get_spec(message, "result"@) {
        None => session,
        Some(result) => if request_method == Some("initialize"@) {
            match text_member(result, "protocolVersion"@) {
                Some(v) => SessionView { negotiated: Some(v), ..session },
                None => session,
            }
        } else if request_method == Some("tools/list"@) && standard_spec(session) {
            SessionView {
                schemas: schemas_learned(
                    session.schemas,
                    match get_spec(result, "tools"@) {
                        Some(JsonView::Array(tools)) => tools,
                        _ => Seq::empty(),
                    },
                ),
                ..session
            }
        } else {
            session
        },
    }
}

/// The schemas after learning from each tool entry in order: an entry with
/// a text `name` and an object `inputSchema` caches that schema.
pub open spec fn schemas_learned(
    schemas: Seq<(Seq<char>, Seq<(Seq<char>, JsonView)>)>,
    tools: Seq<JsonView>,
) -> Seq<(Seq<char>, Seq<(Seq<char>, JsonView)>)>
    decreases tools.len(),
{
    if tools.len() == 0 {
        schemas
    } else {
        let before = schemas_learned(schemas, tools.drop_last());
        let tool = tools.last();
        match (text_member(tool, "name"@), get_spec(tool, "inputSchema"@)) {
            (Some(name), Some(JsonView::Object(schema))) => schema_inserted(before, name, schema),
            _ => before,
        }
    }
}

/// A copy of a JSON value.
pub fn copy_json(v: &Json) -> (r: Json)
    ensures
        r@ == v@,
    decreases v,
{
    match v {
        Json::Null => Json::Null,
        Json::Bool(b) => Json::Bool(*b),
        Json::Number(t) => Json::Number(copy_string(t)),
        Json::String(t) => Json::String(copy_string(t)),
        Json::Array(items) => Json::Array(copy_items(items)),
        Json::Object(members) => Json::Object(copy_members(members)),
    }
}

/// A copy of an array's items.
pub fn copy_items(items: &Vec<Json>) -> (r: Vec<Json>)
    ensures
        json_items(r@) == json_items(items@),
    decreases items,
{
    proof {
        lemma_items_view(items@);
    }
    let mut out: Vec<Json> = Vec::new();
    let mut i: usize = 0;
    while i < items.len()
        invariant
            i <= items@.len(),
            out@.len() == i,
            forall|k: int| 0 <= k < i ==> (#[trigger] out@[k])@ == items@[k]@,
        decreases items@.len() - i,
    {
        out.push(copy_json(&items[i]));
        i += 1;
    }
    proof {
        lemma_items_view(out@);
        assert(json_items(out@) =~= json_items(items@));
    }
    out
}

/// A copy of an object's members.
pub fn copy_members(members: &Vec<(String, Json)>) -> (r: Vec<(String, Json)>)
    ensures
        json_members(r@) == json_members(members@),
    decreases members,
{
    proof {
        lemma_members_view(members@);
    }
    let mut out: Vec<(String, Json)> = Vec::new();
    let mut i: usize = 0;
    while i < members.len()
        invariant
            i <= members@.len(),
            out@.len() == i,
            forall|k: int|
                0 <= k < i ==> (#[trigger] out@[k]).0@ == members@[k].0@ && out@[k].1@
                    == members@[k].1@,
        decreases members@.len() - i,
    {
        out.push((copy_string(&members[i].0), copy_json(&members[i].1)));
        i += 1;
    }
    proof {
        lemma_members_view(out@);
        assert(json_members(out@) =~= json_members(members@));
    }
    out
}

/// Records what a server message teaches the session (see [`observed`]).
pub fn observe_server_message(message: &Json, request_method: Option<&str>, session: &mut SessionState)
    ensures
        final(session)@ == observed(
            old(session)@,
            message@,
            match request_method {
                Some(m) => Some(m@),
                None => None,
            },
        ),
{
    let result = match message.get("result") {
        Some(r) => r,
        None => return,
    };
    let method = match request_method {
        Some(m) => m,
        None => return,
    };
    if str_eq(method, "initialize") {
        match text_of(result.get("protocolVersion")) {
            Some(v) => {
                session.negotiated = Some(v);
            },
            None => {},
        }
    } else if str_eq(method, "tools/list") {
        if !session.standard_headers() {
            return;
        }
        let empty: Vec<Json> = Vec::new();
        let tools: &Vec<Json> = match result.get("tools") {
            Some(Json::Array(items)) => items,
            _ => &empty,
        };
        proof {
            lemma_items_view(tools@);
        }
        let ghost tv = json_items(tools@);
        let ghost start = session@.schemas;
        let mut i: usize = 0;
        while i < tools.len()
            invariant
                i <= tools@.len(),
                tv == json_items(tools@),
                tv.len() == tools@.len(),
                forall|k: int| 0 <= k < tools@.len() ==> #[trigger] tv[k] == tools@[k]@,
                session@.negotiated == old(session)@.negotiated,
                session@.schemas == schemas_learned(start, tv.take(i as int)),
            decreases tools@.len() - i,
        {
            let ghost prefix = tv.take(i + 1);
            proof {
                assert(prefix.drop_last() == tv.take(i as int));
                assert(prefix.last() == tv[i as int]);
            }
            let name = text_of(tools[i].get("name"));
            match (name, tools[i].get("inputSchema")) {
                (Some(n), Some(Json::Object(schema))) => {
                    session.remember_schema(n, copy_members(schema));
                },
                _ => {},
            }
            i += 1;
        }
        assert(tv.take(tv.len() as int) == tv);
    }
}

proof fn lemma_with_default_keeps(
    members: Seq<(Seq<char>, JsonView)>,
    key: Seq<char>,
    default: JsonView,
    other: Seq<char>,
)
    requires
        member_named(members, other) is Some,
    ensures
        member_named(with_default(members, key, default), other) == member_named(members, other),
    decreases members.len(),
{
    if member_named(members, key) is None {
        lemma_member_named_push(members, (key, default), other);
    }
}

proof fn lemma_member_named_push(
    members: Seq<(Seq<char>, JsonView)>,
    entry: (Seq<char>, JsonView),
    key: Seq<char>,
)
    requires
        member_named(members, key) is Some,
    ensures
        member_named(members.push(entry), key) == member_named(members, key),
    decreases members.len(),
{
    if members[0].0 != key {
        assert(members.push(entry).drop_first() == members.drop_first().push(entry));
        lemma_member_named_push(members.drop_first(), entry, key);
    }
}

/// The harness's own `_meta` is never rewritten: every member the `_meta`
/// object already had keeps its value after assurance, whatever the
/// version in force.
pub proof fn law_declared_meta_is_kept(meta: Seq<(Seq<char>, JsonView)>, version: Seq<char>, key: Seq<char>)
    requires
        member_named(meta, key) is Some,
    ensures
        get_spec(assured_meta(JsonView::Object(meta), version), key) == member_named(meta, key),
{
    let once = with_default(meta, META_PROTOCOL_VERSION@, JsonView::String(version));
    lemma_with_default_keeps(meta, META_PROTOCOL_VERSION@, JsonView::String(version), key);
    lemma_with_default_keeps(once, META_CLIENT_CAPABILITIES@, JsonView::Object(Seq::empty()), key);
}

/// Below the standard-headers version (or with no version in force) a
/// message passes through untouched.
pub proof fn law_legacy_messages_pass_untouched(message: JsonView, negotiated: Option<Seq<char>>)
    requires
        !(effective_version(message, negotiated) matches Some(e) && at_standard(e)),
    ensures
        assured_message(message, negotiated) == message,
{
}

proof fn lemma_member_named_push_other(
    members: Seq<(Seq<char>, JsonView)>,
    entry: (Seq<char>, JsonView),
    key: Seq<char>,
)
    requires
        entry.0 != key,
    ensures
        member_named(members.push(entry), key) == member_named(members, key),
    decreases members.len(),
{
    if members.len() == 0 {
        assert(members.push(entry).drop_first() =~= Seq::<(Seq<char>, JsonView)>::empty());
    } else if members[0].0 != key {
        assert(members.push(entry).drop_first() == members.drop_first().push(entry));
        lemma_member_named_push_other(members.drop_first(), entry, key);
    }
}

proof fn lemma_member_named_update_other(
    members: Seq<(Seq<char>, JsonView)>,
    i: int,
    value: JsonView,
    key: Seq<char>,
)
    requires
        0 <= i < members.len(),
        members[i].0 != key,
    ensures
        member_named(members.update(i, (members[i].0, value)), key) == member_named(members, key),
    decreases members.len(),
{
    let u = members.update(i, (members[i].0, value));
    if i == 0 {
        assert(u.drop_first() == members.drop_first());
    } else {
        assert(u.drop_first() == members.drop_first().update(i - 1, (members[i].0, value)));
        assert(members.drop_first()[i - 1] == members[i]);
        lemma_member_named_update_other(members.drop_first(), i - 1, value, key);
    }
}

proof fn lemma_member_named_update_first(
    members: Seq<(Seq<char>, JsonView)>,
    key: Seq<char>,
    value: JsonView,
)
    requires
        member_index(members, key) is Some,
    ensures
        member_named(
            members.update(member_index(members, key)->Some_0, (key, value)),
            key,
        ) == Some(value),
    decreases members.len(),
{
    lemma_member_index(members, key);
    let i = member_index(members, key)->Some_0;
    let u = members.update(i, (key, value));
    if i > 0 {
        assert(members[0].0 != key);
        lemma_member_index(members.drop_first(), key);
        assert(member_index(members.drop_first(), key) == Some(i - 1));
        assert(u.drop_first() == members.drop_first().update(i - 1, (key, value)));
        lemma_member_named_update_first(members.drop_first(), key, value);
    }
}

proof fn lemma_member_named_push_new(members: Seq<(Seq<char>, JsonView)>, key: Seq<char>, value: JsonView)
    requires
        member_named(members, key) is None,
    ensures
        member_named(members.push((key, value)), key) == Some(value),
    decreases members.len(),
{
    if members.len() > 0 {
        assert(members.push((key, value)).drop_first() == members.drop_first().push((key, value)));
        lemma_member_named_push_new(members.drop_first(), key, value);
    }
}

proof fn lemma_assured_params_keep(members: Seq<(Seq<char>, JsonView)>, version: Seq<char>, key: Seq<char>)
    requires
        key != "_meta"@,
    ensures
        member_named(assured_params(members, version), key) == member_named(members, key),
{
    let d = JsonView::Object(Seq::<(Seq<char>, JsonView)>::empty());
    let ms = with_default(members, "_meta"@, d);
    if member_named(members, "_meta"@) is None {
        lemma_member_named_push_other(members, ("_meta"@, d), key);
        lemma_member_named_push_new(members, "_meta"@, d);
    }
    assert(member_named(ms, key) == member_named(members, key));
    assert(member_named(ms, "_meta"@) is Some);
    lemma_member_index(ms, "_meta"@);
    let j = member_index(ms, "_meta"@)->Some_0;
    lemma_member_named_update_other(ms, j, assured_meta(ms[j].1, version), key);
}

/// After `_meta` assurance a message keeps its method, still has a params
/// object, and every params member other than `_meta` keeps its value.
pub proof fn law_assurance_keeps_method_and_params(
    message: JsonView,
    negotiated: Option<Seq<char>>,
    key: Seq<char>,
)
    requires
        key != "_meta"@,
    ensures
        text_member(assured_message(message, negotiated), "method"@) == text_member(message, "method"@),
        get_spec(message, "params"@) is Some ==> get_spec(assured_message(message, negotiated), "params"@) is Some,
        get_spec(message, "params"@) matches Some(p) ==> get_spec(
            get_spec(assured_message(message, negotiated), "params"@)->Some_0,
            key,
        ) == get_spec(p, key),
{
    reveal_strlit("params");
    reveal_strlit("method");
    reveal_strlit("_meta");
    assert("params"@ != "method"@) by {
        assert("params"@[0] != "method"@[0]);
    }
    match (message, effective_version(message, negotiated)) {
        (JsonView::Object(ms), Some(e)) => {
            if at_standard(e) {
                lemma_member_index(ms, "params"@);
                let i = member_index(ms, "params"@)->Some_0;
                let pm = ms[i].1->Object_0;
                let np = JsonView::Object(assured_params(pm, e));
                assert(ms[i].0 == "params"@);
                lemma_member_named_update_first(ms, "params"@, np);
                lemma_member_named_update_other(ms, i, np, "method"@);
                lemma_assured_params_keep(pm, e, key);
            }
        },
        _ => {},
    }
}

/// The `Mcp-Name` header of a tool call or a prompt request carries its
/// `name` parameter: the header set of such a message starts with its
/// `Mcp-Method`, then `Mcp-Name` with the (header-encoded) name.
pub proof fn law_tool_and_prompt_requests_carry_their_name(
    message: JsonView,
    session: SessionView,
    method: Seq<char>,
    params: JsonView,
    name: Seq<char>,
)
    requires
        method == "tools/call"@ || method == "prompts/get"@,
        text_member(message, "method"@) == Some(method),
        get_spec(message, "params"@) == Some(params),
        text_member(params, "name"@) == Some(name),
    ensures
        headers_spec(message, session).len() >= 2,
        headers_spec(message, session)[0] == ("Mcp-Method"@, method),
        headers_spec(message, session)[1] == ("Mcp-Name"@, header_value_spec(name)),
{
    reveal_strlit("name");
    reveal_strlit("_meta");
    assert("name"@ != "_meta"@) by {
        assert("name"@.len() != "_meta"@.len());
    }
    law_assurance_keeps_method_and_params(message, session.negotiated, "name"@);
    let assured = assured_message(message, session.negotiated);
    let ap = get_spec(assured, "params"@)->Some_0;
    assert(text_member(ap, "name"@) == Some(name));
    assert(name_spec(method, get_spec(assured, "params"@)) == Some(name));
}

/// Which parameter names the `Mcp-Name` header: `name` for tool calls and
/// prompt requests, `uri` for resource reads and (un)subscriptions, and
/// `taskId` for task requests; other methods carry none.
pub proof fn law_name_header_parameter(method: Seq<char>, params: JsonView)
    ensures
        method == "tools/call"@ || method == "prompts/get"@ ==> name_spec(method, Some(params))
            == text_member(params, "name"@),
        method == "resources/read"@ || method == "resources/subscribe"@ || method
            == "resources/unsubscribe"@ ==> name_spec(method, Some(params)) == text_member(
            params,
            "uri"@,
        ),
        method == "tasks/get"@ || method == "tasks/update"@ || method == "tasks/cancel"@
            ==> name_spec(method, Some(params)) == text_member(params, "taskId"@),
        !(method == "tools/call"@ || method == "prompts/get"@ || method == "resources/read"@
            || method == "resources/subscribe"@ || method == "resources/unsubscribe"@ || method
            == "tasks/get"@ || method == "tasks/update"@ || method == "tasks/cancel"@)
            ==> name_spec(method, Some(params)) is None,
{
    reveal_strlit("tools/call");
    reveal_strlit("prompts/get");
    reveal_strlit("resources/read");
    reveal_strlit("resources/subscribe");
    reveal_strlit("resources/unsubscribe");
    reveal_strlit("tasks/get");
    reveal_strlit("tasks/update");
    reveal_strlit("tasks/cancel");
    assert("tools/call"@.len() == 10 && "prompts/get"@.len() == 11);
    assert("resources/read"@.len() == 14 && "resources/subscribe"@.len() == 19
        && "resources/unsubscribe"@.len() == 21);
    assert("tasks/get"@.len() == 9 && "tasks/update"@.len() == 12 && "tasks/cancel"@.len() == 12);
    assert("tasks/update"@[6] != "tasks/cancel"@[6]);
}

} // verus!
