//! Stdio carrier decisions: where to look for instances, which one to
//! front, how its failures read, and how a server reply maps back onto the
//! harness's request.
//!
//! The carrier discovers the one live instance and proxies newline-delimited
//! JSON-RPC on stdio to one POST per message. It holds no catalogue and
//! mints nothing: every byte of meaning comes from the server's replies.

use vstd::prelude::*;
use crate::control::discovery::{DiscoveryFile, DiscoveryRecord, DiscoveryScan};
use crate::control::json::{
    as_str_spec, get_spec, json_items, lemma_items_view, Json, JsonView,
};
use crate::control::token::InstanceToken;
use crate::text::{
    copy_string, debug_str, decimal, decimal_string, ends_with, owned, push_str, rust_debug_str,
    str_eq, text_less, text_lt, trim_owned, trim_spec,
};

verus! {

/// Carrier startup or runtime failure.
#[derive(Debug)]
pub enum CarrierError {
    /// Discovery enumeration, resolution, or fact construction failed.
    Discovery(String),
    /// No live instance matches the selection.
    NoLiveInstance {
        /// Directory that was enumerated.
        dir: String,
        /// App-id filter that was applied, if any.
        app_id: Option<String>,
    },
    /// More than one live instance matches and the carrier refuses to guess.
    AmbiguousInstances {
        /// Directory that was enumerated.
        dir: String,
        /// `app-id (pid)` labels of the matching instances.
        candidates: Vec<String>,
    },
    /// The selected record's port or token cannot form an endpoint.
    InvalidRecord(String),
    /// An environment fact the directory resolution needs is missing.
    MissingEnvironment {
        /// Variable or fact that was missing.
        what: String,
    },
    /// A proxied exchange failed and the message could not be answered.
    Exchange(String),
    /// Stdout is broken; the harness is gone.
    OutputClosed(String),
}

/// `parts` joined with `", "`.
pub open spec fn joined(parts: Seq<Seq<char>>) -> Seq<char>
    decreases parts.len(),
{
    if parts.len() == 0 {
        Seq::empty()
    } else if parts.len() == 1 {
        parts[0]
    } else {
        joined(parts.drop_last()) + ", "@ + parts.last()
    }
}

/// How a carrier error reads.
pub open spec fn carrier_error_text(e: CarrierError) -> Seq<char> {
    match e {
        CarrierError::Discovery(reason) => "discovery failed: "@ + reason@,
        CarrierError::NoLiveInstance { dir, app_id } => match app_id {
            Some(a) => "no live agent-control instance for app "@ + rust_debug_str(a@) + " in "@
                + dir@,
            None => "no live agent-control instance in "@ + dir@,
        },
        CarrierError::AmbiguousInstances { dir, candidates } => "more than one live agent-control instance in "@
            + dir@ + " ("@ + joined(candidates@.map_values(|c: String| c@)) + "); pass --app-id"@,
        CarrierError::InvalidRecord(reason) => "invalid discovery record: "@ + reason@,
        CarrierError::MissingEnvironment { what } => "cannot resolve platform directories: "@
            + what@ + " is missing"@,
        CarrierError::Exchange(reason) => "exchange failed: "@ + reason@,
        CarrierError::OutputClosed(reason) => "stdout closed: "@ + reason@,
    }
}

/// Joins `parts` with `", "`.
pub fn join_comma(parts: &Vec<String>) -> (r: String)
    ensures
        r@ == joined(parts@.map_values(|c: String| c@)),
{
    let ghost views = parts@.map_values(|c: String| c@);
    let mut out = String::new();
    let mut i: usize = 0;
    while i < parts.len()
        invariant
            i <= parts@.len(),
            views == parts@.map_values(|c: String| c@),
            out@ == joined(views.take(i as int)),
        decreases parts@.len() - i,
    {
        let ghost prefix = views.take(i + 1);
        proof {
            assert(prefix.drop_last() == views.take(i as int));
            assert(prefix.last() == parts@[i as int]@);
        }
        if i > 0 {
            push_str(&mut out, ", ");
        }
        push_str(&mut out, parts[i].as_str());
        proof {
            if i == 0 {
                assert(views.take(0).len() == 0);
            }
        }
        i += 1;
    }
    assert(views.take(views.len() as int) == views);
    out
}

impl CarrierError {
    /// The error's wording, as its `Display` would print it.
    pub fn message(&self) -> (r: String)
        ensures
            r@ == carrier_error_text(*self),
    {
        let mut out = String::new();
        match self {
            CarrierError::Discovery(reason) => {
                push_str(&mut out, "discovery failed: ");
                push_str(&mut out, reason.as_str());
            },
            CarrierError::NoLiveInstance { dir, app_id } => match app_id {
                Some(a) => {
                    push_str(&mut out, "no live agent-control instance for app ");
                    let q = debug_str(a.as_str());
                    push_str(&mut out, q.as_str());
                    push_str(&mut out, " in ");
                    push_str(&mut out, dir.as_str());
                },
                None => {
                    push_str(&mut out, "no live agent-control instance in ");
                    push_str(&mut out, dir.as_str());
                },
            },
            CarrierError::AmbiguousInstances { dir, candidates } => {
                push_str(&mut out, "more than one live agent-control instance in ");
                push_str(&mut out, dir.as_str());
                push_str(&mut out, " (");
                let list = join_comma(candidates);
                push_str(&mut out, list.as_str());
                push_str(&mut out, "); pass --app-id");
            },
            CarrierError::InvalidRecord(reason) => {
                push_str(&mut out, "invalid discovery record: ");
                push_str(&mut out, reason.as_str());
            },
            CarrierError::MissingEnvironment { what } => {
                push_str(&mut out, "cannot resolve platform directories: ");
                push_str(&mut out, what.as_str());
                push_str(&mut out, " is missing");
            },
            CarrierError::Exchange(reason) => {
                push_str(&mut out, "exchange failed: ");
                push_str(&mut out, reason.as_str());
            },
            CarrierError::OutputClosed(reason) => {
                push_str(&mut out, "stdout closed: ");
                push_str(&mut out, reason.as_str());
            },
        }
        out
    }
}

/// How the carrier's run loop ended.
#[derive(Clone, Copy, Debug, PartialEq, Eq, Structural)]
pub enum CarrierExit {
    /// Stdin reached its end: the harness is done.
    HarnessClosed,
}

/// The desktop platform whose directory rules apply.
#[derive(Clone, Copy, Debug, PartialEq, Eq, Structural)]
pub enum TargetPlatform {
    /// XDG bases with home-relative defaults.
    Linux,
    /// `Library` bases under `HOME`.
    MacOs,
    /// `LOCALAPPDATA`.
    Windows,
}

/// The environment variables the carrier's directory rules read.
pub struct EnvFacts {
    /// `HOME`.
    pub home: Option<String>,
    /// `XDG_STATE_HOME`.
    pub xdg_state_home: Option<String>,
    /// `LOCALAPPDATA`.
    pub local_app_data: Option<String>,
}

/// The path separator of a platform.
pub open spec fn separator(platform: TargetPlatform) -> char {
    match platform {
        TargetPlatform::Windows => '\\',
        _ => '/',
    }
}

/// Whether `c` ends a path component where `sep` is the separator: `sep`
/// itself, and on backslash-separated (Windows) paths `/` as well.
pub open spec fn is_separator(c: char, sep: char) -> bool {
    c == sep || (sep == '\\' && c == '/')
}

/// `base` joined with the relative `part`, as a path join gives it: no
/// separator is added after a base that already ends in one.
pub open spec fn joined_path(base: Seq<char>, part: Seq<char>, sep: char) -> Seq<char> {
    if base.len() == 0 {
        part
    } else if is_separator(base.last(), sep) {
        base + part
    } else {
        base.push(sep) + part
    }
}

/// Joins the relative `part` onto `base`.
pub fn join_path(base: &str, part: &str, sep: char) -> (r: String)
    ensures
        r@ == joined_path(base@, part@, sep),
{
    let mut out = owned(base);
    let cs = crate::text::chars_of(base);
    if cs.len() > 0 {
        let last = cs[cs.len() - 1];
        if !(last == sep || (sep == '\\' && last == '/')) {
            crate::text::push_char(&mut out, sep);
        }
    }
    push_str(&mut out, part);
    out
}

/// The platform state base the discovery directory sits under:
/// `XDG_STATE_HOME`, else `HOME/.local/state`, on Linux;
/// `HOME/Library/Application Support` on macOS; `LOCALAPPDATA` on Windows.
/// `None` names the missing variable.
pub open spec fn state_base(platform: TargetPlatform, home: Option<Seq<char>>, xdg: Option<Seq<char>>, local: Option<Seq<char>>) -> Result<Seq<char>, Seq<char>> {
    match platform {
        TargetPlatform::Linux => match home {
            None => Err("HOME"@),
            Some(h) => match xdg {
                Some(x) => Ok(x),
                None => Ok(joined_path(joined_path(h, ".local"@, '/'), "state"@, '/')),
            },
        },
        TargetPlatform::MacOs => match home {
            None => Err("HOME"@),
            Some(h) => Ok(joined_path(joined_path(h, "Library"@, '/'), "Application Support"@, '/')),
        },
        TargetPlatform::Windows => match local {
            None => Err("LOCALAPPDATA"@),
            Some(l) => Ok(l),
        },
    }
}

/// Where the platform state base comes from. On Linux, with `HOME` set,
/// `XDG_STATE_HOME` is the base whenever it is set, and `HOME/.local/state`
/// otherwise; without `HOME` the variable named missing is `HOME`. On macOS
/// it is `HOME/Library/Application Support`. On Windows it is
/// `LOCALAPPDATA`, and without it the variable named missing is that one.
pub proof fn law_state_base_follows_the_platform_variables(
    home: Seq<char>,
    xdg: Seq<char>,
    local: Seq<char>,
    other: Option<Seq<char>>,
)
    requires
        home.len() > 0,
        home.last() != '/',
    ensures
        state_base(TargetPlatform::Linux, Some(home), Some(xdg), other) == Ok::<Seq<char>, Seq<char>>(xdg),
        state_base(TargetPlatform::Linux, Some(home), None, other) == Ok::<Seq<char>, Seq<char>>(
            home + "/.local/state"@,
        ),
        state_base(TargetPlatform::Linux, None, Some(xdg), other) == Err::<Seq<char>, Seq<char>>("HOME"@),
        state_base(TargetPlatform::MacOs, Some(home), Some(xdg), other) == Ok::<Seq<char>, Seq<char>>(
            home + "/Library/Application Support"@,
        ),
        state_base(TargetPlatform::Windows, other, Some(xdg), Some(local)) == Ok::<Seq<char>, Seq<char>>(local),
        state_base(TargetPlatform::Windows, Some(home), Some(xdg), None) == Err::<Seq<char>, Seq<char>>(
            "LOCALAPPDATA"@,
        ),
{
    reveal_strlit(".local");
    reveal_strlit("state");
    reveal_strlit("/.local/state");
    reveal_strlit("Library");
    reveal_strlit("Application Support");
    reveal_strlit("/Library/Application Support");
    let local_dir = joined_path(home, ".local"@, '/');
    assert(local_dir == home.push('/') + ".local"@);
    assert(local_dir.last() == 'l');
    assert(joined_path(local_dir, "state"@, '/') =~= home + "/.local/state"@);
    let library = joined_path(home, "Library"@, '/');
    assert(library == home.push('/') + "Library"@);
    assert(library.last() == 'y');
    assert(joined_path(library, "Application Support"@, '/') =~= home + "/Library/Application Support"@);
}

/// With neither an explicit directory nor a state-root override, the Linux
/// carrier enumerates `<XDG_STATE_HOME>/longhorn/agent-control` whenever
/// `XDG_STATE_HOME` is set (and `HOME` too), the directory the app publishes
/// to.
pub proof fn law_linux_discovery_dir_follows_xdg_state_home(xdg: Seq<char>)
    requires
        xdg.len() > 0,
        xdg.last() != '/',
    ensures
        native_discovery_dir(TargetPlatform::Linux, xdg) == xdg + "/longhorn/agent-control"@,
{
    reveal_strlit("longhorn");
    reveal_strlit("agent-control");
    reveal_strlit("/longhorn/agent-control");
    let l = joined_path(xdg, "longhorn"@, '/');
    assert(l == xdg.push('/') + "longhorn"@);
    assert(l.last() == 'n');
    assert(joined_path(l, "agent-control"@, '/') =~= xdg + "/longhorn/agent-control"@);
}

/// The discovery directory below a platform state base:
/// `<base>/longhorn/agent-control` on Linux, and
/// `<base>/longhorn/state/agent-control` elsewhere.
pub open spec fn native_discovery_dir(platform: TargetPlatform, base: Seq<char>) -> Seq<char> {
    let sep = separator(platform);
    let longhorn = joined_path(base, "longhorn"@, sep);
    match platform {
        TargetPlatform::Linux => joined_path(longhorn, "agent-control"@, sep),
        _ => joined_path(joined_path(longhorn, "state"@, sep), "agent-control"@, sep),
    }
}

fn opt_view(o: &Option<String>) -> (r: Option<&str>)
    ensures
        match *o {
            Some(s) => r is Some && r->Some_0@ == s@,
            None => r is None,
        },
{
    match o {
        Some(s) => Some(s.as_str()),
        None => None,
    }
}

/// The platform state base (see [`state_base`]).
pub fn platform_state_base(platform: TargetPlatform, env: &EnvFacts) -> (r: Result<String, CarrierError>)
    ensures
        match state_base(
            platform,
            match env.home { Some(h) => Some(h@), None => None },
            match env.xdg_state_home { Some(x) => Some(x@), None => None },
            match env.local_app_data { Some(l) => Some(l@), None => None },
        ) {
            Ok(b) => r is Ok && r->Ok_0@ == b,
            Err(w) => r matches Err(CarrierError::MissingEnvironment { what }) && what@ == w,
        },
{
    match platform {
        TargetPlatform::Linux => match opt_view(&env.home) {
            None => Err(CarrierError::MissingEnvironment { what: owned("HOME") }),
            Some(h) => match opt_view(&env.xdg_state_home) {
                Some(x) => Ok(owned(x)),
                None => {
                    let local = join_path(h, ".local", '/');
                    Ok(join_path(local.as_str(), "state", '/'))
                },
            },
        },
        TargetPlatform::MacOs => match opt_view(&env.home) {
            None => Err(CarrierError::MissingEnvironment { what: owned("HOME") }),
            Some(h) => {
                let library = join_path(h, "Library", '/');
                Ok(join_path(library.as_str(), "Application Support", '/'))
            },
        },
        TargetPlatform::Windows => match opt_view(&env.local_app_data) {
            None => Err(CarrierError::MissingEnvironment { what: owned("LOCALAPPDATA") }),
            Some(l) => Ok(owned(l)),
        },
    }
}

/// The discovery directory below a platform state base (see
/// [`native_discovery_dir`]).
pub fn resolve_discovery_dir(platform: TargetPlatform, base: &str) -> (r: String)
    ensures
        r@ == native_discovery_dir(platform, base@),
{
    let sep = match platform {
        TargetPlatform::Windows => '\\',
        _ => '/',
    };
    let longhorn = join_path(base, "longhorn", sep);
    match platform {
        TargetPlatform::Linux => join_path(longhorn.as_str(), "agent-control", sep),
        _ => {
            let state = join_path(longhorn.as_str(), "state", sep);
            join_path(state.as_str(), "agent-control", sep)
        },
    }
}

/// The discovery directory under an explicit state-root override:
/// `<state-root>/agent-control`.
pub fn resolve_discovery_dir_with_state_override(platform: TargetPlatform, state_root: &str) -> (r: String)
    ensures
        r@ == joined_path(state_root@, "agent-control"@, separator(platform)),
{
    let sep = match platform {
        TargetPlatform::Windows => '\\',
        _ => '/',
    };
    join_path(state_root, "agent-control", sep)
}

/// Resolves the directory the carrier enumerates: an explicit discovery
/// directory wins; otherwise the platform's facts must resolve, and then a
/// state-root override or the platform-native directory decides.
pub fn resolve_carrier_dir(
    discovery_dir: Option<String>,
    state_root: Option<String>,
    platform: TargetPlatform,
    env: &EnvFacts,
) -> (r: Result<String, CarrierError>)
    ensures
        match discovery_dir {
            Some(d) => r is Ok && r->Ok_0@ == d@,
            None => match state_base(
                platform,
                match env.home { Some(h) => Some(h@), None => None },
                match env.xdg_state_home { Some(x) => Some(x@), None => None },
                match env.local_app_data { Some(l) => Some(l@), None => None },
            ) {
                Err(w) => r matches Err(CarrierError::MissingEnvironment { what }) && what@ == w,
                Ok(b) => r is Ok && r->Ok_0@ == match state_root {
                    Some(s) => joined_path(s@, "agent-control"@, separator(platform)),
                    None => native_discovery_dir(platform, b),
                },
            },
        },
{
    match discovery_dir {
        Some(d) => return Ok(d),
        None => {},
    }
    let base = match platform_state_base(platform, env) {
        Ok(b) => b,
        Err(e) => return Err(e),
    };
    match state_root {
        Some(s) => Ok(resolve_discovery_dir_with_state_override(platform, s.as_str())),
        None => Ok(resolve_discovery_dir(platform, base.as_str())),
    }
}

/// The one discovered instance the carrier fronts.
pub struct CarrierSelection {
    /// The discovery record: app id, pid, port, and bearer.
    pub file: DiscoveryFile,
    /// `http://127.0.0.1:<port>/mcp`.
    pub endpoint: String,
}

/// Whether an enumerated record is a live instance passing the app-id
/// filter.
pub open spec fn selectable(record: DiscoveryRecord, app_id: Option<Seq<char>>) -> bool {
    record.live && match app_id {
        Some(a) => record.file.app_id@ == a,
        None => true,
    }
}

/// The selectable records, in enumeration order.
pub open spec fn selectable_records(records: Seq<DiscoveryRecord>, app_id: Option<Seq<char>>) -> Seq<
    DiscoveryRecord,
>
    decreases records.len(),
{
    if records.len() == 0 {
        Seq::empty()
    } else {
        let rest = selectable_records(records.drop_last(), app_id);
        if selectable(records.last(), app_id) {
            rest.push(records.last())
        } else {
            rest
        }
    }
}

/// Order of instances: by app id, then by pid.
pub open spec fn key_lt(a: (Seq<char>, nat), b: (Seq<char>, nat)) -> bool {
    text_lt(a.0, b.0) || (a.0 == b.0 && a.1 < b.1)
}

/// `sorted` with `key` placed after every key not above it.
pub open spec fn insert_key(sorted: Seq<(Seq<char>, nat)>, key: (Seq<char>, nat)) -> Seq<
    (Seq<char>, nat),
>
    decreases sorted.len(),
{
    if sorted.len() == 0 {
        seq![key]
    } else if key_lt(key, sorted[0]) {
        seq![key] + sorted
    } else {
        seq![sorted[0]] + insert_key(sorted.drop_first(), key)
    }
}

/// `keys` in instance order, equal keys keeping their order.
pub open spec fn sort_keys(keys: Seq<(Seq<char>, nat)>) -> Seq<(Seq<char>, nat)>
    decreases keys.len(),
{
    if keys.len() == 0 {
        Seq::empty()
    } else {
        insert_key(sort_keys(keys.drop_last()), keys.last())
    }
}

/// The app id and pid of each record.
pub open spec fn record_keys(records: Seq<DiscoveryRecord>) -> Seq<(Seq<char>, nat)> {
    records.map_values(|r: DiscoveryRecord| (r.file.app_id@, r.file.pid as nat))
}

/// The `app-id (pid)` label of an instance.
pub open spec fn instance_label(key: (Seq<char>, nat)) -> Seq<char> {
    key.0 + " ("@ + decimal(key.1) + ")"@
}

proof fn lemma_insert_key_at(sorted: Seq<(Seq<char>, nat)>, key: (Seq<char>, nat), k: int)
    requires
        0 <= k <= sorted.len(),
        forall|j: int| 0 <= j < k ==> !key_lt(key, #[trigger] sorted[j]),
        k < sorted.len() ==> key_lt(key, sorted[k]),
    ensures
        insert_key(sorted, key) == sorted.take(k) + seq![key] + sorted.skip(k),
    decreases k,
{
    if k == 0 {
        assert(sorted.take(0) + seq![key] + sorted.skip(0) =~= if sorted.len() == 0 {
            seq![key]
        } else {
            seq![key] + sorted
        });
    } else {
        let rest = sorted.drop_first();
        assert forall|j: int| 0 <= j < k - 1 implies !key_lt(key, #[trigger] rest[j]) by {
            assert(rest[j] == sorted[j + 1]);
        }
        lemma_insert_key_at(rest, key, k - 1);
        assert(seq![sorted[0]] + (rest.take(k - 1) + seq![key] + rest.skip(k - 1)) =~= sorted.take(k)
            + seq![key] + sorted.skip(k));
    }
}

fn key_less(a: &(String, u32), b: &(String, u32)) -> (r: bool)
    ensures
        r == key_lt((a.0@, a.1 as nat), (b.0@, b.1 as nat)),
{
    text_less(a.0.as_str(), b.0.as_str()) || (str_eq(a.0.as_str(), b.0.as_str()) && a.1 < b.1)
}

/// The view of a key list.
pub open spec fn keys_view(v: Seq<(String, u32)>) -> Seq<(Seq<char>, nat)> {
    v.map_values(|k: (String, u32)| (k.0@, k.1 as nat))
}

fn insert_sorted_key(sorted: &mut Vec<(String, u32)>, key: (String, u32))
    ensures
        keys_view(final(sorted)@) == insert_key(keys_view(old(sorted)@), (key.0@, key.1 as nat)),
{
    let ghost before = keys_view(sorted@);
    let ghost kv = (key.0@, key.1 as nat);
    let mut k: usize = 0;
    while k < sorted.len() && !key_less(&key, &sorted[k])
        invariant
            k <= sorted@.len(),
            before == keys_view(sorted@),
            kv == (key.0@, key.1 as nat),
            forall|j: int| 0 <= j < k ==> !key_lt(kv, #[trigger] before[j]),
        decreases sorted@.len() - k,
    {
        k += 1;
    }
    proof {
        lemma_insert_key_at(before, kv, k as int);
    }
    sorted.insert(k, key);
    assert(keys_view(sorted@) =~= before.take(k as int) + seq![kv] + before.skip(k as int));
}

fn instance_label_text(app_id: &str, pid: u32) -> (r: String)
    ensures
        r@ == instance_label((app_id@, pid as nat)),
{
    let mut out = owned(app_id);
    push_str(&mut out, " (");
    let digits = decimal_string(pid as u64);
    push_str(&mut out, digits.as_str());
    push_str(&mut out, ")");
    out
}

/// Selects the single live instance of an enumeration, optionally filtered
/// by app id. Zero matches and several matches are both errors: the carrier
/// never invents an instance and never guesses between two. The ambiguity
/// error lists the candidates by app id, then pid.
pub fn select_instance(dir: &str, app_id: Option<&str>, scan: DiscoveryScan) -> (r: Result<
    CarrierSelection,
    CarrierError,
>)
    ensures
        ({
            let filter = match app_id {
                Some(a) => Some(a@),
                None => None,
            };
            let found = selectable_records(scan.instances@, filter);
            if found.len() == 1 {
                let file = found[0].file;
                if file.port == 0 {
                    r matches Err(CarrierError::InvalidRecord(m)) && m@ == "instance "@ + file.app_id@
                        + " ("@ + decimal(file.pid as nat) + ") published port 0"@
                } else {
                    r is Ok && r->Ok_0.file == file && r->Ok_0.endpoint@ == "http://127.0.0.1:"@
                        + decimal(file.port as nat) + "/mcp"@
                }
            } else if found.len() == 0 {
                r matches Err(CarrierError::NoLiveInstance { dir: d, app_id: a }) && d@ == dir@
                    && match a {
                    Some(t) => filter == Some(t@),
                    None => filter is None,
                }
            } else {
                r matches Err(CarrierError::AmbiguousInstances { dir: d, candidates }) && d@ == dir@
                    && candidates@.map_values(|c: String| c@) == sort_keys(record_keys(found)).map_values(
                    |k: (Seq<char>, nat)| instance_label(k),
                )
            }
        }),
{
    let ghost filter = match app_id {
        Some(a) => Some(a@),
        None => None::<Seq<char>>,
    };
    let ghost records = scan.instances@;
    let mut keys: Vec<(String, u32)> = Vec::new();
    let mut count: usize = 0;
    let mut first: usize = 0;
    let mut i: usize = 0;
    while i < scan.instances.len()
        invariant
            i <= records.len(),
            records == scan.instances@,
            filter == match app_id {
                Some(a) => Some(a@),
                None => None::<Seq<char>>,
            },
            count == selectable_records(records.take(i as int), filter).len(),
            count <= i,
            count > 0 ==> first < i && records[first as int] == selectable_records(
                records.take(i as int),
                filter,
            )[0],
            keys_view(keys@) == sort_keys(record_keys(selectable_records(records.take(i as int), filter))),
        decreases records.len() - i,
    {
        let ghost prefix = records.take(i + 1);
        proof {
            assert(prefix.drop_last() == records.take(i as int));
            assert(prefix.last() == records[i as int]);
        }
        let record = &scan.instances[i];
        let wanted = record.live && match app_id {
            Some(a) => str_eq(record.file.app_id.as_str(), a),
            None => true,
        };
        if wanted {
            let ghost found_before = selectable_records(records.take(i as int), filter);
            if count == 0 {
                first = i;
            }
            insert_sorted_key(&mut keys, (copy_string(&record.file.app_id), record.file.pid));
            count += 1;
            proof {
                let found_now = selectable_records(prefix, filter);
                assert(found_now == found_before.push(records[i as int]));
                assert(record_keys(found_now).drop_last() == record_keys(found_before));
                assert(record_keys(found_now).last() == (
                    records[i as int].file.app_id@,
                    records[i as int].file.pid as nat,
                ));
                if found_before.len() > 0 {
                    assert(found_now[0] == found_before[0]);
                }
            }
        }
        i += 1;
    }
    assert(records.take(records.len() as int) == records);
    let ghost found = selectable_records(records, filter);
    if count == 1 {
        let mut instances = scan.instances;
        let record = instances.remove(first);
        let file = record.file;
        if file.port == 0 {
            let mut m = owned("instance ");
            push_str(&mut m, file.app_id.as_str());
            push_str(&mut m, " (");
            let digits = decimal_string(file.pid as u64);
            push_str(&mut m, digits.as_str());
            push_str(&mut m, ") published port 0");
            return Err(CarrierError::InvalidRecord(m));
        }
        let mut endpoint = owned("http://127.0.0.1:");
        let digits = decimal_string(file.port as u64);
        push_str(&mut endpoint, digits.as_str());
        push_str(&mut endpoint, "/mcp");
        return Ok(CarrierSelection { file, endpoint });
    }
    if count == 0 {
        let filter_text = match app_id {
            Some(a) => Some(owned(a)),
            None => None,
        };
        return Err(CarrierError::NoLiveInstance { dir: owned(dir), app_id: filter_text });
    }
    let ghost kv = keys_view(keys@);
    let mut candidates: Vec<String> = Vec::new();
    let mut j: usize = 0;
    while j < keys.len()
        invariant
            j <= keys@.len(),
            kv == keys_view(keys@),
            candidates@.map_values(|c: String| c@) == kv.take(j as int).map_values(
                |k: (Seq<char>, nat)| instance_label(k),
            ),
        decreases keys@.len() - j,
    {
        let label = instance_label_text(keys[j].0.as_str(), keys[j].1);
        let ghost before = candidates@;
        candidates.push(label);
        proof {
            assert(kv.take(j + 1) == kv.take(j as int).push(kv[j as int]));
            assert(candidates@.map_values(|c: String| c@) =~= before.map_values(|c: String| c@).push(
                instance_label(kv[j as int]),
            ));
            assert(kv.take(j + 1).map_values(|k: (Seq<char>, nat)| instance_label(k)) =~= kv.take(
                j as int,
            ).map_values(|k: (Seq<char>, nat)| instance_label(k)).push(instance_label(kv[j as int])));
        }
        j += 1;
    }
    assert(kv.take(kv.len() as int) == kv);
    Err(CarrierError::AmbiguousInstances { dir: owned(dir), candidates })
}

/// How Rust's `String::from_utf8_lossy` reads `bytes`: their UTF-8 text,
/// each invalid sequence replaced by U+FFFD.
pub uninterp spec fn utf8_lossy(bytes: Seq<u8>) -> Seq<char>;

/// Reads `bytes` with `String::from_utf8_lossy`. The result is named
/// [`utf8_lossy`] of the bytes; where the bytes are valid UTF-8 it is their
/// text, which is all this contract states beyond the name.
#[verifier::external_body]
fn lossy_text(bytes: &[u8]) -> (r: String)
    ensures
        r@ == utf8_lossy(bytes@),
        vstd::utf8::valid_utf8(bytes@) ==> r@ == vstd::utf8::decode_utf8(bytes@),
{
    String::from_utf8_lossy(bytes).into_owned()
}

/// The JSON-RPC error code for an HTTP failure status: `-32001` for 401 and
/// 403, `-32002` for 404, `-32000` otherwise.
pub open spec fn status_error_code(status: u16) -> Seq<char> {
    if status == 401 || status == 403 {
        "-32001"@
    } else if status == 404 {
        "-32002"@
    } else {
        "-32000"@
    }
}

/// A JSON-RPC error object: `{"code": <code>, "message": <message>}`.
pub open spec fn error_object(code: Seq<char>, message: Seq<char>) -> JsonView {
    JsonView::Object(
        seq![("code"@, JsonView::Number(code)), ("message"@, JsonView::String(message))],
    )
}

fn error_json(code: &str, message: String) -> (r: Json)
    ensures
        r@ == error_object(code@, message@),
{
    let members: Vec<(String, Json)> = vec![
        (owned("code"), Json::Number(owned(code))),
        (owned("message"), Json::String(message)),
    ];
    let r = Json::Object(members);
    proof {
        crate::control::json::lemma_members_view(members@);
        assert(crate::control::json::json_members(members@) =~= seq![
            ("code"@, JsonView::Number(code@)),
            ("message"@, JsonView::String(r->Object_0@[1].1->String_0@)),
        ]);
    }
    r
}

/// The JSON-RPC error reply to the request `id`.
pub open spec fn error_reply_view(id: JsonView, error: JsonView) -> JsonView {
    JsonView::Object(
        seq![("jsonrpc"@, JsonView::String("2.0"@)), ("id"@, id), ("error"@, error)],
    )
}

/// The JSON-RPC error reply answering the request `id` with `error`, so the
/// harness can correlate it.
pub fn error_reply(id: Json, error: Json) -> (r: Json)
    ensures
        r@ == error_reply_view(id@, error@),
{
    let ghost idv = id@;
    let ghost ev = error@;
    let members: Vec<(String, Json)> = vec![
        (owned("jsonrpc"), Json::String(owned("2.0"))),
        (owned("id"), id),
        (owned("error"), error),
    ];
    proof {
        crate::control::json::lemma_members_view(members@);
        assert(crate::control::json::json_members(members@) =~= seq![
            ("jsonrpc"@, JsonView::String("2.0"@)),
            ("id"@, idv),
            ("error"@, ev),
        ]);
    }
    Json::Object(members)
}

/// The wording of an HTTP failure: the status, and the trimmed body text
/// when there is any.
pub open spec fn status_error_message(status: u16, detail: Seq<char>) -> Seq<char> {
    if detail.len() == 0 {
        "carrier: control server answered HTTP "@ + decimal(status as nat)
    } else {
        "carrier: control server answered HTTP "@ + decimal(status as nat) + ": "@ + detail
    }
}

/// The error a request is answered with when the server failed it over
/// HTTP without a JSON-RPC reply.
pub fn http_status_error(status: u16, body: &[u8]) -> (r: Json)
    ensures
        r@ == error_object(
            status_error_code(status),
            status_error_message(status, trim_spec(utf8_lossy(body@))),
        ),
{
    let text = lossy_text(body);
    let detail = trim_owned(text.as_str());
    let mut message = owned("carrier: control server answered HTTP ");
    let digits = decimal_string(status as u64);
    push_str(&mut message, digits.as_str());
    if !detail.as_str().is_empty() {
        push_str(&mut message, ": ");
        push_str(&mut message, detail.as_str());
    }
    let code = if status == 401 || status == 403 {
        "-32001"
    } else if status == 404 {
        "-32002"
    } else {
        "-32000"
    };
    error_json(code, message)
}

/// The error a request is answered with when the server accepted it
/// without a reply.
pub fn accepted_without_reply() -> (r: Json)
    ensures
        r@ == error_object(
            "-32000"@,
            "carrier: control server accepted the request without a reply"@,
        ),
{
    error_json("-32000", owned("carrier: control server accepted the request without a reply"))
}

/// The error a request is answered with when the server is unreachable.
pub fn transport_error(detail: &str) -> (r: Json)
    ensures
        r@ == error_object("-32000"@, "carrier: control server unreachable: "@ + detail@),
{
    let mut message = owned("carrier: control server unreachable: ");
    push_str(&mut message, detail);
    error_json("-32000", message)
}

/// The reply messages a JSON body holds: one object, or every element of a
/// batch array of objects. Anything else is no reply.
pub open spec fn reply_messages(body: JsonView) -> Option<Seq<JsonView>> {
    match body {
        JsonView::Array(items) => if forall|i: int| 0 <= i < items.len() ==> (#[trigger] items[i]) is Object {
            Some(items)
        } else {
            None
        },
        JsonView::Object(_) => Some(seq![body]),
        _ => None,
    }
}

/// Splits a parsed JSON body into reply messages (see [`reply_messages`]).
pub fn split_reply(body: Json) -> (r: Option<Vec<Json>>)
    ensures
        match reply_messages(body@) {
            Some(ms) => r is Some && json_items(r->Some_0@) == ms,
            None => r is None,
        },
{
    let ghost bv = body@;
    match body {
        Json::Array(items) => {
            proof {
                lemma_items_view(items@);
            }
            let mut i: usize = 0;
            while i < items.len()
                invariant
                    i <= items@.len(),
                    bv == JsonView::Array(json_items(items@)),
                    bv == body@,
                    json_items(items@).len() == items@.len(),
                    forall|k: int| 0 <= k < items@.len() ==> #[trigger] json_items(items@)[k] == items@[k]@,
                    forall|k: int| 0 <= k < i ==> (#[trigger] json_items(items@)[k]) is Object,
                decreases items@.len() - i,
            {
                match &items[i] {
                    Json::Object(_) => {},
                    _ => {
                        assert(json_items(items@)[i as int] == items@[i as int]@);
                        assert(!(items@[i as int]@ is Object));
                        assert(!(json_items(items@)[i as int] is Object));
                        assert(reply_messages(bv) is None);
                        return None;
                    },
                }
                i += 1;
            }
            Some(items)
        },
        Json::Object(members) => {
            let v = vec![Json::Object(members)];
            proof {
                lemma_items_view(v@);
                assert(json_items(v@) =~= seq![v@[0]@]);
            }
            Some(v)
        },
        _ => None,
    }
}

/// Whether a message is a cancellation notification: method
/// `notifications/cancelled` and no id (or a null one).
pub open spec fn is_cancellation_spec(message: JsonView) -> bool {
    match get_spec(message, "method"@) {
        Some(m) => as_str_spec(m) == Some("notifications/cancelled"@) && match get_spec(
            message,
            "id"@,
        ) {
            None => true,
            Some(id) => id is Null,
        },
        None => false,
    }
}

/// Whether a message is a cancellation notification.
pub fn is_cancellation(message: &Json) -> (r: bool)
    ensures
        r == is_cancellation_spec(message@),
{
    let method_ok = match message.get("method") {
        Some(m) => match m.as_str() {
            Some(t) => str_eq(t, "notifications/cancelled"),
            None => false,
        },
        None => false,
    };
    if !method_ok {
        return false;
    }
    match message.get("id") {
        None => true,
        Some(Json::Null) => true,
        Some(_) => false,
    }
}

/// What to do with a reply that is not an event stream.
pub enum ReplyAction {
    /// Nothing is written back.
    Nothing,
    /// Write these messages to the harness, in order.
    Write(Vec<Json>),
    /// Answer the pending request with this error.
    Answer(Json),
}

/// Decides what a non-stream reply writes back. `messages` is the body's
/// reply messages, when it holds any; `body` is its raw bytes. A 202 owes
/// nothing to a notification and an error to a request; a failure status
/// forwards the body's messages (even to a notification) or answers with
/// the status error; a success forwards the messages to a request only.
pub fn reply_action(status: u16, is_notification: bool, messages: Option<Vec<Json>>, body: &[u8]) -> (r: ReplyAction)
    ensures
        status == 202 ==> if is_notification {
            r is Nothing
        } else {
            r matches ReplyAction::Answer(e) && e@ == error_object(
                "-32000"@,
                "carrier: control server accepted the request without a reply"@,
            )
        },
        status != 202 ==> match messages {
            Some(ms) => if (200 <= status < 300) && is_notification {
                r is Nothing
            } else {
                r matches ReplyAction::Write(w) && json_items(w@) == json_items(ms@)
            },
            None => r matches ReplyAction::Answer(e) && e@ == error_object(
                status_error_code(status),
                status_error_message(status, trim_spec(utf8_lossy(body@))),
            ),
        },
{
    if status == 202 {
        if is_notification {
            return ReplyAction::Nothing;
        }
        return ReplyAction::Answer(accepted_without_reply());
    }
    match messages {
        Some(ms) => {
            if 200 <= status && status < 300 && is_notification {
                ReplyAction::Nothing
            } else {
                ReplyAction::Write(ms)
            }
        },
        None => ReplyAction::Answer(http_status_error(status, body)),
    }
}

/// Whether a reply's content type announces an event stream.
pub fn is_event_stream(content_type: &str) -> (r: bool)
    ensures
        r == crate::text::contains_text_spec(content_type@, "text/event-stream"@),
{
    crate::text::contains_text(content_type, "text/event-stream")
}

/// The id a message answers to: its `id` member, unless absent or null.
/// A message with none is a notification.
pub open spec fn request_id_spec(message: JsonView) -> Option<JsonView> {
    match get_spec(message, "id"@) {
        Some(JsonView::Null) => None,
        other => other,
    }
}

/// The id a message answers to (see [`request_id_spec`]).
pub fn request_id(message: &Json) -> (r: Option<&Json>)
    ensures
        match request_id_spec(message@) {
            Some(v) => r is Some && r->Some_0@ == v,
            None => r is None,
        },
{
    match message.get("id") {
        Some(Json::Null) => None,
        Some(v) => Some(v),
        None => None,
    }
}

/// The request a cancellation names: its `params.requestId`.
pub open spec fn cancel_target_spec(message: JsonView) -> Option<JsonView> {
    match get_spec(message, "params"@) {
        Some(params) => get_spec(params, "requestId"@),
        None => None,
    }
}

/// The request a cancellation names (see [`cancel_target_spec`]).
pub fn cancel_target(message: &Json) -> (r: Option<&Json>)
    ensures
        match cancel_target_spec(message@) {
            Some(v) => r is Some && r->Some_0@ == v,
            None => r is None,
        },
{
    match message.get("params") {
        Some(params) => params.get("requestId"),
        None => None,
    }
}

/// Whether a reply streams as server-sent events: a success other than
/// 202 whose content type announces an event stream.
pub fn streams_reply(status: u16, content_type: &str) -> (r: bool)
    ensures
        r == (status != 202 && 200 <= status < 300 && crate::text::contains_text_spec(
            content_type@,
            "text/event-stream"@,
        )),
{
    status != 202 && 200 <= status && status < 300 && is_event_stream(content_type)
}

/// The message one event-stream payload carries, given what its bytes
/// parse to as JSON: an object, and nothing for an empty payload, one that
/// is not JSON, or any other value.
pub fn stream_message(payload: &[u8], parsed: Option<Json>) -> (r: Option<Json>)
    ensures
        payload@.len() == 0 ==> r is None,
        payload@.len() > 0 ==> match parsed {
            Some(v) => if v@ is Object {
                r == Some(v)
            } else {
                r is None
            },
            None => r is None,
        },
{
    if payload.len() == 0 {
        return None;
    }
    match parsed {
        Some(Json::Object(members)) => Some(Json::Object(members)),
        _ => None,
    }
}

} // verus!
