//! Discovery records: one file per serving instance, named
//! `<app-id>-<pid>.json`, carrying app id, pid, port, token, and schema
//! version. Agents enumerate the directory to find live instances; a file
//! whose pid is dead is stale.
//!
//! This module holds the rules: which app ids are safe file names, how a
//! record's file is named, which names and payloads an enumeration accepts.
//! Reading, writing, and probing processes happen around it.

use vstd::prelude::*;
use crate::control::carrier::{join_path, joined_path, separator, TargetPlatform};
use crate::control::token::InstanceToken;
use crate::text::{
    chars_of, copy_string, decimal, decimal_string, is_ascii_alphanumeric, is_ascii_alphanumeric_spec,
    owned, parse_decimal, parse_unsigned, push_str, rust_debug_str, str_eq, string_from_prefix,
    string_from_suffix, utf8_len, utf8_len_exceeds, debug_str,
};

verus! {

/// Discovery file schema version.
pub const DISCOVERY_SCHEMA_VERSION: u32 = 1;

/// Directory below the resolved state root that holds the records.
pub const DISCOVERY_DIR_CHILD: &'static str = "agent-control";

/// Discovery publication or enumeration failure.
#[derive(Debug)]
pub enum DiscoveryError {
    /// The app id is not one safe file name component.
    InvalidAppId {
        /// Rejected app id.
        app_id: String,
    },
    /// Filesystem failure beneath the discovery directory.
    Io {
        /// Path being operated on.
        path: String,
        /// What the operating system reported.
        detail: String,
    },
}

impl DiscoveryError {
    /// The error's wording.
    pub fn message(&self) -> (r: String)
        ensures
            match self {
                DiscoveryError::InvalidAppId { app_id } => r@ == "app id "@ + rust_debug_str(
                    app_id@,
                ) + " is not one safe filename component"@,
                DiscoveryError::Io { path, detail } => r@ == path@ + ": "@ + detail@,
            },
    {
        match self {
            DiscoveryError::InvalidAppId { app_id } => {
                let mut out = owned("app id ");
                let quoted = debug_str(app_id.as_str());
                push_str(&mut out, quoted.as_str());
                push_str(&mut out, " is not one safe filename component");
                out
            },
            DiscoveryError::Io { path, detail } => {
                let mut out = owned(path.as_str());
                push_str(&mut out, ": ");
                push_str(&mut out, detail.as_str());
                out
            },
        }
    }
}

/// One instance's discovery record: everything an agent needs to reach it.
pub struct DiscoveryFile {
    /// Discovery schema version; see [`DISCOVERY_SCHEMA_VERSION`].
    pub schema_version: u32,
    /// Canonical application id of the serving instance.
    pub app_id: String,
    /// Operating system process id of the serving instance.
    pub pid: u32,
    /// Loopback port the instance's control server is bound to.
    pub port: u16,
    /// Per-instance bearer token required by the control server.
    pub token: InstanceToken,
}

/// A symbol allowed in an app id.
pub open spec fn app_id_symbol(c: char) -> bool {
    is_ascii_alphanumeric_spec(c) || c == '.' || c == '_' || c == '-'
}

/// Whether `app_id` is one safe file name component: non-empty, at most 255
/// bytes, not `.` or `..`, and made of ASCII letters, digits, `.`, `_` and
/// `-` only.
pub open spec fn safe_app_id(app_id: Seq<char>) -> bool {
    &&& app_id.len() > 0
    &&& utf8_len(app_id) <= 255
    &&& app_id != "."@
    &&& app_id != ".."@
    &&& forall|i: int| 0 <= i < app_id.len() ==> app_id_symbol(#[trigger] app_id[i])
}

/// Accepts `app_id` when it is one safe file name component.
pub fn validate_app_id(app_id: &str) -> (r: Result<(), DiscoveryError>)
    ensures
        safe_app_id(app_id@) ==> r is Ok,
        !safe_app_id(app_id@) ==> (r matches Err(DiscoveryError::InvalidAppId { app_id: a })
            && a@ == app_id@),
{
    if app_id.is_empty() || utf8_len_exceeds(app_id, 255) || str_eq(app_id, ".") || str_eq(
        app_id,
        "..",
    ) {
        return Err(DiscoveryError::InvalidAppId { app_id: owned(app_id) });
    }
    let cs = chars_of(app_id);
    let mut i: usize = 0;
    while i < cs.len()
        invariant
            i <= cs@.len(),
            cs@ == app_id@,
            forall|k: int| 0 <= k < i ==> app_id_symbol(#[trigger] cs@[k]),
        decreases cs@.len() - i,
    {
        let c = cs[i];
        if !(is_ascii_alphanumeric(c) || c == '.' || c == '_' || c == '-') {
            assert(!app_id_symbol(app_id@[i as int]));
            return Err(DiscoveryError::InvalidAppId { app_id: owned(app_id) });
        }
        i += 1;
    }
    Ok(())
}

/// The file name a record of `app_id` served by `pid` is published under.
pub open spec fn record_file_name(app_id: Seq<char>, pid: nat) -> Seq<char> {
    app_id + "-"@ + decimal(pid) + ".json"@
}

/// The file name `<app-id>-<pid>.json` of a record.
pub fn discovery_file_name(app_id: &str, pid: u32) -> (r: String)
    ensures
        r@ == record_file_name(app_id@, pid as nat),
{
    let mut out = owned(app_id);
    push_str(&mut out, "-");
    let digits = decimal_string(pid as u64);
    push_str(&mut out, digits.as_str());
    push_str(&mut out, ".json");
    out
}

/// A discovery file to publish: where it is written and what it says.
/// Writing it, and removing it on clean exit, happen around this value.
pub struct DiscoveryInstance {
    path: String,
    file: DiscoveryFile,
}

impl DiscoveryInstance {
    /// The record process `pid` publishes for `app_id` on `port` with
    /// `token`, at `<dir>/<app-id>-<pid>.json`. An unsafe app id is refused
    /// before anything is written.
    pub fn prepare(
        dir: &str,
        app_id: &str,
        pid: u32,
        port: u16,
        token: InstanceToken,
        platform: TargetPlatform,
    ) -> (r: Result<DiscoveryInstance, DiscoveryError>)
        ensures
            safe_app_id(app_id@) ==> (r matches Ok(instance) && instance.path_spec() == joined_path(
                dir@,
                record_file_name(app_id@, pid as nat),
                separator(platform),
            ) && instance.file_spec().schema_version == DISCOVERY_SCHEMA_VERSION
                && instance.file_spec().app_id@ == app_id@ && instance.file_spec().pid == pid
                && instance.file_spec().port == port && instance.file_spec().token == token),
            !safe_app_id(app_id@) ==> (r matches Err(DiscoveryError::InvalidAppId { app_id: a })
                && a@ == app_id@),
    {
        match validate_app_id(app_id) {
            Ok(()) => {},
            Err(error) => return Err(error),
        }
        let name = discovery_file_name(app_id, pid);
        let sep = match platform {
            TargetPlatform::Windows => '\\',
            _ => '/',
        };
        let path = join_path(dir, name.as_str(), sep);
        let file = DiscoveryFile {
            schema_version: DISCOVERY_SCHEMA_VERSION,
            app_id: owned(app_id),
            pid,
            port,
            token,
        };
        Ok(DiscoveryInstance { path, file })
    }

    /// The file's path.
    pub closed spec fn path_spec(&self) -> Seq<char> {
        self.path@
    }

    /// The record.
    pub closed spec fn file_spec(&self) -> DiscoveryFile {
        self.file
    }

    /// The published file's path.
    pub fn path(&self) -> (r: &str)
        ensures
            r@ == self.path_spec(),
    {
        self.path.as_str()
    }

    /// The published record.
    pub fn file(&self) -> (r: &DiscoveryFile)
        ensures
            *r == self.file_spec(),
    {
        &self.file
    }
}

/// Index of the last `c` in `s`.
pub open spec fn last_index_of(s: Seq<char>, c: char) -> Option<int>
    decreases s.len(),
{
    if s.len() == 0 {
        None
    } else if s.last() == c {
        Some(s.len() - 1)
    } else {
        last_index_of(s.drop_last(), c)
    }
}

/// What a file stem `<app-id>-<pid>` names: split at its last `-`, a pid
/// that reads as a `u32` (an optional leading `+` allowed, as `u32`'s
/// parser allows), and a safe app id before it.
pub open spec fn record_stem(stem: Seq<char>) -> Option<(Seq<char>, nat)> {
    match last_index_of(stem, '-') {
        None => None,
        Some(i) => {
            let app_id = stem.take(i);
            match parse_unsigned(stem.skip(i + 1), u32::MAX as nat, true) {
                Some(pid) => if safe_app_id(app_id) {
                    Some((app_id, pid))
                } else {
                    None
                },
                None => None,
            }
        },
    }
}

/// Reads a record file's stem `<app-id>-<pid>` into its app id and pid.
pub fn parse_record_stem(stem: &str) -> (r: Option<(String, u32)>)
    ensures
        match record_stem(stem@) {
            Some((a, p)) => r is Some && r->Some_0.0@ == a && r->Some_0.1 as nat == p,
            None => r is None,
        },
{
    let cs = chars_of(stem);
    let mut i: usize = cs.len();
    let mut found = false;
    assert(cs@.take(i as int) == cs@);
    while !found && i > 0
        invariant
            i <= cs@.len(),
            cs@ == stem@,
            last_index_of(stem@, '-') == last_index_of(cs@.take(i as int), '-'),
            found ==> i > 0 && cs@[i - 1] == '-',
        decreases i, if found { 0int } else { 1int },
    {
        let ghost prefix = cs@.take(i as int);
        assert(prefix.drop_last() == cs@.take(i - 1));
        assert(prefix.last() == cs@[i - 1]);
        if cs[i - 1] == '-' {
            found = true;
        } else {
            i -= 1;
        }
    }
    if !found {
        assert(cs@.take(0) == Seq::<char>::empty());
        return None;
    }
    let dash = i - 1;
    assert(cs@.take(i as int).last() == '-');
    assert(last_index_of(stem@, '-') == Some(dash as int));
    let app_id = string_from_prefix(&cs, dash);
    let pid_text = string_from_suffix(&cs, dash + 1);
    let pid = match parse_decimal(pid_text.as_str(), 4294967295u64, true) {
        Some(p) => p,
        None => return None,
    };
    if validate_app_id(app_id.as_str()).is_err() {
        return None;
    }
    Some((app_id, pid as u32))
}

/// Whether a parsed record agrees with its file name and the current
/// schema: same schema version, app id and pid.
pub open spec fn record_agrees(file: DiscoveryFile, app_id: Seq<char>, pid: nat) -> bool {
    file.schema_version == DISCOVERY_SCHEMA_VERSION && file.app_id@ == app_id && file.pid == pid
}

/// Checks a parsed record against the app id and pid its file name carries.
pub fn record_matches_name(file: &DiscoveryFile, app_id: &str, pid: u32) -> (r: bool)
    ensures
        r == record_agrees(*file, app_id@, pid as nat),
{
    file.schema_version == DISCOVERY_SCHEMA_VERSION && str_eq(file.app_id.as_str(), app_id)
        && file.pid == pid
}

/// One enumerated instance: the parsed record plus its liveness verdict.
pub struct DiscoveryRecord {
    /// The file's path.
    pub path: String,
    /// The parsed record.
    pub file: DiscoveryFile,
    /// Whether the record's pid is a live process.
    pub live: bool,
}

impl DiscoveryRecord {
    /// The file's path.
    pub fn path(&self) -> (r: &str)
        ensures
            r@ == self.path@,
    {
        self.path.as_str()
    }

    /// The parsed record.
    pub fn file(&self) -> (r: &DiscoveryFile)
        ensures
            *r == self.file,
    {
        &self.file
    }

    /// Whether the record's pid is a live process.
    pub fn is_live(&self) -> (r: bool)
        ensures
            r == self.live,
    {
        self.live
    }

    /// Whether the record is stale: its pid is dead.
    pub fn is_stale(&self) -> (r: bool)
        ensures
            r == !self.live,
    {
        !self.live
    }
}

/// Result of enumerating the discovery directory.
pub struct DiscoveryScan {
    /// Parsed records with liveness verdicts.
    pub instances: Vec<DiscoveryRecord>,
    /// Files that failed the name, schema, or parse checks.
    pub unreadable: Vec<String>,
}

/// The paths of the enumerated records whose pid is dead, in enumeration
/// order.
pub open spec fn stale_record_paths(records: Seq<DiscoveryRecord>) -> Seq<Seq<char>>
    decreases records.len(),
{
    if records.len() == 0 {
        Seq::empty()
    } else {
        let rest = stale_record_paths(records.drop_last());
        if records.last().live {
            rest
        } else {
            rest.push(records.last().path@)
        }
    }
}

/// Picks the records to sweep before publishing: every enumerated record
/// whose pid is dead, by path, in enumeration order. Live records and
/// unreadable files are left alone.
pub fn stale_paths(scan: &DiscoveryScan) -> (r: Vec<String>)
    ensures
        r@.map_values(|p: String| p@) == stale_record_paths(scan.instances@),
{
    let mut out: Vec<String> = Vec::new();
    let mut i: usize = 0;
    assert(scan.instances@.take(0) =~= Seq::<DiscoveryRecord>::empty());
    assert(out@.map_values(|p: String| p@) =~= Seq::<Seq<char>>::empty());
    while i < scan.instances.len()
        invariant
            i <= scan.instances@.len(),
            out@.map_values(|p: String| p@) == stale_record_paths(scan.instances@.take(i as int)),
        decreases scan.instances@.len() - i,
    {
        let ghost before = out@;
        assert(scan.instances@.take(i + 1).drop_last() == scan.instances@.take(i as int));
        assert(scan.instances@.take(i + 1).last() == scan.instances@[i as int]);
        if !scan.instances[i].live {
            out.push(copy_string(&scan.instances[i].path));
            assert(out@.map_values(|p: String| p@) =~= before.map_values(|p: String| p@).push(
                scan.instances@[i as int].path@,
            ));
        }
        i += 1;
    }
    assert(scan.instances@.take(scan.instances@.len() as int) == scan.instances@);
    out
}

/// A safe app id cannot leave the discovery directory: it holds no path
/// separator and is neither `.` nor `..`.
pub proof fn law_safe_app_ids_stay_in_directory(app_id: Seq<char>)
    requires
        safe_app_id(app_id),
    ensures
        !crate::text::has_char(app_id, '/'),
        !crate::text::has_char(app_id, '\\'),
        app_id != "."@,
        app_id != ".."@,
{
    if crate::text::has_char(app_id, '/') {
        let i = choose|i: int| 0 <= i < app_id.len() && #[trigger] app_id[i] == '/';
        assert(app_id_symbol(app_id[i]));
    }
    if crate::text::has_char(app_id, '\\') {
        let i = choose|i: int| 0 <= i < app_id.len() && #[trigger] app_id[i] == '\\';
        assert(app_id_symbol(app_id[i]));
    }
}

proof fn lemma_last_dash(head: Seq<char>, tail: Seq<char>)
    requires
        forall|i: int| 0 <= i < tail.len() ==> #[trigger] tail[i] != '-',
    ensures
        last_index_of(head.push('-') + tail, '-') == Some(head.len() as int),
    decreases tail.len(),
{
    let whole = head.push('-') + tail;
    if tail.len() == 0 {
        assert(whole == head.push('-'));
    } else {
        assert(whole.last() == tail.last());
        assert(whole.drop_last() == head.push('-') + tail.drop_last());
        lemma_last_dash(head, tail.drop_last());
    }
}

/// A record published under its file name is found again under it: the
/// stem `<app-id>-<pid>` of the name reads back as that app id and pid.
pub proof fn law_record_names_round_trip(app_id: Seq<char>, pid: nat)
    requires
        safe_app_id(app_id),
        pid <= u32::MAX,
    ensures
        record_stem(app_id + "-"@ + decimal(pid)) == Some((app_id, pid)),
{
    reveal_strlit("-");
    let digits = decimal(pid);
    crate::text::lemma_decimal_reads_back(pid);
    assert(app_id + "-"@ == app_id.push('-'));
    let stem = app_id + "-"@ + digits;
    assert forall|i: int| 0 <= i < digits.len() implies #[trigger] digits[i] != '-' by {
        assert(crate::text::is_ascii_digit_spec(digits[i]));
    }
    lemma_last_dash(app_id, digits);
    assert(stem.take(app_id.len() as int) == app_id);
    assert(stem.skip(app_id.len() as int + 1) == digits);
    assert(crate::text::is_ascii_digit_spec(digits[0]));
}

} // verus!
