//! Command-line arguments of the stdio carrier client.

use vstd::prelude::*;
use crate::text::{copy_string, owned, push_str, str_eq};

verus! {

/// The client's options.
pub struct Args {
    /// `--discovery-dir`: the directory to enumerate.
    pub discovery_dir: Option<String>,
    /// `--state-root`: an explicit state root to resolve under.
    pub state_root: Option<String>,
    /// `--app-id`: the app whose instance to front.
    pub app_id: Option<String>,
}

/// The options as mathematical values.
pub struct ArgsView {
    /// `--discovery-dir`.
    pub discovery_dir: Option<Seq<char>>,
    /// `--state-root`.
    pub state_root: Option<Seq<char>>,
    /// `--app-id`.
    pub app_id: Option<Seq<char>>,
}

/// The usage line.
pub open spec fn usage_text() -> Seq<char> {
    "usage: longhorn-agent-control-client [--discovery-dir <dir>] [--state-root <dir>] [--app-id <id>]"@
}

/// The usage line.
pub fn usage() -> (r: &'static str)
    ensures
        r@ == usage_text(),
{
    "usage: longhorn-agent-control-client [--discovery-dir <dir>] [--state-root <dir>] [--app-id <id>]"
}

/// Reads flag-value pairs from `rest` onto `acc`: each known flag sets its
/// option (a later one winning), `--help` or `-h` asks for help, anything
/// else is an unknown flag; a lone trailing word is unexpected.
pub open spec fn parse_pairs(rest: Seq<Seq<char>>, acc: ArgsView) -> Result<ArgsView, Seq<char>>
    decreases rest.len(),
{
    if rest.len() >= 2 {
        let flag = rest[0];
        let value = rest[1];
        if flag == "--discovery-dir"@ {
            parse_pairs(rest.skip(2), ArgsView { discovery_dir: Some(value), ..acc })
        } else if flag == "--state-root"@ {
            parse_pairs(rest.skip(2), ArgsView { state_root: Some(value), ..acc })
        } else if flag == "--app-id"@ {
            parse_pairs(rest.skip(2), ArgsView { app_id: Some(value), ..acc })
        } else if flag == "--help"@ || flag == "-h"@ {
            Err("help"@)
        } else {
            Err("unknown flag "@ + flag)
        }
    } else if rest.len() == 1 {
        Err("unexpected argument "@ + rest[0])
    } else {
        Ok(acc)
    }
}

/// The verdict on a whole argument vector, program name first.
pub open spec fn parse_args_spec(argv: Seq<Seq<char>>) -> Result<ArgsView, Seq<char>> {
    match parse_pairs(
        argv.skip(1),
        ArgsView { discovery_dir: None, state_root: None, app_id: None },
    ) {
        Ok(a) => if a.discovery_dir is Some && a.state_root is Some {
            Err("--discovery-dir and --state-root are mutually exclusive"@)
        } else {
            Ok(a)
        },
        Err(e) => Err(e),
    }
}

/// The view of parsed options.
pub open spec fn args_view(a: Args) -> ArgsView {
    ArgsView {
        discovery_dir: match a.discovery_dir {
            Some(s) => Some(s@),
            None => None,
        },
        state_root: match a.state_root {
            Some(s) => Some(s@),
            None => None,
        },
        app_id: match a.app_id {
            Some(s) => Some(s@),
            None => None,
        },
    }
}

/// Parses the client's argument vector (program name first): flag-value
/// pairs of `--discovery-dir`, `--state-root` and `--app-id`; the first
/// two are mutually exclusive. `Err("help")` asks for the usage line.
pub fn parse_args(argv: &Vec<String>) -> (r: Result<Args, String>)
    requires
        argv@.len() >= 1,
    ensures
        match parse_args_spec(argv@.map_values(|s: String| s@)) {
            Ok(a) => r is Ok && args_view(r->Ok_0) == a,
            Err(e) => r is Err && r->Err_0@ == e,
        },
{
    let ghost words = argv@.map_values(|s: String| s@);
    let mut args = Args { discovery_dir: None, state_root: None, app_id: None };
    let mut i: usize = 1;
    assert(words.skip(1) == words.skip(i as int));
    while i < argv.len() - 1
        invariant
            1 <= i <= argv@.len(),
            argv@.len() >= 1,
            words == argv@.map_values(|s: String| s@),
            parse_pairs(words.skip(1), ArgsView { discovery_dir: None, state_root: None, app_id: None })
                == parse_pairs(words.skip(i as int), args_view(args)),
        decreases argv@.len() - i,
    {
        let flag = argv[i].as_str();
        let value = &argv[i + 1];
        let ghost rest = words.skip(i as int);
        assert(rest[0] == flag@ && rest[1] == value@);
        assert(rest.skip(2) == words.skip(i + 2));
        if str_eq(flag, "--discovery-dir") {
            args.discovery_dir = Some(copy_string(value));
        } else if str_eq(flag, "--state-root") {
            args.state_root = Some(copy_string(value));
        } else if str_eq(flag, "--app-id") {
            args.app_id = Some(copy_string(value));
        } else if str_eq(flag, "--help") || str_eq(flag, "-h") {
            return Err(owned("help"));
        } else {
            let mut m = owned("unknown flag ");
            push_str(&mut m, flag);
            return Err(m);
        }
        i += 2;
    }
    if i < argv.len() {
        let ghost rest = words.skip(i as int);
        assert(rest.len() == 1 && rest[0] == argv@[i as int]@);
        let mut m = owned("unexpected argument ");
        push_str(&mut m, argv[i].as_str());
        return Err(m);
    }
    assert(words.skip(i as int).len() == 0);
    if args.discovery_dir.is_some() && args.state_root.is_some() {
        return Err(owned("--discovery-dir and --state-root are mutually exclusive"));
    }
    Ok(args)
}

} // verus!
