//! The generator's command line: `<domain> <write|check>`.

use vstd::prelude::*;
use crate::bindings::generation::GenerationMode;
use crate::text::str_eq;

verus! {

/// The protocol domains the generator serves.
#[derive(Clone, Copy, Debug, PartialEq, Eq, Structural)]
pub enum Domain {
    /// `bridge`.
    Bridge,
    /// `commands`.
    Commands,
    /// `config`.
    Config,
    /// `history`.
    History,
    /// `history-tree`.
    HistoryTree,
    /// `layout`.
    Layout,
    /// `licence`.
    Licence,
    /// `native-content`.
    NativeContent,
    /// `notifications`.
    Notifications,
    /// `update`.
    Update,
    /// `operation`.
    Operation,
    /// `settings`.
    Settings,
    /// `surfaces`.
    Surfaces,
    /// `surface-transfer`.
    SurfaceTransfer,
    /// `transfer`.
    Transfer,
}

/// The domain a command-line word names.
pub open spec fn domain_named(word: Seq<char>) -> Option<Domain> {
    if word == "bridge"@ {
        Some(Domain::Bridge)
    } else if word == "commands"@ {
        Some(Domain::Commands)
    } else if word == "config"@ {
        Some(Domain::Config)
    } else if word == "history"@ {
        Some(Domain::History)
    } else if word == "history-tree"@ {
        Some(Domain::HistoryTree)
    } else if word == "layout"@ {
        Some(Domain::Layout)
    } else if word == "licence"@ {
        Some(Domain::Licence)
    } else if word == "native-content"@ {
        Some(Domain::NativeContent)
    } else if word == "notifications"@ {
        Some(Domain::Notifications)
    } else if word == "update"@ {
        Some(Domain::Update)
    } else if word == "operation"@ {
        Some(Domain::Operation)
    } else if word == "settings"@ {
        Some(Domain::Settings)
    } else if word == "surfaces"@ {
        Some(Domain::Surfaces)
    } else if word == "surface-transfer"@ {
        Some(Domain::SurfaceTransfer)
    } else if word == "transfer"@ {
        Some(Domain::Transfer)
    } else {
        None
    }
}

/// The domain `word` names.
pub fn domain_from(word: &str) -> (r: Option<Domain>)
    ensures
        r == domain_named(word@),
{
    if str_eq(word, "bridge") {
        Some(Domain::Bridge)
    } else if str_eq(word, "commands") {
        Some(Domain::Commands)
    } else if str_eq(word, "config") {
        Some(Domain::Config)
    } else if str_eq(word, "history") {
        Some(Domain::History)
    } else if str_eq(word, "history-tree") {
        Some(Domain::HistoryTree)
    } else if str_eq(word, "layout") {
        Some(Domain::Layout)
    } else if str_eq(word, "licence") {
        Some(Domain::Licence)
    } else if str_eq(word, "native-content") {
        Some(Domain::NativeContent)
    } else if str_eq(word, "notifications") {
        Some(Domain::Notifications)
    } else if str_eq(word, "update") {
        Some(Domain::Update)
    } else if str_eq(word, "operation") {
        Some(Domain::Operation)
    } else if str_eq(word, "settings") {
        Some(Domain::Settings)
    } else if str_eq(word, "surfaces") {
        Some(Domain::Surfaces)
    } else if str_eq(word, "surface-transfer") {
        Some(Domain::SurfaceTransfer)
    } else if str_eq(word, "transfer") {
        Some(Domain::Transfer)
    } else {
        None
    }
}

/// The mode a command-line word names.
pub open spec fn mode_named(word: Seq<char>) -> Option<GenerationMode> {
    if word == "write"@ {
        Some(GenerationMode::Write)
    } else if word == "check"@ {
        Some(GenerationMode::Check)
    } else {
        None
    }
}

/// The usage line.
pub fn usage() -> (r: &'static str)
    ensures
        r@ == usage_text(),
{
    "usage: longhorn-bindings <bridge|commands|config|history|history-tree|layout|licence|native-content|notifications|operation|settings|surfaces|surface-transfer|transfer|update> <write|check>"
}

/// The usage line.
pub open spec fn usage_text() -> Seq<char> {
    "usage: longhorn-bindings <bridge|commands|config|history|history-tree|layout|licence|native-content|notifications|operation|settings|surfaces|surface-transfer|transfer|update> <write|check>"@
}

/// The verdict on the arguments after the program name: exactly a known
/// domain and a mode; the mode is judged before the domain. Anything else
/// earns the usage line.
pub open spec fn run_args_spec(args: Seq<Seq<char>>) -> Option<(Domain, GenerationMode)> {
    if args.len() > 2 {
        None
    } else {
        let mode = if args.len() >= 2 { mode_named(args[1]) } else { None };
        let domain = if args.len() >= 1 { domain_named(args[0]) } else { None };
        match (mode, domain) {
            (Some(m), Some(d)) => Some((d, m)),
            _ => None,
        }
    }
}

/// Reads `<domain> <write|check>` from the arguments after the program
/// name; any other shape is refused with the usage line.
pub fn parse_run_args(args: &Vec<String>) -> (r: Result<(Domain, GenerationMode), &'static str>)
    ensures
        match run_args_spec(args@.map_values(|s: String| s@)) {
            Some(p) => r == Ok::<(Domain, GenerationMode), &'static str>(p),
            None => r is Err && r->Err_0@ == usage_text(),
        },
{
    let ghost words = args@.map_values(|s: String| s@);
    if args.len() > 2 {
        return Err(usage());
    }
    let mode = if args.len() >= 2 {
        let w = args[1].as_str();
        assert(words[1] == w@);
        if str_eq(w, "write") {
            Some(GenerationMode::Write)
        } else if str_eq(w, "check") {
            Some(GenerationMode::Check)
        } else {
            None
        }
    } else {
        None
    };
    let mode = match mode {
        Some(m) => m,
        None => return Err(usage()),
    };
    assert(words[0] == args@[0]@);
    match domain_from(args[0].as_str()) {
        Some(d) => Ok((d, mode)),
        None => Err(usage()),
    }
}

} // verus!
