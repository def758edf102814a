//! The bridge domain's admitted-reasons table: which connection reasons
//! each connection state admits, rendered as a TypeScript constant.

use vstd::prelude::*;
use crate::bindings::generation::join_with;
use crate::text::{owned, push_str};

verus! {

/// The table's opening lines.
pub open spec fn admitted_reasons_head() -> Seq<char> {
    "export const BRIDGE_ADMITTED_CONNECTION_REASONS: Record<\n  BridgeConnectionState,\n  readonly (BridgeConnectionReason | null)[]\n> = {\n"@
}

/// One reason as written in the table: its JSON text, or `null`.
pub open spec fn reason_text(reason: Option<Seq<char>>) -> Seq<char> {
    match reason {
        Some(text) => text,
        None => "null"@,
    }
}

/// One state's line: the state's JSON text and its reasons.
pub open spec fn admitted_line(state: Seq<char>, reasons: Seq<Option<Seq<char>>>) -> Seq<char> {
    "  "@ + state + ": ["@ + join_with(reasons.map_values(|r: Option<Seq<char>>| reason_text(r)), ", "@)
        + "],\n"@
}

/// The lines of every state, in order.
pub open spec fn admitted_lines(entries: Seq<(Seq<char>, Seq<Option<Seq<char>>>)>) -> Seq<char>
    decreases entries.len(),
{
    if entries.len() == 0 {
        Seq::empty()
    } else {
        admitted_lines(entries.drop_last()) + admitted_line(
            entries.last().0,
            entries.last().1,
        )
    }
}

/// The view of one optional reason.
pub open spec fn reason_view(reason: Option<String>) -> Option<Seq<char>> {
    match reason {
        Some(text) => Some(text@),
        None => None,
    }
}

/// The view of the table's entries.
pub open spec fn entries_view(entries: Seq<(String, Vec<Option<String>>)>) -> Seq<
    (Seq<char>, Seq<Option<Seq<char>>>),
> {
    entries.map_values(
        |e: (String, Vec<Option<String>>)|
            (e.0@, e.1@.map_values(|r: Option<String>| reason_view(r))),
    )
}

/// The whole table.
pub open spec fn admitted_reasons_text(entries: Seq<(Seq<char>, Seq<Option<Seq<char>>>)>) -> Seq<
    char,
> {
    admitted_reasons_head() + admitted_lines(entries) + "};\n"@
}

fn reasons_line(state: &str, reasons: &Vec<Option<String>>) -> (r: String)
    ensures
        r@ == admitted_line(state@, reasons@.map_values(|x: Option<String>| reason_view(x))),
{
    let ghost views = reasons@.map_values(|x: Option<String>| reason_view(x)).map_values(
        |x: Option<Seq<char>>| reason_text(x),
    );
    let mut listed = String::new();
    let mut i: usize = 0;
    while i < reasons.len()
        invariant
            i <= reasons@.len(),
            views == reasons@.map_values(|x: Option<String>| reason_view(x)).map_values(
                |x: Option<Seq<char>>| reason_text(x),
            ),
            listed@ == join_with(views.take(i as int), ", "@),
        decreases reasons@.len() - i,
    {
        let ghost prefix = views.take(i + 1);
        proof {
            assert(prefix.drop_last() == views.take(i as int));
        }
        if i > 0 {
            push_str(&mut listed, ", ");
        }
        match &reasons[i] {
            Some(text) => push_str(&mut listed, text.as_str()),
            None => push_str(&mut listed, "null"),
        }
        i += 1;
    }
    assert(views.take(views.len() as int) == views);
    let mut line = owned("  ");
    push_str(&mut line, state);
    push_str(&mut line, ": [");
    push_str(&mut line, listed.as_str());
    push_str(&mut line, "],\n");
    line
}

/// Renders the admitted-reasons table from each state's JSON text and the
/// JSON text of each reason it admits (`None` for the null reason).
pub fn render_admitted_reasons(entries: &Vec<(String, Vec<Option<String>>)>) -> (r: String)
    ensures
        r@ == admitted_reasons_text(entries_view(entries@)),
{
    let ghost views = entries_view(entries@);
    let mut out = owned(
        "export const BRIDGE_ADMITTED_CONNECTION_REASONS: Record<\n  BridgeConnectionState,\n  readonly (BridgeConnectionReason | null)[]\n> = {\n",
    );
    let mut i: usize = 0;
    while i < entries.len()
        invariant
            i <= entries@.len(),
            views == entries_view(entries@),
            out@ == admitted_reasons_head() + admitted_lines(views.take(i as int)),
        decreases entries@.len() - i,
    {
        let ghost prefix = views.take(i + 1);
        proof {
            assert(prefix.drop_last() == views.take(i as int));
            assert(prefix.last() == views[i as int]);
        }
        let line = reasons_line(entries[i].0.as_str(), &entries[i].1);
        push_str(&mut out, line.as_str());
        proof {
            assert(out@ =~= admitted_reasons_head() + admitted_lines(prefix));
        }
        i += 1;
    }
    assert(views.take(views.len() as int) == views);
    push_str(&mut out, "};\n");
    out
}

} // verus!
