//! Shared generation primitives: artifact application, tagged-union reads,
//! field maps, and label rendering.

use vstd::prelude::*;
use crate::text::{
    chars_of, copy_string, find_chars, find_from, find_spec, is_ascii_alphanumeric,
    is_ascii_alphanumeric_spec, is_ascii_digit_spec, lemma_text_lt_irreflexive,
    lemma_text_lt_total, owned, push_char, push_str, str_eq, string_from_chars, sub_chars,
    text_less, text_lt, trim_char, trim_char_spec, trim_chars, trim_end_char, trim_end_char_spec,
    trim_end_spec, trim_spec, trim_start_spec,
};

verus! {

/// Requested checked-artifact operation.
#[derive(Clone, Copy, Debug, PartialEq, Eq, Structural)]
pub enum GenerationMode {
    /// Replace changed generated artifacts.
    Write,
    /// Fail when any checked artifact differs.
    Check,
}

/// One repository-relative generated artifact.
pub struct Artifact {
    /// Path relative to the repository root.
    pub relative_path: String,
    /// The artifact's full text.
    pub contents: String,
}

/// A generation failure, by its wording.
#[derive(Debug)]
pub struct GenerationError {
    /// What went wrong.
    pub message: String,
}

/// The text of each string.
pub open spec fn texts(v: Seq<String>) -> Seq<Seq<char>> {
    v.map_values(|s: String| s@)
}

/// `s` split at every occurrence of the non-empty `sep`, left to right.
pub open spec fn split_spec(s: Seq<char>, sep: Seq<char>) -> Seq<Seq<char>>
    decreases s.len(),
{
    if sep.len() == 0 {
        seq![s]
    } else {
        match find_spec(s, sep) {
            None => seq![s],
            Some(i) => {
                proof {
                    lemma_find_from_bounds(s, sep, 0);
                }
                seq![s.take(i)] + split_spec(s.skip(i + sep.len()), sep)
            },
        }
    }
}

/// Where [`find_from`] finds something, it is an occurrence.
pub proof fn lemma_find_from_bounds(s: Seq<char>, needle: Seq<char>, i: int)
    requires
        0 <= i,
    ensures
        find_from(s, needle, i) matches Some(k) ==> i <= k && k + needle.len() <= s.len()
            && s.subrange(k, k + needle.len()) == needle,
        find_from(s, needle, i) is None ==> forall|k: int|
            i <= k && k + needle.len() <= s.len() ==> #[trigger] s.subrange(k, k + needle.len())
                != needle,
    decreases s.len() - i,
{
    if i >= 0 && i + needle.len() <= s.len() && !(s.subrange(i, i + needle.len()) == needle) {
        if needle.len() == 0 {
            assert(s.subrange(i, i + needle.len()) =~= needle);
        }
        lemma_find_from_bounds(s, needle, i + 1);
    }
}

/// Splits `v` at every occurrence of the non-empty `sep`.
pub fn split_chars(v: &Vec<char>, sep: &Vec<char>) -> (r: Vec<Vec<char>>)
    requires
        sep@.len() > 0,
    ensures
        r@.map_values(|p: Vec<char>| p@) == split_spec(v@, sep@),
{
    let mut parts: Vec<Vec<char>> = Vec::new();
    let mut start: usize = 0;
    let ghost whole = v@;
    assert(whole.skip(0) == whole);
    loop
        invariant
            start <= v@.len(),
            whole == v@,
            sep@.len() > 0,
            split_spec(whole, sep@) == parts@.map_values(|p: Vec<char>| p@) + split_spec(
                whole.skip(start as int),
                sep@,
            ),
        decreases v@.len() - start,
    {
        let found = find_chars(v, sep, start);
        let ghost rest = whole.skip(start as int);
        proof {
            lemma_find_from_bounds(whole, sep@, start as int);
            lemma_find_shift(whole, sep@, start as int);
        }
        match found {
            None => {
                let ghost before = parts@;
                parts.push(sub_chars(v, start, v.len()));
                proof {
                    assert(whole.subrange(start as int, whole.len() as int) == rest);
                    assert(parts@.map_values(|p: Vec<char>| p@) =~= before.map_values(
                        |p: Vec<char>| p@,
                    ) + seq![rest]);
                }
                return parts;
            },
            Some(i) => {
                assert(start <= i && i + sep@.len() <= v@.len());
                assert(v@.len() == v.len() && sep@.len() == sep.len());
                let ghost before = parts@;
                parts.push(sub_chars(v, start, i));
                proof {
                    assert(rest.take(i - start) == whole.subrange(start as int, i as int));
                    assert(rest.skip(i - start + sep@.len()) == whole.skip(i + sep@.len()));
                    assert(parts@.map_values(|p: Vec<char>| p@) =~= before.map_values(
                        |p: Vec<char>| p@,
                    ).push(rest.take(i - start)));
                    assert(seq![rest.take(i - start)] + split_spec(whole.skip(i + sep@.len()), sep@)
                        == split_spec(rest, sep@));
                    assert(before.map_values(|p: Vec<char>| p@) + split_spec(rest, sep@) =~= parts@.map_values(
                        |p: Vec<char>| p@,
                    ) + split_spec(whole.skip(i + sep@.len()), sep@));
                }
                start = i + sep.len();
            },
        }
    }
}

/// Searching from `i` finds, relative to `i`, what searching the suffix
/// from its start finds.
pub proof fn lemma_find_shift(s: Seq<char>, needle: Seq<char>, i: int)
    requires
        0 <= i <= s.len(),
    ensures
        find_spec(s.skip(i), needle) == match find_from(s, needle, i) {
            Some(k) => Some(k - i),
            None => None::<int>,
        },
{
    lemma_find_shift_from(s, needle, i, i);
}

proof fn lemma_find_shift_from(s: Seq<char>, needle: Seq<char>, i: int, j: int)
    requires
        0 <= i <= j,
        i <= s.len(),
    ensures
        find_from(s.skip(i), needle, j - i) == match find_from(s, needle, j) {
            Some(k) => Some(k - i),
            None => None::<int>,
        },
    decreases s.len() - j,
{
    if j + needle.len() <= s.len() {
        assert(s.skip(i).subrange(j - i, j - i + needle.len()) =~= s.subrange(j, j + needle.len()));
        if !(s.subrange(j, j + needle.len()) == needle) {
            if needle.len() == 0 {
                assert(s.subrange(j, j + needle.len()) =~= needle);
            }
            lemma_find_shift_from(s, needle, i, j + 1);
        }
    }
}

/// `declaration` with a leading `type ` turned into `export type `.
pub open spec fn exported_spec(declaration: Seq<char>) -> Seq<char> {
    if "type "@.len() <= declaration.len() && declaration.take("type "@.len() as int) == "type "@ {
        "export type "@ + declaration.skip("type "@.len() as int)
    } else {
        declaration
    }
}

/// Exports a generated `type` declaration.
pub fn exported_declaration(declaration: String) -> (r: String)
    ensures
        r@ == exported_spec(declaration@),
{
    match crate::text::strip_prefix_owned(declaration.as_str(), "type ") {
        Some(body) => {
            let mut out = owned("export type ");
            push_str(&mut out, body.as_str());
            out
        },
        None => declaration,
    }
}

/// A segment up to its first `"`, or all of it.
pub open spec fn before_quote(segment: Seq<char>) -> Seq<char> {
    match find_spec(segment, seq!['"']) {
        Some(i) => segment.take(i),
        None => segment,
    }
}

/// The values of `"<tag>": "..."` pairs in a declaration, in order.
pub open spec fn tagged_values(declaration: Seq<char>, tag: Seq<char>) -> Seq<Seq<char>> {
    let marker = "\""@ + tag + "\": \""@;
    split_spec(declaration, marker).drop_first().map_values(|seg: Seq<char>| before_quote(seg))
}

fn before_quote_of(segment: &Vec<char>) -> (r: String)
    ensures
        r@ == before_quote(segment@),
{
    let quote = vec!['"'];
    assert(quote@ =~= seq!['"']);
    match find_chars(segment, &quote, 0) {
        Some(i) => {
            proof {
                lemma_find_from_bounds(segment@, quote@, 0);
            }
            let part = sub_chars(segment, 0, i);
            assert(part@ == segment@.take(i as int));
            string_from_chars(part.as_slice())
        },
        None => string_from_chars(segment.as_slice()),
    }
}

/// Reads the discriminant values of a generated tagged union: the value of
/// every `"<tag>": "..."` pair, in order. A declaration with none is an
/// error.
pub fn tagged_variants(declaration: &str, tag: &str) -> (r: Result<Vec<String>, GenerationError>)
    ensures
        tagged_values(declaration@, tag@).len() > 0 ==> r is Ok && texts(r->Ok_0@) == tagged_values(
            declaration@,
            tag@,
        ),
        tagged_values(declaration@, tag@).len() == 0 ==> r is Err && r->Err_0.message@
            == "generated declaration has no `"@ + tag@ + "` variants"@,
{
    let mut marker = owned("\"");
    push_str(&mut marker, tag);
    push_str(&mut marker, "\": \"");
    proof {
        reveal_strlit("\"");
        assert(marker@.len() >= 1);
    }
    let text = chars_of(declaration);
    let sep = chars_of(marker.as_str());
    let parts = split_chars(&text, &sep);
    let ghost ps = parts@.map_values(|p: Vec<char>| p@);
    let mut values: Vec<String> = Vec::new();
    let mut i: usize = 1;
    while i < parts.len()
        invariant
            1 <= i <= parts@.len() || (i == 1 && parts@.len() == 0),
            ps == parts@.map_values(|p: Vec<char>| p@),
            ps.len() >= 1 ==> texts(values@) == ps.drop_first().take(i - 1).map_values(
                |seg: Seq<char>| before_quote(seg),
            ),
            values@.len() == i - 1,
        decreases parts@.len() - i,
    {
        let ghost before = values@;
        values.push(before_quote_of(&parts[i]));
        proof {
            assert(ps.drop_first().take(i as int) == ps.drop_first().take(i - 1).push(ps[i as int]));
            assert(texts(values@) =~= texts(before).push(before_quote(ps[i as int])));
        }
        i += 1;
    }
    proof {
        assert(split_spec(text@, sep@).len() >= 1) by {
            lemma_split_nonempty(text@, sep@);
        }
        assert(ps.drop_first().take(ps.len() - 1) == ps.drop_first());
    }
    if values.len() == 0 {
        let mut m = owned("generated declaration has no `");
        push_str(&mut m, tag);
        push_str(&mut m, "` variants");
        return Err(GenerationError { message: m });
    }
    Ok(values)
}

/// Splitting always yields at least one part.
pub proof fn lemma_split_nonempty(s: Seq<char>, sep: Seq<char>)
    ensures
        split_spec(s, sep).len() >= 1,
    decreases s.len(),
{
}

/// Keeps the quoted parts, without their quotes, each part trimmed first.
pub open spec fn quoted_values(parts: Seq<Seq<char>>) -> Seq<Seq<char>>
    decreases parts.len(),
{
    if parts.len() == 0 {
        Seq::empty()
    } else {
        let rest = quoted_values(parts.drop_last());
        let t = trim_spec(parts.last());
        if t.len() >= 2 && t[0] == '"' && t.last() == '"' {
            rest.push(t.subrange(1, t.len() - 1))
        } else {
            rest
        }
    }
}

/// The members of a generated string union `... = "a" | "b";`, when it has
/// an assignment.
pub open spec fn union_values(declaration: Seq<char>) -> Option<Seq<Seq<char>>> {
    match find_spec(declaration, "="@) {
        None => None,
        Some(i) => Some(
            quoted_values(
                split_spec(trim_end_char_spec(trim_spec(declaration.skip(i + 1)), ';'), "|"@),
            ),
        ),
    }
}

/// Reads the members of a generated string union. No assignment, or no
/// quoted member, is an error.
pub fn string_union_variants(declaration: &str) -> (r: Result<Vec<String>, GenerationError>)
    ensures
        match union_values(declaration@) {
            None => r is Err && r->Err_0.message@ == "generated string union has no assignment"@,
            Some(vs) => if vs.len() == 0 {
                r is Err && r->Err_0.message@ == "generated string union has no variants"@
            } else {
                r is Ok && texts(r->Ok_0@) == vs
            },
        },
{
    let text = chars_of(declaration);
    let eq = vec!['='];
    assert(eq@ =~= "="@) by {
        reveal_strlit("=");
    }
    let i = match find_chars(&text, &eq, 0) {
        Some(i) => i,
        None => {
            return Err(GenerationError { message: owned("generated string union has no assignment") });
        },
    };
    proof {
        lemma_find_from_bounds(text@, eq@, 0);
    }
    assert(text@.len() == text.len());
    let body = sub_chars(&text, i + 1, text.len());
    assert(body@ == text@.skip(i + 1));
    let trimmed = trim_chars(&body);
    let bare = trim_end_char(&trimmed, ';');
    let bar = vec!['|'];
    assert(bar@ =~= "|"@) by {
        reveal_strlit("|");
    }
    let parts = split_chars(&bare, &bar);
    let ghost ps = parts@.map_values(|p: Vec<char>| p@);
    let mut values: Vec<String> = Vec::new();
    let mut k: usize = 0;
    while k < parts.len()
        invariant
            k <= parts@.len(),
            ps == parts@.map_values(|p: Vec<char>| p@),
            texts(values@) == quoted_values(ps.take(k as int)),
        decreases parts@.len() - k,
    {
        let ghost prefix = ps.take(k + 1);
        proof {
            assert(prefix.drop_last() == ps.take(k as int));
            assert(prefix.last() == parts@[k as int]@);
        }
        let t = trim_chars(&parts[k]);
        if t.len() >= 2 && t[0] == '"' && t[t.len() - 1] == '"' {
            let inner = sub_chars(&t, 1, t.len() - 1);
            let ghost before = values@;
            values.push(string_from_chars(inner.as_slice()));
            assert(texts(values@) =~= texts(before).push(inner@));
        }
        k += 1;
    }
    assert(ps.take(ps.len() as int) == ps);
    if values.len() == 0 {
        return Err(GenerationError { message: owned("generated string union has no variants") });
    }
    Ok(values)
}

/// How one character is written inside a JSON string literal.
pub open spec fn escape_char(c: char) -> Seq<char> {
    if c == '"' {
        seq!['\\', '"']
    } else if c == '\\' {
        seq!['\\', '\\']
    } else if c == '\n' {
        seq!['\\', 'n']
    } else {
        seq![c]
    }
}

/// `value` with quotes, backslashes and newlines escaped.
pub open spec fn escaped(value: Seq<char>) -> Seq<char>
    decreases value.len(),
{
    if value.len() == 0 {
        Seq::empty()
    } else {
        escaped(value.drop_last()) + escape_char(value.last())
    }
}

/// `value` as a JSON string literal.
pub open spec fn json_string_spec(value: Seq<char>) -> Seq<char> {
    seq!['"'] + escaped(value) + seq!['"']
}

/// Renders `value` as a JSON string literal.
pub fn json_string(value: &str) -> (r: String)
    ensures
        r@ == json_string_spec(value@),
{
    let cs = chars_of(value);
    let mut out = String::new();
    push_char(&mut out, '"');
    let mut i: usize = 0;
    while i < cs.len()
        invariant
            i <= cs@.len(),
            cs@ == value@,
            out@ == seq!['"'] + escaped(cs@.take(i as int)),
        decreases cs@.len() - i,
    {
        let c = cs[i];
        assert(cs@.take(i + 1).drop_last() == cs@.take(i as int));
        if c == '"' {
            push_char(&mut out, '\\');
            push_char(&mut out, '"');
        } else if c == '\\' {
            push_char(&mut out, '\\');
            push_char(&mut out, '\\');
        } else if c == '\n' {
            push_char(&mut out, '\\');
            push_char(&mut out, 'n');
        } else {
            push_char(&mut out, c);
        }
        assert(out@ =~= seq!['"'] + escaped(cs@.take(i + 1)));
        i += 1;
    }
    push_char(&mut out, '"');
    assert(cs@.take(cs@.len() as int) == cs@);
    out
}

/// Whether `name` can stand as a bare object key: ASCII letters, digits and
/// `_`, not starting with a digit.
pub open spec fn bare_key(name: Seq<char>) -> bool {
    (forall|i: int| 0 <= i < name.len() ==> is_ascii_alphanumeric_spec(#[trigger] name[i]) || name[i] == '_')
        && !(name.len() > 0 && is_ascii_digit_spec(name[0]))
}

/// `name` as an object key: bare when it can be, quoted otherwise.
pub open spec fn json_key_spec(name: Seq<char>) -> Seq<char> {
    if bare_key(name) {
        name
    } else {
        json_string_spec(name)
    }
}

/// Renders `name` as an object key.
pub fn json_key(name: &str) -> (r: String)
    ensures
        r@ == json_key_spec(name@),
{
    let cs = chars_of(name);
    let mut bare = true;
    let mut i: usize = 0;
    while i < cs.len()
        invariant
            i <= cs@.len(),
            cs@ == name@,
            bare == forall|k: int| 0 <= k < i ==> is_ascii_alphanumeric_spec(#[trigger] cs@[k]) || cs@[k] == '_',
        decreases cs@.len() - i,
    {
        if !(is_ascii_alphanumeric(cs[i]) || cs[i] == '_') {
            bare = false;
        }
        i += 1;
    }
    if bare && !(cs.len() > 0 && '0' <= cs[0] && cs[0] <= '9') {
        owned(name)
    } else {
        json_string(name)
    }
}

/// `parts` joined with `sep`.
pub open spec fn join_with(parts: Seq<Seq<char>>, sep: Seq<char>) -> Seq<char>
    decreases parts.len(),
{
    if parts.len() == 0 {
        Seq::empty()
    } else if parts.len() == 1 {
        parts[0]
    } else {
        join_with(parts.drop_last(), sep) + sep + parts.last()
    }
}

/// Joins `parts` with `sep`.
pub fn join_strings(parts: &Vec<String>, sep: &str) -> (r: String)
    ensures
        r@ == join_with(texts(parts@), sep@),
{
    let ghost views = texts(parts@);
    let mut out = String::new();
    let mut i: usize = 0;
    while i < parts.len()
        invariant
            i <= parts@.len(),
            views == texts(parts@),
            out@ == join_with(views.take(i as int), sep@),
        decreases parts@.len() - i,
    {
        let ghost prefix = views.take(i + 1);
        proof {
            assert(prefix.drop_last() == views.take(i as int));
            assert(prefix.last() == parts@[i as int]@);
        }
        if i > 0 {
            push_str(&mut out, sep);
        }
        push_str(&mut out, parts[i].as_str());
        i += 1;
    }
    assert(views.take(views.len() as int) == views);
    out
}

/// The first line every generated module carries.
pub open spec fn generated_line(task: Seq<char>) -> Seq<char> {
    "// @generated by `effigy "@ + task + "`; do not edit.\n"@
}

fn generated_header(task: &str) -> (r: String)
    ensures
        r@ == generated_line(task@),
{
    let mut out = owned("// @generated by `effigy ");
    push_str(&mut out, task);
    push_str(&mut out, "`; do not edit.\n");
    out
}

/// The shared `{name}` interpolator of templated label maps: one
/// substitution rule, an unknown placeholder left as written.
pub const LABEL_TEMPLATE_BODY: &'static str = "// Mirrors `longhorn_config::render_label_template`. One substitution rule: a\n// placeholder is a name in braces, and anything else is literal. An unknown\n// placeholder is left as written, so a mistake shows as `{typo}` on screen\n// rather than a hole that reads like intentional wording.\n\nexport function renderLabelTemplate(\n  template: string,\n  fields: Readonly<Record<string, string>>,\n): string {\n  return template.replace(/\\{([^{}]*)\\}/g, (match, name: string) =>\n    Object.hasOwn(fields, name) ? fields[name]! : match,\n  );\n}\n";

/// Renders the shared template interpolator module.
pub fn label_template_renderer(task: &str) -> (r: String)
    ensures
        r@ == generated_line(task@) + LABEL_TEMPLATE_BODY@,
{
    let mut out = generated_header(task);
    push_str(&mut out, LABEL_TEMPLATE_BODY);
    out
}

/// Two template interpolator modules differ only in their generated first
/// line: after it, both are the same fixed body, and that line ends in a
/// newline.
pub proof fn law_label_templates_differ_only_in_their_first_line(t1: Seq<char>, t2: Seq<char>)
    ensures
        (generated_line(t1) + LABEL_TEMPLATE_BODY@).skip(generated_line(t1).len() as int)
            == LABEL_TEMPLATE_BODY@,
        (generated_line(t1) + LABEL_TEMPLATE_BODY@).skip(generated_line(t1).len() as int) == (
        generated_line(t2) + LABEL_TEMPLATE_BODY@).skip(generated_line(t2).len() as int),
        generated_line(t1).last() == '\n',
{
    reveal_strlit("`; do not edit.\n");
    assert((generated_line(t1) + LABEL_TEMPLATE_BODY@).skip(generated_line(t1).len() as int)
        =~= LABEL_TEMPLATE_BODY@);
    assert((generated_line(t2) + LABEL_TEMPLATE_BODY@).skip(generated_line(t2).len() as int)
        =~= LABEL_TEMPLATE_BODY@);
}

/// One generated label map: a constant, the type indexing it, and its
/// entries.
pub struct LabelMap {
    /// The exported constant's name.
    pub constant: String,
    /// The type imported from `protocol.ts` to key the record.
    pub import: String,
    /// The type expression used as the record's key.
    pub key_type: String,
    /// `(wire name, label or label template)` pairs.
    pub entries: Vec<(String, String)>,
}

/// `sorted` with `x` placed in order, unless it is there already.
pub open spec fn insert_unique(sorted: Seq<Seq<char>>, x: Seq<char>) -> Seq<Seq<char>>
    decreases sorted.len(),
{
    if sorted.len() == 0 {
        seq![x]
    } else if text_lt(x, sorted[0]) {
        seq![x] + sorted
    } else if x == sorted[0] {
        sorted
    } else {
        seq![sorted[0]] + insert_unique(sorted.drop_first(), x)
    }
}

/// `items` sorted, each once.
pub open spec fn sorted_unique(items: Seq<Seq<char>>) -> Seq<Seq<char>>
    decreases items.len(),
{
    if items.len() == 0 {
        Seq::empty()
    } else {
        insert_unique(sorted_unique(items.drop_last()), items.last())
    }
}

proof fn lemma_insert_unique_at(sorted: Seq<Seq<char>>, x: Seq<char>, k: int)
    requires
        0 <= k <= sorted.len(),
        forall|j: int| 0 <= j < k ==> text_lt(#[trigger] sorted[j], x),
        k < sorted.len() ==> !text_lt(sorted[k], x),
    ensures
        insert_unique(sorted, x) == if k < sorted.len() && sorted[k] == x {
            sorted
        } else {
            sorted.take(k) + seq![x] + sorted.skip(k)
        },
    decreases k,
{
    if k == 0 {
        if sorted.len() > 0 {
            lemma_text_lt_total(x, sorted[0]);
            assert(sorted.take(0) + seq![x] + sorted.skip(0) =~= seq![x] + sorted);
        } else {
            assert(sorted.take(0) + seq![x] + sorted.skip(0) =~= seq![x]);
        }
    } else {
        lemma_text_lt_total(x, sorted[0]);
        lemma_text_lt_irreflexive(x);
        let rest = sorted.drop_first();
        assert forall|j: int| 0 <= j < k - 1 implies text_lt(#[trigger] rest[j], x) by {
            assert(rest[j] == sorted[j + 1]);
        }
        lemma_insert_unique_at(rest, x, k - 1);
        if k < sorted.len() && sorted[k] == x {
            assert(seq![sorted[0]] + rest =~= sorted);
        } else {
            assert(seq![sorted[0]] + (rest.take(k - 1) + seq![x] + rest.skip(k - 1)) =~= sorted.take(k)
                + seq![x] + sorted.skip(k));
        }
    }
}

fn insert_unique_text(sorted: &mut Vec<String>, x: String)
    ensures
        texts(final(sorted)@) == insert_unique(texts(old(sorted)@), x@),
{
    let ghost before = texts(sorted@);
    let mut k: usize = 0;
    while k < sorted.len() && text_less(sorted[k].as_str(), x.as_str())
        invariant
            k <= sorted@.len(),
            before == texts(sorted@),
            sorted@ == old(sorted)@,
            forall|j: int| 0 <= j < k ==> text_lt(#[trigger] before[j], x@),
        decreases sorted@.len() - k,
    {
        k += 1;
    }
    proof {
        lemma_insert_unique_at(before, x@, k as int);
    }
    if k < sorted.len() && str_eq(sorted[k].as_str(), x.as_str()) {
        return;
    }
    sorted.insert(k, x);
    assert(texts(sorted@) =~= before.take(k as int) + seq![x@] + before.skip(k as int));
}

/// The entry lines of a label map.
pub open spec fn entry_lines(entries: Seq<(Seq<char>, Seq<char>)>) -> Seq<char>
    decreases entries.len(),
{
    if entries.len() == 0 {
        Seq::empty()
    } else {
        entry_lines(entries.drop_last()) + "  "@ + json_key_spec(entries.last().0) + ": "@
            + json_string_spec(entries.last().1) + ",\n"@
    }
}

/// The view of one label map: constant, import, key type, entries.
pub open spec fn map_view(m: LabelMap) -> (Seq<char>, Seq<char>, Seq<char>, Seq<(Seq<char>, Seq<char>)>) {
    (
        m.constant@,
        m.import@,
        m.key_type@,
        m.entries@.map_values(|e: (String, String)| (e.0@, e.1@)),
    )
}

/// The block one label map renders to.
pub open spec fn map_block(m: (Seq<char>, Seq<char>, Seq<char>, Seq<(Seq<char>, Seq<char>)>)) -> Seq<char> {
    "\nexport const "@ + m.0 + ": Record<"@ + m.2 + ", string> = {\n"@ + entry_lines(m.3) + "};\n"@
}

/// The blocks of every label map, in order.
pub open spec fn map_blocks(maps: Seq<(Seq<char>, Seq<char>, Seq<char>, Seq<(Seq<char>, Seq<char>)>)>) -> Seq<char>
    decreases maps.len(),
{
    if maps.len() == 0 {
        Seq::empty()
    } else {
        map_blocks(maps.drop_last()) + map_block(maps.last())
    }
}

/// A generated TypeScript module of label maps: the header, one import of
/// every distinct key type (sorted), then each map typed
/// `Record<key, string>`.
pub open spec fn label_module_spec(task: Seq<char>, maps: Seq<(Seq<char>, Seq<char>, Seq<char>, Seq<(Seq<char>, Seq<char>)>)>) -> Seq<char> {
    generated_line(task)
        + "// Wording lives in Rust, on the enum that owns it. A label edited here is\n"@
        + "// a label that disagrees with the native surface.\n\n"@ + "import type { "@ + join_with(
        sorted_unique(maps.map_values(|m: (Seq<char>, Seq<char>, Seq<char>, Seq<(Seq<char>, Seq<char>)>)| m.1)),
        ", "@,
    ) + " } from \"./protocol.ts\";\n"@ + map_blocks(maps)
}

fn render_map(out: &mut String, map: &LabelMap)
    ensures
        final(out)@ == old(out)@ + map_block(map_view(*map)),
{
    let ghost mv = map_view(*map);
    push_str(out, "\nexport const ");
    push_str(out, map.constant.as_str());
    push_str(out, ": Record<");
    push_str(out, map.key_type.as_str());
    push_str(out, ", string> = {\n");
    let ghost head = out@;
    let mut i: usize = 0;
    while i < map.entries.len()
        invariant
            i <= map.entries@.len(),
            mv == map_view(*map),
            out@ == head + entry_lines(mv.3.take(i as int)),
        decreases map.entries@.len() - i,
    {
        let ghost prefix = mv.3.take(i + 1);
        proof {
            assert(prefix.drop_last() == mv.3.take(i as int));
            assert(prefix.last() == (map.entries@[i as int].0@, map.entries@[i as int].1@));
        }
        push_str(out, "  ");
        let key = json_key(map.entries[i].0.as_str());
        push_str(out, key.as_str());
        push_str(out, ": ");
        let label = json_string(map.entries[i].1.as_str());
        push_str(out, label.as_str());
        push_str(out, ",\n");
        i += 1;
    }
    assert(mv.3.take(mv.3.len() as int) == mv.3);
    push_str(out, "};\n");
}

/// Renders a generated TypeScript module of label maps.
pub fn label_module(task: &str, maps: &Vec<LabelMap>) -> (r: String)
    ensures
        r@ == label_module_spec(task@, maps@.map_values(|m: LabelMap| map_view(m))),
{
    let ghost mvs = maps@.map_values(|m: LabelMap| map_view(m));
    let ghost imports_all = mvs.map_values(|m: (Seq<char>, Seq<char>, Seq<char>, Seq<(Seq<char>, Seq<char>)>)| m.1);
    let mut imports: Vec<String> = Vec::new();
    let mut i: usize = 0;
    while i < maps.len()
        invariant
            i <= maps@.len(),
            mvs == maps@.map_values(|m: LabelMap| map_view(m)),
            imports_all == mvs.map_values(|m: (Seq<char>, Seq<char>, Seq<char>, Seq<(Seq<char>, Seq<char>)>)| m.1),
            texts(imports@) == sorted_unique(imports_all.take(i as int)),
        decreases maps@.len() - i,
    {
        let ghost prefix = imports_all.take(i + 1);
        proof {
            assert(prefix.drop_last() == imports_all.take(i as int));
            assert(prefix.last() == maps@[i as int].import@);
        }
        insert_unique_text(&mut imports, copy_string(&maps[i].import));
        i += 1;
    }
    assert(imports_all.take(imports_all.len() as int) == imports_all);
    let mut rendered = generated_header(task);
    push_str(&mut rendered, "// Wording lives in Rust, on the enum that owns it. A label edited here is\n");
    push_str(&mut rendered, "// a label that disagrees with the native surface.\n\n");
    push_str(&mut rendered, "import type { ");
    let joined = join_strings(&imports, ", ");
    push_str(&mut rendered, joined.as_str());
    push_str(&mut rendered, " } from \"./protocol.ts\";\n");
    let ghost head = rendered@;
    let mut j: usize = 0;
    while j < maps.len()
        invariant
            j <= maps@.len(),
            mvs == maps@.map_values(|m: LabelMap| map_view(m)),
            rendered@ == head + map_blocks(mvs.take(j as int)),
        decreases maps@.len() - j,
    {
        let ghost prefix = mvs.take(j + 1);
        proof {
            assert(prefix.drop_last() == mvs.take(j as int));
            assert(prefix.last() == map_view(maps@[j as int]));
        }
        render_map(&mut rendered, &maps[j]);
        j += 1;
    }
    assert(mvs.take(mvs.len() as int) == mvs);
    rendered
}

/// `declaration` with every `/** .. */` block removed. An unterminated
/// block stops the removal, and the text before it is then kept twice, as
/// the scan that finds it leaves it.
pub open spec fn strip_docs(rest: Seq<char>) -> Seq<char>
    decreases rest.len(),
{
    match find_spec(rest, "/**"@) {
        None => rest,
        Some(start) => match find_spec(rest.skip(start), "*/"@) {
            None => rest.take(start) + rest,
            Some(end) => {
                proof {
                    lemma_find_from_bounds(rest, "/**"@, 0);
                    lemma_find_from_bounds(rest.skip(start), "*/"@, 0);
                    reveal_strlit("*/");
                }
                rest.take(start) + strip_docs(rest.skip(start + end + 2))
            },
        },
    }
}

fn extend_chars(dst: &mut Vec<char>, src: &Vec<char>)
    ensures
        final(dst)@ == old(dst)@ + src@,
{
    let mut i: usize = 0;
    while i < src.len()
        invariant
            i <= src@.len(),
            dst@ == old(dst)@ + src@.take(i as int),
        decreases src@.len() - i,
    {
        dst.push(src[i]);
        assert(src@.take(i + 1) == src@.take(i as int).push(src@[i as int]));
        i += 1;
    }
    assert(src@.take(src@.len() as int) == src@);
}

/// Removes `/** .. */` blocks (see [`strip_docs`]).
pub fn strip_doc_comments(declaration: &Vec<char>) -> (r: Vec<char>)
    ensures
        r@ == strip_docs(declaration@),
{
    let open_mark = vec!['/', '*', '*'];
    let close_mark = vec!['*', '/'];
    proof {
        reveal_strlit("/**");
        reveal_strlit("*/");
        assert(open_mark@ =~= "/**"@);
        assert(close_mark@ =~= "*/"@);
    }
    let mut rendered: Vec<char> = Vec::new();
    let mut at: usize = 0;
    let ghost whole = declaration@;
    assert(whole.skip(0) == whole);
    loop
        invariant
            at <= whole.len(),
            whole == declaration@,
            open_mark@ == "/**"@,
            close_mark@ == "*/"@,
            close_mark@.len() == 2,
            strip_docs(whole) == rendered@ + strip_docs(whole.skip(at as int)),
        decreases whole.len() - at,
    {
        let ghost rest = whole.skip(at as int);
        proof {
            lemma_find_shift(whole, open_mark@, at as int);
            lemma_find_from_bounds(whole, open_mark@, at as int);
        }
        let start = match find_chars(declaration, &open_mark, at) {
            None => {
                let tail = sub_chars(declaration, at, declaration.len());
                assert(tail@ == rest);
                let ghost before = rendered@;
                extend_chars(&mut rendered, &tail);
                assert(rendered@ == before + rest);
                return rendered;
            },
            Some(s) => s,
        };
        proof {
            lemma_find_shift(whole, close_mark@, start as int);
            lemma_find_from_bounds(whole, close_mark@, start as int);
            assert(rest.skip(start - at) == whole.skip(start as int));
        }
        match find_chars(declaration, &close_mark, start) {
            None => {
                let head = sub_chars(declaration, at, start);
                let tail = sub_chars(declaration, at, declaration.len());
                let ghost before = rendered@;
                extend_chars(&mut rendered, &head);
                extend_chars(&mut rendered, &tail);
                assert(head@ == rest.take(start - at));
                assert(tail@ == rest);
                assert(rendered@ =~= before + (rest.take(start - at) + rest));
                return rendered;
            },
            Some(e) => {
                assert(start <= e && e + 2 <= whole.len());
                assert(whole.len() == declaration.len());
                let head = sub_chars(declaration, at, start);
                let ghost before = rendered@;
                extend_chars(&mut rendered, &head);
                assert(head@ == rest.take(start - at));
                assert(rest.skip(start - at + (e - start) + 2) == whole.skip(e + 2));
                assert(rendered@ =~= before + rest.take(start - at));
                at = e + 2;
            },
        }
    }
}

/// Splits `export type Name = { .. };` into its name and body; nothing for
/// aliases, string unions, and tagged unions, whose fields are not one flat
/// set.
pub open spec fn plain_object_spec(declaration: Seq<char>) -> Option<(Seq<char>, Seq<char>)> {
    let d = trim_spec(strip_docs(declaration));
    let lead = "export type "@;
    if !(lead.len() <= d.len() && d.take(lead.len() as int) == lead) {
        None
    } else {
        let rest = d.skip(lead.len() as int);
        match find_spec(rest, " = "@) {
            None => None,
            Some(i) => {
                let name = rest.take(i);
                let t = trim_spec(rest.skip(i + 3));
                if !(t.len() > 0 && t.last() == ';') {
                    None
                } else {
                    let t2 = trim_end_spec(t.drop_last());
                    if !(t2.len() > 0 && t2[0] == '{') {
                        None
                    } else {
                        let t3 = t2.drop_first();
                        if !(t3.len() > 0 && t3.last() == '}') {
                            None
                        } else {
                            let body = t3.drop_last();
                            if crate::text::has_char(body, '{') || crate::text::has_char(body, '}') {
                                None
                            } else {
                                Some((trim_spec(name), body))
                            }
                        }
                    }
                }
            },
        }
    }
}

/// The name of a tagged union `export type Name = .. | ..;`.
pub open spec fn tagged_union_name_spec(declaration: Seq<char>) -> Option<Seq<char>> {
    let d = trim_spec(strip_docs(declaration));
    let lead = "export type "@;
    if !(lead.len() <= d.len() && d.take(lead.len() as int) == lead) {
        None
    } else {
        let rest = d.skip(lead.len() as int);
        match find_spec(rest, " = "@) {
            None => None,
            Some(i) => if crate::text::has_char(rest.skip(i + 3), '|') {
                Some(trim_spec(rest.take(i)))
            } else {
                None
            },
        }
    }
}

fn trimmed_declaration(declaration: &str) -> (r: Vec<char>)
    ensures
        r@ == trim_spec(strip_docs(declaration@)),
{
    let raw = chars_of(declaration);
    let stripped = strip_doc_comments(&raw);
    trim_chars(&stripped)
}

fn after_lead(d: &Vec<char>) -> (r: Option<Vec<char>>)
    ensures
        ("export type "@.len() <= d@.len() && d@.take("export type "@.len() as int) == "export type "@)
            ==> r is Some && r->Some_0@ == d@.skip("export type "@.len() as int),
        !("export type "@.len() <= d@.len() && d@.take("export type "@.len() as int) == "export type "@)
            ==> r is None,
{
    let lead = chars_of("export type ");
    if lead.len() > d.len() {
        return None;
    }
    let mut i: usize = 0;
    while i < lead.len()
        invariant
            i <= lead@.len() <= d@.len(),
            lead@ == "export type "@,
            forall|k: int| 0 <= k < i ==> d@[k] == lead@[k],
        decreases lead@.len() - i,
    {
        if d[i] != lead[i] {
            assert(d@.take(lead@.len() as int)[i as int] != lead@[i as int]);
            return None;
        }
        i += 1;
    }
    assert(d@.take(lead@.len() as int) =~= lead@);
    Some(sub_chars(d, lead.len(), d.len()))
}

fn find_assignment(rest: &Vec<char>) -> (r: Option<usize>)
    ensures
        match find_spec(rest@, " = "@) {
            Some(i) => r is Some && r->Some_0 as int == i && i + 3 <= rest@.len(),
            None => r is None,
        },
{
    let mark = chars_of(" = ");
    proof {
        reveal_strlit(" = ");
        lemma_find_from_bounds(rest@, mark@, 0);
    }
    find_chars(rest, &mark, 0)
}

fn has_brace(v: &Vec<char>) -> (r: bool)
    ensures
        r == (crate::text::has_char(v@, '{') || crate::text::has_char(v@, '}')),
{
    let mut i: usize = 0;
    while i < v.len()
        invariant
            i <= v@.len(),
            forall|k: int| 0 <= k < i ==> v@[k] != '{' && v@[k] != '}',
        decreases v@.len() - i,
    {
        if v[i] == '{' || v[i] == '}' {
            assert(v@[i as int] == v[i as int]);
            return true;
        }
        i += 1;
    }
    false
}

/// Splits `export type Name = { .. };` into its name and body (see
/// [`plain_object_spec`]).
pub fn plain_object(declaration: &str) -> (r: Option<(String, String)>)
    ensures
        match plain_object_spec(declaration@) {
            Some((n, b)) => r is Some && r->Some_0.0@ == n && r->Some_0.1@ == b,
            None => r is None,
        },
{
    let d = trimmed_declaration(declaration);
    let rest = match after_lead(&d) {
        Some(r) => r,
        None => return None,
    };
    let i = match find_assignment(&rest) {
        Some(i) => i,
        None => return None,
    };
    let name = sub_chars(&rest, 0, i);
    assert(rest@.len() == rest.len());
    let remainder = sub_chars(&rest, i + 3, rest.len());
    assert(remainder@ == rest@.skip(i + 3));
    let t = trim_chars(&remainder);
    if !(t.len() > 0 && t[t.len() - 1] == ';') {
        return None;
    }
    let t1 = sub_chars(&t, 0, t.len() - 1);
    assert(t1@ == t@.drop_last());
    let t2 = crate::text::trim_end_chars(&t1);
    if !(t2.len() > 0 && t2[0] == '{') {
        return None;
    }
    let t3 = sub_chars(&t2, 1, t2.len());
    assert(t3@ == t2@.drop_first());
    if !(t3.len() > 0 && t3[t3.len() - 1] == '}') {
        return None;
    }
    let body = sub_chars(&t3, 0, t3.len() - 1);
    assert(body@ == t3@.drop_last());
    if has_brace(&body) {
        return None;
    }
    let trimmed_name = trim_chars(&name);
    assert(name@ == rest@.take(i as int));
    Some((string_from_chars(trimmed_name.as_slice()), string_from_chars(body.as_slice())))
}

/// The name of a tagged union declaration (see [`tagged_union_name_spec`]).
pub fn tagged_union_name(declaration: &str) -> (r: Option<String>)
    ensures
        match tagged_union_name_spec(declaration@) {
            Some(n) => r is Some && r->Some_0@ == n,
            None => r is None,
        },
{
    let d = trimmed_declaration(declaration);
    let rest = match after_lead(&d) {
        Some(r) => r,
        None => return None,
    };
    let i = match find_assignment(&rest) {
        Some(i) => i,
        None => return None,
    };
    assert(rest@.len() == rest.len());
    let remainder = sub_chars(&rest, i + 3, rest.len());
    assert(remainder@ == rest@.skip(i + 3));
    let mut k: usize = 0;
    let mut bar = false;
    while k < remainder.len()
        invariant
            k <= remainder@.len(),
            bar == exists|t: int| 0 <= t < k && remainder@[t] == '|',
        decreases remainder@.len() - k,
    {
        if remainder[k] == '|' {
            bar = true;
        }
        k += 1;
    }
    if !bar {
        return None;
    }
    let name = sub_chars(&rest, 0, i);
    assert(name@ == rest@.take(i as int));
    let trimmed_name = trim_chars(&name);
    Some(string_from_chars(trimmed_name.as_slice()))
}

/// The field name a part of an object body starts with: the text before
/// its first `:`, trimmed and without quotes; nothing for an empty part or
/// one without a colon.
pub open spec fn leading_name_spec(part: Seq<char>) -> Option<Seq<char>> {
    let t = trim_spec(part);
    if t.len() == 0 {
        None
    } else {
        match find_spec(t, ":"@) {
            None => None,
            Some(i) => Some(trim_char_spec(trim_spec(t.take(i)), '"')),
        }
    }
}

fn leading_name(part: &Vec<char>) -> (r: Option<String>)
    ensures
        match leading_name_spec(part@) {
            Some(n) => r is Some && r->Some_0@ == n,
            None => r is None,
        },
{
    let t = trim_chars(part);
    if t.len() == 0 {
        return None;
    }
    let colon = vec![':'];
    assert(colon@ =~= ":"@) by {
        reveal_strlit(":");
    }
    let i = match find_chars(&t, &colon, 0) {
        Some(i) => i,
        None => return None,
    };
    proof {
        lemma_find_from_bounds(t@, colon@, 0);
    }
    let head = sub_chars(&t, 0, i);
    assert(head@ == t@.take(i as int));
    let name = trim_chars(&head);
    let bare = trim_char(&name, '"');
    Some(string_from_chars(bare.as_slice()))
}

/// The field names of an object body, at bracket depth zero, split at
/// commas and semicolons.
pub open spec fn scan_fields(
    chars: Seq<char>,
    depth: int,
    current: Seq<char>,
    fields: Seq<Seq<char>>,
) -> Seq<Seq<char>>
    decreases chars.len(),
{
    if chars.len() == 0 {
        match leading_name_spec(current) {
            Some(n) => fields.push(n),
            None => fields,
        }
    } else {
        let c = chars[0];
        let rest = chars.drop_first();
        if c == '{' || c == '<' || c == '(' {
            scan_fields(rest, depth + 1, current.push(c), fields)
        } else if c == '}' || c == '>' || c == ')' {
            scan_fields(rest, depth - 1, current.push(c), fields)
        } else if (c == ',' || c == ';') && depth == 0 {
            scan_fields(
                rest,
                depth,
                Seq::empty(),
                match leading_name_spec(current) {
                    Some(n) => fields.push(n),
                    None => fields,
                },
            )
        } else {
            scan_fields(rest, depth, current.push(c), fields)
        }
    }
}

/// The field names of an object body (see [`scan_fields`]).
pub fn field_names(body: &str) -> (r: Vec<String>)
    ensures
        texts(r@) == scan_fields(body@, 0, Seq::empty(), Seq::empty()),
{
    let cs = chars_of(body);
    let mut fields: Vec<String> = Vec::new();
    let mut depth: i128 = 0;
    let mut current: Vec<char> = Vec::new();
    let mut i: usize = 0;
    assert(cs@.skip(0) == cs@);
    assert(current@ =~= Seq::<char>::empty());
    assert(texts(fields@) =~= Seq::<Seq<char>>::empty());
    while i < cs.len()
        invariant
            i <= cs@.len(),
            cs@ == body@,
            -(i as int) <= depth <= i as int,
            cs.len() == cs@.len(),
            scan_fields(body@, 0, Seq::empty(), Seq::empty()) == scan_fields(
                cs@.skip(i as int),
                depth as int,
                current@,
                texts(fields@),
            ),
        decreases cs@.len() - i,
    {
        let c = cs[i];
        proof {
            assert(cs@.skip(i as int)[0] == c);
            assert(cs@.skip(i as int).drop_first() == cs@.skip(i + 1));
        }
        if c == '{' || c == '<' || c == '(' {
            depth = depth + 1;
            current.push(c);
        } else if c == '}' || c == '>' || c == ')' {
            depth = depth - 1;
            current.push(c);
        } else if (c == ',' || c == ';') && depth == 0 {
            match leading_name(&current) {
                Some(n) => {
                    let ghost before = fields@;
                    fields.push(n);
                    assert(texts(fields@) =~= texts(before).push(fields@.last()@));
                },
                None => {},
            }
            current = Vec::new();
        } else {
            current.push(c);
        }
        i += 1;
    }
    assert(cs@.skip(i as int).len() == 0);
    match leading_name(&current) {
        Some(n) => {
            let ghost before = fields@;
            fields.push(n);
            assert(texts(fields@) =~= texts(before).push(fields@.last()@));
        },
        None => {},
    }
    fields
}

/// The lines of a field map, one per plain object declaration, and the
/// names of the tagged unions passed over.
pub open spec fn field_map_lines(declarations: Seq<Seq<char>>) -> (Seq<char>, Seq<Seq<char>>)
    decreases declarations.len(),
{
    if declarations.len() == 0 {
        (Seq::empty(), Seq::empty())
    } else {
        let (lines, skipped) = field_map_lines(declarations.drop_last());
        let d = declarations.last();
        match plain_object_spec(d) {
            Some((name, body)) => (
                lines + "  "@ + json_string_spec(name) + ": ["@ + join_with(
                    scan_fields(body, 0, Seq::empty(), Seq::empty()).map_values(
                        |f: Seq<char>| json_string_spec(f),
                    ),
                    ", "@,
                ) + "],\n"@,
                skipped,
            ),
            None => match tagged_union_name_spec(d) {
                Some(n) => (lines, skipped.push(n)),
                None => (lines, skipped),
            },
        }
    }
}

/// The field map module and the tagged unions it passed over.
pub open spec fn field_map_spec(task: Seq<char>, constant: Seq<char>, declarations: Seq<Seq<char>>) -> (
    Seq<char>,
    Seq<Seq<char>>,
) {
    let (lines, skipped) = field_map_lines(declarations);
    (
        generated_line(task) + "// Allowed field names per protocol type, from the Rust structs.\n"@
            + "// A `record()` given one of these rejects unknown and missing keys —\n"@
            + "// contract 010's Boundary Validation Target.\n\n"@ + "export const "@ + constant
            + ": Record<string, readonly string[]> = {\n"@ + lines + "};\n"@,
        skipped,
    )
}

/// Emits the allowed field names of every plain object declaration;
/// tagged unions are returned as passed over rather than guessed at.
pub fn field_map(task: &str, constant: &str, declarations: &Vec<String>) -> (r: (String, Vec<String>))
    ensures
        (r.0@, texts(r.1@)) == field_map_spec(task@, constant@, texts(declarations@)),
{
    let mut rendered = generated_header(task);
    push_str(&mut rendered, "// Allowed field names per protocol type, from the Rust structs.\n");
    push_str(&mut rendered, "// A `record()` given one of these rejects unknown and missing keys —\n");
    push_str(&mut rendered, "// contract 010's Boundary Validation Target.\n\n");
    push_str(&mut rendered, "export const ");
    push_str(&mut rendered, constant);
    push_str(&mut rendered, ": Record<string, readonly string[]> = {\n");
    let ghost head = rendered@;
    let ghost ds = texts(declarations@);
    let mut skipped: Vec<String> = Vec::new();
    let mut i: usize = 0;
    while i < declarations.len()
        invariant
            i <= declarations@.len(),
            ds == texts(declarations@),
            (rendered@, texts(skipped@)) == ({
                let (lines, sk) = field_map_lines(ds.take(i as int));
                (head + lines, sk)
            }),
        decreases declarations@.len() - i,
    {
        let ghost prefix = ds.take(i + 1);
        proof {
            assert(prefix.drop_last() == ds.take(i as int));
            assert(prefix.last() == declarations@[i as int]@);
        }
        let declaration = declarations[i].as_str();
        match plain_object(declaration) {
            Some((name, body)) => {
                let names = field_names(body.as_str());
                let mut quoted: Vec<String> = Vec::new();
                let mut k: usize = 0;
                while k < names.len()
                    invariant
                        k <= names@.len(),
                        texts(quoted@) == texts(names@).take(k as int).map_values(
                            |f: Seq<char>| json_string_spec(f),
                        ),
                    decreases names@.len() - k,
                {
                    let ghost before = quoted@;
                    quoted.push(json_string(names[k].as_str()));
                    proof {
                        assert(texts(names@).take(k + 1) == texts(names@).take(k as int).push(
                            names@[k as int]@,
                        ));
                        assert(texts(quoted@) =~= texts(before).push(json_string_spec(names@[k as int]@)));
                        assert(texts(names@).take(k + 1).map_values(|f: Seq<char>| json_string_spec(f))
                            =~= texts(names@).take(k as int).map_values(
                            |f: Seq<char>| json_string_spec(f),
                        ).push(json_string_spec(names@[k as int]@)));
                    }
                    k += 1;
                }
                assert(texts(names@).take(names@.len() as int) == texts(names@));
                push_str(&mut rendered, "  ");
                let quoted_name = json_string(name.as_str());
                push_str(&mut rendered, quoted_name.as_str());
                push_str(&mut rendered, ": [");
                let list = join_strings(&quoted, ", ");
                push_str(&mut rendered, list.as_str());
                push_str(&mut rendered, "],\n");
            },
            None => match tagged_union_name(declaration) {
                Some(n) => {
                    let ghost before = skipped@;
                    skipped.push(n);
                    assert(texts(skipped@) =~= texts(before).push(skipped@.last()@));
                },
                None => {},
            },
        }
        i += 1;
    }
    assert(ds.take(ds.len() as int) == ds);
    push_str(&mut rendered, "};\n");
    (rendered, skipped)
}

/// The artifacts whose committed text differs from the generated one:
/// `current` holds each artifact's committed text, where it could be read.
pub open spec fn drifted_paths(artifacts: Seq<Artifact>, current: Seq<Option<String>>) -> Seq<Seq<char>>
    decreases artifacts.len(),
{
    if artifacts.len() == 0 || current.len() != artifacts.len() {
        Seq::empty()
    } else {
        let rest = drifted_paths(artifacts.drop_last(), current.drop_last());
        let a = artifacts.last();
        let same = match current.last() {
            Some(t) => t@ == a.contents@,
            None => false,
        };
        if same {
            rest
        } else {
            rest.push(a.relative_path@)
        }
    }
}

/// The relative paths of the artifacts that drifted from what is committed.
pub fn drifted_artifacts(artifacts: &Vec<Artifact>, current: &Vec<Option<String>>) -> (r: Vec<String>)
    requires
        artifacts@.len() == current@.len(),
    ensures
        texts(r@) == drifted_paths(artifacts@, current@),
{
    let mut out: Vec<String> = Vec::new();
    let mut i: usize = 0;
    while i < artifacts.len()
        invariant
            i <= artifacts@.len(),
            artifacts@.len() == current@.len(),
            texts(out@) == drifted_paths(artifacts@.take(i as int), current@.take(i as int)),
        decreases artifacts@.len() - i,
    {
        proof {
            assert(artifacts@.take(i + 1).drop_last() == artifacts@.take(i as int));
            assert(current@.take(i + 1).drop_last() == current@.take(i as int));
        }
        let same = match &current[i] {
            Some(t) => str_eq(t.as_str(), artifacts[i].contents.as_str()),
            None => false,
        };
        if !same {
            let ghost before = out@;
            out.push(copy_string(&artifacts[i].relative_path));
            assert(texts(out@) =~= texts(before).push(artifacts@[i as int].relative_path@));
        }
        i += 1;
    }
    assert(artifacts@.take(artifacts@.len() as int) == artifacts@);
    assert(current@.take(current@.len() as int) == current@);
    out
}

/// The verdict of a check run: the line reporting a current tree, or the
/// error naming every drifted artifact and the task that regenerates them.
pub fn check_verdict(domain: &str, task: &str, drifted: &Vec<String>) -> (r: Result<String, GenerationError>)
    ensures
        drifted@.len() == 0 ==> r is Ok && r->Ok_0@ == domain@ + " bindings and fixtures are current"@,
        drifted@.len() > 0 ==> r is Err && r->Err_0.message@ == "generated "@ + domain@
            + " artifacts drifted: "@ + join_with(texts(drifted@), ", "@) + "; run `effigy "@
            + task@ + "`"@,
{
    if drifted.len() == 0 {
        let mut line = owned(domain);
        push_str(&mut line, " bindings and fixtures are current");
        return Ok(line);
    }
    let mut m = owned("generated ");
    push_str(&mut m, domain);
    push_str(&mut m, " artifacts drifted: ");
    let list = join_strings(drifted, ", ");
    push_str(&mut m, list.as_str());
    push_str(&mut m, "; run `effigy ");
    push_str(&mut m, task);
    push_str(&mut m, "`");
    Err(GenerationError { message: m })
}

} // verus!
