use longhorn_agent::bindings::bridge::render_admitted_reasons;
use longhorn_agent::bindings::cli::{parse_run_args, usage, Domain};
use longhorn_agent::bindings::generation::{
    check_verdict, drifted_artifacts, exported_declaration, field_map, field_names, json_key,
    json_string, label_module, label_template_renderer, plain_object, string_union_variants,
    strip_doc_comments, tagged_union_name, tagged_variants, Artifact, GenerationMode, LabelMap,
};

#[test]
fn exported_declarations_gain_export() {
    assert_eq!(exported_declaration("type A = string;".to_owned()), "export type A = string;");
    assert_eq!(exported_declaration("interface A {}".to_owned()), "interface A {}");
}

#[test]
fn tagged_variants_read_every_discriminant() {
    let declaration = r#"type E = { "kind": "a", x: number } | { "kind": "bee" };"#;
    assert_eq!(tagged_variants(declaration, "kind").unwrap(), vec!["a".to_owned(), "bee".to_owned()]);
    assert_eq!(
        tagged_variants(declaration, "type").err().unwrap().message,
        "generated declaration has no `type` variants"
    );
}

#[test]
fn string_unions_read_quoted_members() {
    assert_eq!(
        string_union_variants(r#"export type Mode = "write" | "check" ;;"#).unwrap(),
        vec!["write".to_owned(), "check".to_owned()]
    );
    assert_eq!(
        string_union_variants("export type Mode").err().unwrap().message,
        "generated string union has no assignment"
    );
    assert_eq!(
        string_union_variants("export type N = number;").err().unwrap().message,
        "generated string union has no variants"
    );
}

#[test]
fn json_strings_escape_quotes_backslashes_and_newlines() {
    assert_eq!(json_string("a\"b\\c\nd"), "\"a\\\"b\\\\c\\nd\"");
    assert_eq!(json_key("snake_case1"), "snake_case1");
    assert_eq!(json_key("1abc"), "\"1abc\"");
    assert_eq!(json_key("kebab-case"), "\"kebab-case\"");
    assert_eq!(json_key(""), "");
}

#[test]
fn label_modules_import_each_key_type_once_in_order() {
    let maps = vec![
        LabelMap {
            constant: "ZETA_LABELS".to_owned(),
            import: "Zeta".to_owned(),
            key_type: "Zeta".to_owned(),
            entries: vec![("one".to_owned(), "One".to_owned()), ("two-words".to_owned(), "Two \"words\"".to_owned())],
        },
        LabelMap {
            constant: "ALPHA_LABELS".to_owned(),
            import: "Alpha".to_owned(),
            key_type: "Alpha[\"kind\"]".to_owned(),
            entries: vec![],
        },
        LabelMap {
            constant: "MORE_ZETA".to_owned(),
            import: "Zeta".to_owned(),
            key_type: "Zeta".to_owned(),
            entries: vec![],
        },
    ];
    let rendered = label_module("generate", &maps);
    assert_eq!(
        rendered,
        "// @generated by `effigy generate`; do not edit.\n\
         // Wording lives in Rust, on the enum that owns it. A label edited here is\n\
         // a label that disagrees with the native surface.\n\n\
         import type { Alpha, Zeta } from \"./protocol.ts\";\n\
         \nexport const ZETA_LABELS: Record<Zeta, string> = {\n  one: \"One\",\n  \"two-words\": \"Two \\\"words\\\"\",\n};\n\
         \nexport const ALPHA_LABELS: Record<Alpha[\"kind\"], string> = {\n};\n\
         \nexport const MORE_ZETA: Record<Zeta, string> = {\n};\n"
    );
}

#[test]
fn template_renderer_carries_the_header() {
    let rendered = label_template_renderer("generate");
    assert!(rendered.starts_with("// @generated by `effigy generate`; do not edit.\n// Mirrors"));
    assert!(rendered.ends_with("  );\n}\n"));
}

#[test]
fn plain_objects_split_into_name_and_body() {
    assert_eq!(
        plain_object("/** Doc: a, b */ export type Point = { x: number, y: number };"),
        Some(("Point".to_owned(), " x: number, y: number ".to_owned()))
    );
    assert_eq!(plain_object("export type U = { a: 1 } | { b: 2 };"), None);
    assert_eq!(plain_object("export type Alias = string;"), None);
    assert_eq!(tagged_union_name("export type U = { a: 1 } | { b: 2 };"), Some("U".to_owned()));
    assert_eq!(tagged_union_name("export type Point = { x: number };"), None);
}

#[test]
fn doc_comments_are_removed() {
    let strip = |s: &str| strip_doc_comments(&s.chars().collect()).into_iter().collect::<String>();
    assert_eq!(strip("a/** one */b/** two */c"), "abc");
    assert_eq!(strip("a/**/b"), "ab");
    assert_eq!(strip("x/** open"), "xx/** open");
    assert_eq!(strip("plain"), "plain");
}

#[test]
fn field_names_split_at_depth_zero() {
    assert_eq!(
        field_names(r#" "id": string; inner: { a: number, b: string }, list: Array<number>, "#),
        vec!["id".to_owned(), "inner".to_owned(), "list".to_owned()]
    );
    assert_eq!(field_names("f: (a: number, b: number) => void"), vec!["f".to_owned()]);
}

#[test]
fn field_maps_list_plain_objects_and_pass_over_unions() {
    let declarations = vec![
        "export type Point = { x: number, y: number };".to_owned(),
        "export type Shape = { kind: \"circle\" } | { kind: \"square\" };".to_owned(),
        "export type Alias = string;".to_owned(),
    ];
    let (rendered, skipped) = field_map("generate", "FIELDS", &declarations);
    assert_eq!(skipped, vec!["Shape".to_owned()]);
    assert!(rendered.starts_with("// @generated by `effigy generate`; do not edit.\n"));
    assert!(rendered.ends_with("export const FIELDS: Record<string, readonly string[]> = {\n  \"Point\": [\"x\", \"y\"],\n};\n"));
}

#[test]
fn check_runs_name_every_drifted_artifact() {
    let artifacts = vec![
        Artifact { relative_path: "a.ts".to_owned(), contents: "A".to_owned() },
        Artifact { relative_path: "b.ts".to_owned(), contents: "B".to_owned() },
        Artifact { relative_path: "c.ts".to_owned(), contents: "C".to_owned() },
    ];
    let current = vec![Some("A".to_owned()), Some("old".to_owned()), None];
    let drifted = drifted_artifacts(&artifacts, &current);
    assert_eq!(drifted, vec!["b.ts".to_owned(), "c.ts".to_owned()]);
    assert_eq!(
        check_verdict("layout", "generate-layout", &drifted).err().unwrap().message,
        "generated layout artifacts drifted: b.ts, c.ts; run `effigy generate-layout`"
    );
    assert_eq!(check_verdict("layout", "generate-layout", &vec![]).unwrap(), "layout bindings and fixtures are current");
}

#[test]
fn command_line_names_a_domain_and_a_mode() {
    let args = |words: &[&str]| -> Vec<String> { words.iter().map(|w| w.to_string()).collect() };
    assert_eq!(parse_run_args(&args(&["layout", "check"])), Ok((Domain::Layout, GenerationMode::Check)));
    assert_eq!(parse_run_args(&args(&["history-tree", "write"])), Ok((Domain::HistoryTree, GenerationMode::Write)));
    assert_eq!(parse_run_args(&args(&["layout"])), Err(usage()));
    assert_eq!(parse_run_args(&args(&["layout", "check", "extra"])), Err(usage()));
    assert_eq!(parse_run_args(&args(&["nowhere", "check"])), Err(usage()));
    assert_eq!(parse_run_args(&args(&["layout", "dry-run"])), Err(usage()));
}

#[test]
fn admitted_reasons_table_lists_each_state_in_order() {
    let entries = vec![
        (
            "\"connected\"".to_owned(),
            vec![Some("\"handshake\"".to_owned()), None],
        ),
        ("\"idle\"".to_owned(), vec![]),
    ];
    assert_eq!(
        render_admitted_reasons(&entries),
        "export const BRIDGE_ADMITTED_CONNECTION_REASONS: Record<\n  BridgeConnectionState,\n  readonly (BridgeConnectionReason | null)[]\n> = {\n  \"connected\": [\"handshake\", null],\n  \"idle\": [],\n};\n"
    );
    assert_eq!(
        render_admitted_reasons(&vec![]),
        "export const BRIDGE_ADMITTED_CONNECTION_REASONS: Record<\n  BridgeConnectionState,\n  readonly (BridgeConnectionReason | null)[]\n> = {\n};\n"
    );
}

#[test]
fn label_template_modules_differ_only_in_their_first_line() {
    let a = label_template_renderer("generate:commands");
    let b = label_template_renderer("generate:config");
    let (a_head, a_body) = a.split_once('\n').unwrap();
    let (b_head, b_body) = b.split_once('\n').unwrap();
    assert_eq!(a_head, "// @generated by `effigy generate:commands`; do not edit.");
    assert_eq!(b_head, "// @generated by `effigy generate:config`; do not edit.");
    assert_eq!(a_body, b_body);
    assert!(a_body.starts_with("// Mirrors `longhorn_config::render_label_template`."));
}
