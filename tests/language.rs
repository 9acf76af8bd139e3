use marzano_language::language::{
    fields_for_nodes, fields_from_resolved, table_from_resolved, wrap_and_parse, SchemaError,
};
use marzano_language::snippet::select_snippets;
use serde_json::Value;
use marzano_language::{
    nodes_from_indices, Candidate, FieldSchema, MarkdownInline, NodeKindSchema, Rust, SyntaxNode,
};

fn schema(text: &str) -> Vec<NodeKindSchema> {
    let value: Value = serde_json::from_str(text).unwrap();
    let mut out = Vec::new();
    for entry in value.as_array().unwrap() {
        let mut fields = Vec::new();
        if let Some(map) = entry.get("fields").and_then(Value::as_object) {
            for (name, field) in map {
                fields.push(FieldSchema {
                    name: name.clone(),
                    required: field["required"].as_bool().unwrap(),
                    multiple: field["multiple"].as_bool().unwrap(),
                });
            }
        }
        out.push(NodeKindSchema {
            kind: entry["type"].as_str().unwrap().to_string(),
            named: entry["named"].as_bool().unwrap(),
            fields,
        });
    }
    out
}

fn rust_schema() -> Vec<NodeKindSchema> {
    schema(tree_sitter_rust::NODE_TYPES)
}

fn markdown_schema() -> Vec<NodeKindSchema> {
    schema(tree_sitter_md::NODE_TYPES_INLINE)
}

fn node(kind: u16, start_byte: usize, end_byte: usize, is_error: bool) -> SyntaxNode {
    SyntaxNode { kind, start_byte, end_byte, is_error }
}

fn candidate(start: usize, end: usize, nodes: Option<Vec<SyntaxNode>>) -> Candidate {
    Candidate {
        prefix: String::from("<"),
        suffix: String::from(">"),
        source: String::from("<x>"),
        start,
        end,
        nodes,
    }
}

#[test]
fn link_snippet() {
    let snippet = "[grit](https://app.grit.io)";
    let lang = MarkdownInline::new(None, &markdown_schema()).unwrap();
    let snippets = lang.parse_snippet_contexts(snippet);
    let nodes = nodes_from_indices(&snippets);
    assert!(!nodes.is_empty());
}

#[test]
fn pair_snippet() {
    let snippet = "#[cfg(test)] mod $foo { $bar }";
    let lang = Rust::new(None, &rust_schema()).unwrap();
    let snippets = lang.parse_snippet_contexts(snippet);
    let nodes = nodes_from_indices(&snippets);
    println!("NODES: {:#?}", nodes);
    println!("NODE: {:?}", nodes[0]);
    assert!(!nodes.is_empty());
}

#[test]
fn link_snippet_anchors_a_link() {
    let snippet = "[grit](https://app.grit.io)";
    let lang = MarkdownInline::new(None, &markdown_schema()).unwrap();
    let snippets = lang.parse_snippet_contexts(snippet);
    assert_eq!(snippets.len(), 1);
    assert_eq!(snippets[0].start, 0);
    assert_eq!(snippets[0].end, snippet.len());
    let link = tree_sitter_md::inline_language().id_for_node_kind("inline_link", true);
    assert!(snippets[0].matches.iter().any(|n| n.kind == link && !n.is_error));
}

#[test]
fn rust_expression_needs_no_wrapper_but_gets_several() {
    let lang = Rust::new(None, &rust_schema()).unwrap();
    let snippets = lang.parse_snippet_contexts("x + 1");
    assert!(!snippets.is_empty());
    for s in &snippets {
        assert_eq!(s.end - s.start, 5);
        assert_eq!(&s.source[s.start..s.end], "x + 1");
    }
}

#[test]
fn wrapping_places_the_fragment_between_prefix_and_suffix() {
    let lang = Rust::new(None, &rust_schema()).unwrap();
    let c = wrap_and_parse(lang.get_ts_language(), "let GRIT_VAR = ", "a.b()", ";");
    assert_eq!(c.source, "let GRIT_VAR = a.b();");
    assert_eq!(c.start, 15);
    assert_eq!(c.end, 20);
    assert_eq!(c.prefix, "let GRIT_VAR = ");
    assert_eq!(c.suffix, ";");
    assert!(c.nodes.is_some());
}

#[test]
fn resolution_is_deterministic() {
    let lang = Rust::new(None, &rust_schema()).unwrap();
    let a = lang.parse_snippet_contexts("foo(bar)");
    let b = lang.parse_snippet_contexts("foo(bar)");
    assert_eq!(a.len(), b.len());
    for (x, y) in a.iter().zip(b.iter()) {
        assert_eq!(x.prefix, y.prefix);
        assert_eq!((x.start, x.end), (y.start, y.end));
        assert_eq!(x.matches, y.matches);
    }
}

#[test]
fn selection_keeps_exact_spans_in_order() {
    let cs = vec![
        candidate(1, 2, Some(vec![node(3, 0, 3, false), node(7, 1, 2, false), node(8, 1, 2, false)])),
        candidate(1, 2, None),
        candidate(1, 2, Some(vec![node(3, 0, 3, false), node(9, 1, 3, false)])),
    ];
    let r = select_snippets(&cs);
    assert_eq!(r.len(), 1);
    assert_eq!(r[0].matches, vec![node(7, 1, 2, false), node(8, 1, 2, false)]);
}

#[test]
fn attribute_and_module_resolve_under_the_identity_template() {
    let lang = Rust::new(None, &rust_schema()).unwrap();
    let snippet = "#[cfg(test)] mod $foo { $bar }";
    let snippets = lang.parse_snippet_contexts(snippet);
    let identity: Vec<_> = snippets.iter().filter(|s| s.prefix.is_empty() && s.suffix.is_empty()).collect();
    assert_eq!(identity.len(), 1);
    assert_eq!((identity[0].start, identity[0].end), (0, snippet.len()));
    assert!(identity[0].matches.iter().all(|n| !n.is_error));
    let source_file = tree_sitter_rust::language().id_for_node_kind("source_file", true);
    assert_eq!(identity[0].matches[0].kind, source_file);
    assert!(snippets.iter().all(|s| s.matches.iter().all(|n| !n.is_error)));
}

#[test]
fn error_nodes_do_not_anchor() {
    let cs = vec![candidate(1, 2, Some(vec![node(3, 0, 3, false), node(0, 1, 2, true)]))];
    assert!(select_snippets(&cs).is_empty());
}

#[test]
fn selection_rejects_errors_outside_the_fragment() {
    let outside = vec![candidate(1, 2, Some(vec![node(3, 0, 3, false), node(0, 2, 3, true), node(7, 1, 2, false)]))];
    assert!(select_snippets(&outside).is_empty());
    let inside = vec![candidate(1, 2, Some(vec![node(3, 0, 3, false), node(7, 1, 2, false), node(0, 1, 2, true)]))];
    let r = select_snippets(&inside);
    assert_eq!(r.len(), 1);
    assert_eq!(r[0].matches, vec![node(7, 1, 2, false)]);
}

#[test]
fn selection_of_reordered_templates_is_the_same_set() {
    let a = candidate(1, 2, Some(vec![node(7, 1, 2, false)]));
    let mut b = candidate(0, 1, Some(vec![node(5, 0, 1, false)]));
    b.prefix = String::from("");
    let r1 = select_snippets(&vec![a.clone(), b.clone()]);
    let r2 = select_snippets(&vec![b, a]);
    assert_eq!(r1.len(), 2);
    assert_eq!(r1[0].matches, r2[1].matches);
    assert_eq!(r1[1].matches, r2[0].matches);
}

#[test]
fn nodes_from_indices_concatenates_matches() {
    let cs = vec![
        candidate(1, 2, Some(vec![node(7, 1, 2, false)])),
        candidate(1, 2, Some(vec![node(8, 1, 2, false), node(9, 1, 2, false)])),
    ];
    let nodes = nodes_from_indices(&select_snippets(&cs));
    assert_eq!(nodes, vec![node(7, 1, 2, false), node(8, 1, 2, false), node(9, 1, 2, false)]);
}

#[test]
fn rust_comments_are_line_and_block_comments() {
    let lang = Rust::new(None, &rust_schema()).unwrap();
    let ts = tree_sitter_rust::language();
    let line = ts.id_for_node_kind("line_comment", true);
    let block = ts.id_for_node_kind("block_comment", true);
    let ident = ts.id_for_node_kind("identifier", true);
    assert!(lang.is_comment_sort(line));
    assert!(lang.is_comment_sort(block));
    assert!(!lang.is_comment_sort(ident));
    assert!(lang.is_comment(&node(line, 0, 2, false)));
    assert!(!lang.is_comment(&node(ident, 0, 2, false)));
}

#[test]
fn markdown_has_no_comments() {
    let lang = MarkdownInline::new(None, &markdown_schema()).unwrap();
    for k in 0..400u16 {
        assert!(!lang.is_comment_sort(k));
        assert!(!lang.is_comment(&node(k, 0, 1, false)));
    }
}

#[test]
fn metavariable_is_exactly_the_placeholder_kind() {
    let lang = Rust::new(None, &rust_schema()).unwrap();
    // The published grammars define no placeholder kind: nothing is one.
    assert_eq!(lang.metavariable_sort(), 0);
    for k in 0..400u16 {
        assert!(!lang.is_metavariable(&node(k, 0, 1, false)));
    }
    let md = MarkdownInline::new(None, &markdown_schema()).unwrap();
    assert_eq!(md.metavariable_sort(), 0);
    assert!(!md.is_metavariable(&node(0, 0, 1, false)));
    let r = Rust::from_parts(tree_sitter_rust::language(), vec![], 7, 0, 0, vec![]);
    assert!(r.is_metavariable(&node(7, 0, 1, false)));
    assert!(!r.is_metavariable(&node(8, 0, 1, false)));
}

#[test]
fn single_line_comments() {
    assert_eq!(Rust::new(None, &rust_schema()).unwrap().make_single_line_comment("hi"), "// hi\n");
    assert_eq!(MarkdownInline::new(None, &markdown_schema()).unwrap().make_single_line_comment("hi"), "<!-- hi -->\n");
}

#[test]
fn names_and_templates() {
    let r = Rust::new(None, &rust_schema()).unwrap();
    assert_eq!(r.language_name(), "Rust");
    assert_eq!(r.snippet_context_strings().len(), 5);
    assert_eq!(r.snippet_context_strings()[2], ("let GRIT_VAR = ", ";"));
    let m = MarkdownInline::new(None, &markdown_schema()).unwrap();
    assert_eq!(m.language_name(), "MarkdownInline");
    assert_eq!(m.snippet_context_strings(), vec![("", "")]);
}

#[test]
fn quirks_cover_type_parameters_of_functions() {
    let lang = Rust::new(None, &rust_schema()).unwrap();
    let ts = tree_sitter_rust::language();
    let tp = ts.field_id_for_name("type_parameters").unwrap();
    let function_item = ts.id_for_node_kind("function_item", true);
    let struct_item = ts.id_for_node_kind("struct_item", true);
    assert!(lang.optional_empty_field_compilation(function_item, tp));
    assert!(!lang.optional_empty_field_compilation(struct_item, tp));
    let md = MarkdownInline::new(None, &markdown_schema()).unwrap();
    assert!(!md.optional_empty_field_compilation(function_item, tp));
}

#[test]
fn schema_resolves_fields_and_rejects_unknown_names() {
    let ts = tree_sitter_rust::language();
    let schema = vec![NodeKindSchema {
        kind: String::from("function_item"),
        named: true,
        fields: vec![FieldSchema { name: String::from("parameters"), required: true, multiple: false }],
    }];
    let table = fields_for_nodes(&ts, &schema).unwrap();
    let function_item = ts.id_for_node_kind("function_item", true);
    let fields = &table[function_item as usize];
    assert_eq!(fields.len(), 1);
    assert_eq!(fields[0].name, "parameters");
    assert_eq!(Some(fields[0].id), ts.field_id_for_name("parameters"));
    assert_eq!(ts.field_name_for_id(fields[0].id), Some("parameters"));
    assert!(fields[0].required);
    assert_eq!(table.len(), ts.node_kind_count());

    let bad_kind = vec![NodeKindSchema {
        kind: String::from("no_such_kind"),
        named: true,
        fields: vec![FieldSchema { name: String::from("parameters"), required: true, multiple: false }],
    }];
    let fieldless = vec![NodeKindSchema { kind: String::from("no_such_kind"), named: true, fields: vec![] }];
    assert!(fields_for_nodes(&ts, &fieldless).is_ok());
    assert_eq!(
        fields_for_nodes(&ts, &bad_kind).err(),
        Some(SchemaError::UnknownNodeKind(String::from("no_such_kind")))
    );
    let bad_field = vec![NodeKindSchema {
        kind: String::from("function_item"),
        named: true,
        fields: vec![FieldSchema { name: String::from("no_such_field"), required: false, multiple: false }],
    }];
    assert_eq!(
        fields_for_nodes(&ts, &bad_field).err(),
        Some(SchemaError::UnknownField(String::from("no_such_field")))
    );
}

#[test]
fn new_loads_the_descriptor() {
    let lang = Rust::new(None, &rust_schema()).unwrap();
    let ts = tree_sitter_rust::language();
    let fields = lang.fields_for(ts.id_for_node_kind("function_item", true));
    assert!(fields.iter().any(|f| f.name == "name" && f.required));
    for f in fields {
        assert_eq!(ts.field_name_for_id(f.id), Some(f.name.as_str()));
    }
    assert!(lang.fields_for(u16::MAX).is_empty());
    let md = MarkdownInline::new(None, &markdown_schema()).unwrap();
    assert_eq!(md.node_types().len(), tree_sitter_md::inline_language().node_kind_count());
}

#[test]
fn strict_construction_refuses_a_grammar_without_the_quirk_fields() {
    // The published Rust grammar has no `visibility` field.
    assert_eq!(
        Rust::with_node_types(None, &vec![]).err(),
        Some(SchemaError::UnknownField(String::from("visibility")))
    );
}

fn field(name: &str) -> FieldSchema {
    FieldSchema { name: String::from(name), required: true, multiple: false }
}

#[test]
fn fields_from_resolved_checks_ids_and_names() {
    let ds = vec![field("a"), field("b")];
    let ok = fields_from_resolved(&ds, &vec![Some(3), Some(4)], &vec![Some(String::from("a")), Some(String::from("b"))]);
    let fs = ok.unwrap();
    assert_eq!((fs[0].id, fs[1].id), (3, 4));
    assert_eq!(fs[1].name, "b");
    let missing = fields_from_resolved(&ds, &vec![Some(3), None], &vec![Some(String::from("a")), None]);
    assert_eq!(missing.err(), Some(SchemaError::UnknownField(String::from("b"))));
    let renamed = fields_from_resolved(&ds, &vec![Some(3), Some(4)], &vec![Some(String::from("x")), Some(String::from("b"))]);
    assert_eq!(renamed.err(), Some(SchemaError::UnknownField(String::from("a"))));
}

#[test]
fn table_from_resolved_lays_entries_out_by_kind() {
    let schema = vec![
        NodeKindSchema { kind: String::from("k"), named: true, fields: vec![field("a")] },
        NodeKindSchema { kind: String::from("super"), named: true, fields: vec![] },
        NodeKindSchema { kind: String::from("k2"), named: true, fields: vec![field("b")] },
    ];
    let ids = vec![vec![Some(1)], vec![], vec![Some(2)]];
    let backs = vec![vec![Some(String::from("a"))], vec![], vec![Some(String::from("b"))]];
    let t = table_from_resolved(5, &schema, &vec![2, 0, 4], &ids, &backs).unwrap();
    assert_eq!(t.len(), 5);
    assert_eq!(t[2][0].name, "a");
    assert_eq!(t[4][0].id, 2);
    assert!(t[0].is_empty() && t[1].is_empty() && t[3].is_empty());
    let later_wins = table_from_resolved(5, &schema, &vec![2, 0, 2], &ids, &backs).unwrap();
    assert_eq!(later_wins[2][0].name, "b");
    assert_eq!(
        table_from_resolved(5, &schema, &vec![2, 0, 0], &ids, &backs).err(),
        Some(SchemaError::UnknownNodeKind(String::from("k2")))
    );
    assert_eq!(
        table_from_resolved(5, &schema, &vec![7, 0, 4], &ids, &backs).err(),
        Some(SchemaError::UnknownNodeKind(String::from("k")))
    );
}

#[test]
fn adapters_from_looked_up_ids() {
    let ts = tree_sitter_rust::language();
    let kinds: Vec<u16> = vec![10, 11, 12, 13, 14, 15, 13, 14];
    let fields: Vec<Option<u16>> = vec![Some(1), Some(1), Some(1), Some(1), Some(1), Some(1), Some(2), Some(2)];
    let r = Rust::from_resolved(ts, vec![], 99, 5, 0, &kinds, &fields).unwrap();
    assert_eq!(r.metavariable_sort(), 99);
    assert!(r.is_comment_sort(5));
    assert!(!r.is_comment_sort(0));
    assert!(r.optional_empty_field_compilation(10, 1));
    assert!(r.optional_empty_field_compilation(14, 2));
    assert!(!r.optional_empty_field_compilation(10, 2));
    assert!(!r.optional_empty_field_compilation(12, 2));

    let mut no_kind = kinds.clone();
    no_kind[5] = 0;
    assert_eq!(
        Rust::from_resolved(ts, vec![], 99, 5, 6, &no_kind, &fields).err(),
        Some(SchemaError::UnknownNodeKind(String::from("visibility")))
    );
    let mut no_field = fields.clone();
    no_field[6] = None;
    assert_eq!(
        Rust::from_resolved(ts, vec![], 99, 5, 6, &kinds, &no_field).err(),
        Some(SchemaError::UnknownField(String::from("type_parameters")))
    );
    assert_eq!(Rust::defined_quirks(&no_kind, &no_field).len(), 6);

    let md = MarkdownInline::from_parts(tree_sitter_md::inline_language(), vec![], 42);
    assert_eq!(md.metavariable_sort(), 42);
    assert!(md.is_metavariable(&node(42, 0, 1, false)));
}

#[test]
fn first_adapter_stored_stays() {
    let mut slot: Option<Rust> = None;
    assert!(!Rust::is_initialized(&slot));
    Rust::get_or_init(&mut slot, None, &rust_schema()).unwrap();
    assert!(Rust::is_initialized(&slot));
    let first = slot.as_ref().unwrap().metavariable_sort();
    Rust::get_or_init(&mut slot, Some(tree_sitter_md::inline_language()), &vec![]).unwrap();
    assert_eq!(slot.as_ref().unwrap().metavariable_sort(), first);
    assert_eq!(slot.as_ref().unwrap().get_ts_language(), tree_sitter_rust::language());
    let function_item = tree_sitter_rust::language().id_for_node_kind("function_item", true);
    assert!(!slot.as_ref().unwrap().fields_for(function_item).is_empty());

    let mut failed: Option<Rust> = None;
    let bad = vec![NodeKindSchema {
        kind: String::from("no_such_kind"),
        named: true,
        fields: vec![FieldSchema { name: String::from("a"), required: true, multiple: false }],
    }];
    assert!(Rust::get_or_init(&mut failed, None, &bad).is_err());
    assert!(!Rust::is_initialized(&failed));

    let mut md: Option<MarkdownInline> = None;
    assert!(!MarkdownInline::is_initialized(&md));
    MarkdownInline::get_or_init(&mut md, None, &markdown_schema()).unwrap();
    assert!(MarkdownInline::is_initialized(&md));
    assert_eq!(md.as_ref().unwrap().node_types().len(), tree_sitter_md::inline_language().node_kind_count());
}
