use marzano_language::language::fields_for_nodes;
use marzano_language::{FieldSchema, MarkdownInline, NodeKindSchema};
use serde_json::Value;

fn schema(text: &str) -> Vec<NodeKindSchema> {
    let value: Value = serde_json::from_str(text).unwrap();
    let mut out = Vec::new();
    for entry in value.as_array().unwrap() {
        let mut fields = Vec::new();
        if let Some(map) = entry.get("fields").and_then(Value::as_object) {
            for (name, field) in map {
                fields.push(FieldSchema {
                    name: name.clone(),
                    required: field["required"].as_bool().unwrap(),
                    multiple: field["multiple"].as_bool().unwrap(),
                });
            }
        }
        out.push(NodeKindSchema {
            kind: entry["type"].as_str().unwrap().to_string(),
            named: entry["named"].as_bool().unwrap(),
            fields,
        });
    }
    out
}

#[test]
fn shipped_rust_node_types_load() {
    let ts = tree_sitter_rust::language();
    let table = fields_for_nodes(&ts, &schema(tree_sitter_rust::NODE_TYPES)).unwrap();
    let function_item = ts.id_for_node_kind("function_item", true);
    let fields = &table[function_item as usize];
    assert!(fields.iter().any(|f| f.name == "name" && f.required && !f.multiple));
    assert!(fields.iter().any(|f| f.name == "type_parameters" && !f.required));
    for f in fields {
        assert_eq!(ts.field_name_for_id(f.id), Some(f.name.as_str()));
    }
}

#[test]
fn shipped_markdown_inline_node_types_load() {
    let lang = MarkdownInline::new(None, &schema(tree_sitter_md::NODE_TYPES_INLINE)).unwrap();
    assert_eq!(lang.node_types().len(), tree_sitter_md::inline_language().node_kind_count());
}
