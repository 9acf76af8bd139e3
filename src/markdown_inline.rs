//! The adapter for inline markdown, a grammar without comments.

use crate::language::{
    build_node_table, fields_for_nodes, fields_of, first_writer, loaded_from, resolve_snippet, table_entry,
    wraps_all, Field, FieldId, NodeKindSchema, SchemaError, SortId,
};
use crate::snippet::{model_of, selected, Candidate, ParsedSnippet, SyntaxNode};
use tree_sitter::Language;
use vstd::prelude::*;
use vstd::string::StringExecFns;

verus! {

/// Relies on tree_sitter_md::inline_language: the inline markdown grammar.
#[verifier::external_body]
pub fn language() -> Language {
    tree_sitter_md::inline_language()
}

/// The symbol that the built-in inline markdown grammar gives a kind name.
pub uninterp spec fn markdown_inline_kind_id(name: Seq<char>, named: bool) -> u16;

/// Relies on tree_sitter_md::inline_language and tree_sitter::Language::id_for_node_kind:
/// the compiled-in grammar's symbol for a kind name, a function of the name.
#[verifier::external_body]
fn builtin_kind_id(name: &str, named: bool) -> (r: u16)
    ensures
        r == markdown_inline_kind_id(name@, named),
{
    tree_sitter_md::inline_language().id_for_node_kind(name, named)
}

/// The templates an inline markdown fragment is tried in: the fragment alone.
pub open spec fn markdown_inline_contexts() -> Seq<(&'static str, &'static str)> {
    seq![("", "")]
}

/// The per-grammar state of inline markdown: node-type table and the
/// metavariable kind.
#[derive(Debug, Clone)]
pub struct MarkdownInline {
    pub node_types: Vec<Vec<Field>>,
    pub metavariable_sort: SortId,
    pub language: Language,
}

impl MarkdownInline {
    /// The adapter from a looked-up placeholder kind.
    pub fn from_parts(language: Language, node_types: Vec<Vec<Field>>, metavariable_sort: SortId) -> (r: Self)
        ensures
            r.language == language,
            r.node_types == node_types,
            r.metavariable_sort == metavariable_sort,
    {
        MarkdownInline { node_types, metavariable_sort, language }
    }

    /// Builds the adapter over `lang`, or over the built-in grammar, with the
    /// node-type table of the grammar's descriptor `schema` (`fields_for_nodes`:
    /// `Err` where the descriptor names a kind or field the grammar lacks).
    pub fn new(lang: Option<Language>, schema: &Vec<NodeKindSchema>) -> (r: Result<Self, SchemaError>)
        ensures
            (forall|i: int| 0 <= i < schema@.len() ==> (#[trigger] schema@[i]).fields@.len() == 0) ==> r is Ok,
            r matches Ok(a) ==> {
                &&& lang matches Some(l) ==> a.language == l
                &&& loaded_from(a.node_types@, schema@)
                &&& lang is None ==> a.metavariable_sort == markdown_inline_kind_id("grit_metavariable"@, true)
            },
            r matches Err(SchemaError::UnknownNodeKind(n)) ==> exists|i: int|
                0 <= i < schema@.len() && n == (#[trigger] schema@[i]).kind,
            r matches Err(SchemaError::UnknownField(n)) ==> exists|i: int, k: int|
                0 <= i < schema@.len() && 0 <= k < schema@[i].fields@.len() && n == (
                #[trigger] schema@[i].fields@[k]).name,
    {
        let language = match lang {
            Some(l) => l,
            None => language(),
        };
        let node_types = match fields_for_nodes(&language, schema) {
            Ok(t) => t,
            Err(e) => {
                return Err(e);
            },
        };
        let metavariable_sort = match lang {
            None => builtin_kind_id("grit_metavariable", true),
            Some(_) => language.id_for_node_kind("grit_metavariable", true),
        };
        Ok(Self::from_parts(language, node_types, metavariable_sort))
    }

    /// Whether the write-once slot already holds an adapter.
    pub fn is_initialized(slot: &Option<MarkdownInline>) -> (r: bool)
        ensures
            r == slot is Some,
    {
        slot.is_some()
    }

    /// Fills the write-once slot with an adapter built by `new` where it is
    /// empty; an adapter already there stays, whatever `lang` and `schema` are.
    pub fn get_or_init(
        slot: &mut Option<MarkdownInline>,
        lang: Option<Language>,
        schema: &Vec<NodeKindSchema>,
    ) -> (r: Result<(), SchemaError>)
        ensures
            (*old(slot)) is Some ==> *final(slot) == *old(slot) && r is Ok,
            r is Ok ==> (*final(slot)) is Some && exists|a: MarkdownInline| *final(slot) == first_writer(*old(slot), a),
            r is Ok && (*old(slot)) is None ==> loaded_from(final(slot).unwrap().node_types@, schema@),
            r is Err ==> *final(slot) == *old(slot),
    {
        if slot.is_none() {
            match Self::new(lang, schema) {
                Ok(a) => {
                    *slot = Some(a);
                    assert(*slot == first_writer(None, a));
                },
                Err(e) => {
                    return Err(e);
                },
            }
        } else {
            assert(*slot == first_writer(*slot, slot.unwrap()));
        }
        Ok(())
    }

    /// The node-type table, indexed by kind.
    pub fn node_types(&self) -> (r: &[Vec<Field>])
        ensures
            r@ == self.node_types@,
    {
        self.node_types.as_slice()
    }

    /// The fields of a node kind; empty for a kind the table does not know.
    pub fn fields_for(&self, sort: SortId) -> (r: &[Field])
        ensures
            r@ == fields_of(self.node_types@, sort),
    {
        crate::language::fields_for(&self.node_types, sort)
    }

    pub fn language_name(&self) -> (r: &'static str)
        ensures
            r@ == "MarkdownInline"@,
    {
        "MarkdownInline"
    }

    /// The templates a fragment is tried in: the fragment alone.
    pub fn snippet_context_strings(&self) -> (r: Vec<(&'static str, &'static str)>)
        ensures
            r@ == markdown_inline_contexts(),
    {
        let r = vec![("", "")];
        assert(r@ =~= markdown_inline_contexts());
        r
    }

    /// An HTML comment holding `text`, on a line of its own.
    pub fn make_single_line_comment(&self, text: &str) -> (r: String)
        ensures
            r@ == "<!-- "@ + text@ + " -->\n"@,
    {
        let mut r = "<!-- ".to_owned();
        r.append(text);
        r.append(" -->\n");
        r
    }

    pub fn get_ts_language(&self) -> (r: Language)
        ensures
            r == self.language,
    {
        self.language
    }

    pub fn metavariable_sort(&self) -> (r: SortId)
        ensures
            r == self.metavariable_sort,
    {
        self.metavariable_sort
    }

    /// Inline markdown has no comment kind.
    pub fn is_comment_sort(&self, _sort: SortId) -> (r: bool)
        ensures
            !r,
    {
        false
    }

    /// Inline markdown has no comments: no node is one.
    pub fn is_comment(&self, node: &SyntaxNode) -> (r: bool)
        ensures
            !r,
    {
        self.is_comment_sort(node.kind)
    }

    /// Whether the node is a metavariable placeholder; none is where the
    /// grammar defines no placeholder kind (kind 0).
    pub fn is_metavariable(&self, node: &SyntaxNode) -> (r: bool)
        ensures
            r == (self.metavariable_sort != 0 && node.kind == self.metavariable_sort),
    {
        self.metavariable_sort != 0 && node.kind == self.metavariable_sort
    }

    /// Inline markdown has no optional field that compiles as present.
    pub fn optional_empty_field_compilation(&self, _sort_id: SortId, _field_id: FieldId) -> (r: bool)
        ensures
            !r,
    {
        false
    }

    /// The parses of `fragment` that anchor it. A wrapped text whose parse has
    /// more than `MAX_SNIPPET_NODES` nodes is not considered.
    pub fn parse_snippet_contexts(&self, fragment: &str) -> (r: Vec<ParsedSnippet>)
        ensures
            exists|cs: Seq<Candidate>|
                {
                    &&& wraps_all(cs, markdown_inline_contexts(), fragment)
                    &&& r@.len() == selected(cs).len()
                    &&& forall|k: int| 0 <= k < r@.len() ==> model_of(#[trigger] r@[k]) == selected(cs)[k]
                },
    {
        let contexts = self.snippet_context_strings();
        let (_candidates, found) = resolve_snippet(self.language, &contexts, fragment);
        found
    }
}

} // verus!
