//! The adapter for Rust.

use crate::grammar::field_id;
use crate::language::{
    build_node_table, contains_pair, contains_sort, fields_for_nodes, fields_of, first_writer, loaded_from,
    resolve_snippet, table_entry, wraps_all, Field, FieldId, NodeKindSchema, SchemaError, SortId,
};
use crate::snippet::{model_of, selected, Candidate, ParsedSnippet, SyntaxNode};
use tree_sitter::Language;
use vstd::prelude::*;
use vstd::string::StringExecFns;

verus! {

/// Relies on tree_sitter_rust::language: the Rust grammar compiled into that crate.
#[verifier::external_body]
pub fn language() -> Language {
    tree_sitter_rust::language()
}

/// The symbol that the built-in Rust grammar gives a kind name.
pub uninterp spec fn rust_kind_id(name: Seq<char>, named: bool) -> u16;

/// The id that the built-in Rust grammar gives a field name.
pub uninterp spec fn rust_field_id(name: Seq<char>) -> Option<u16>;

/// Relies on tree_sitter_rust::language and tree_sitter::Language::id_for_node_kind:
/// the compiled-in grammar's symbol for a kind name, a function of the name.
#[verifier::external_body]
fn builtin_kind_id(name: &str, named: bool) -> (r: u16)
    ensures
        r == rust_kind_id(name@, named),
{
    tree_sitter_rust::language().id_for_node_kind(name, named)
}

/// Relies on tree_sitter_rust::language and tree_sitter::Language::field_id_for_name:
/// the compiled-in grammar's id for a field name, `None` where it has none,
/// never 0.
#[verifier::external_body]
fn builtin_field_id(name: &str) -> (r: Option<u16>)
    ensures
        r == rust_field_id(name@),
        r matches Some(id) ==> id != 0,
{
    tree_sitter_rust::language().field_id_for_name(name)
}

/// The symbol of a kind name in `language`; `lang` is `None` where that is
/// the built-in grammar.
fn kind_id_in(lang: Option<Language>, language: &Language, name: &str, named: bool) -> (r: u16)
    ensures
        lang is None ==> r == rust_kind_id(name@, named),
{
    match lang {
        None => builtin_kind_id(name, named),
        Some(_) => language.id_for_node_kind(name, named),
    }
}

/// The id of a field name in `language`; `lang` is `None` where that is the
/// built-in grammar.
fn field_id_in(lang: Option<Language>, language: &Language, name: &str) -> (r: Option<u16>)
    ensures
        lang is None ==> r == rust_field_id(name@),
{
    match lang {
        None => builtin_field_id(name),
        Some(_) => field_id(language, name),
    }
}

/// The kinds of the quirk names in the built-in grammar.
pub open spec fn builtin_quirk_kinds() -> Seq<SortId> {
    quirk_names().map_values(|p: (&'static str, &'static str)| rust_kind_id(p.0@, true))
}

/// The fields of the quirk names in the built-in grammar.
pub open spec fn builtin_quirk_fields() -> Seq<Option<FieldId>> {
    quirk_names().map_values(|p: (&'static str, &'static str)| rust_field_id(p.1@))
}

/// The adapter's placeholder, comment kinds and quirks are those of the
/// built-in grammar, with the quirks it does not define left out.
pub open spec fn builtin_lookups(a: Rust) -> bool {
    &&& a.metavariable_sort == rust_kind_id("grit_metavariable"@, true)
    &&& a.comment_sorts@ == comment_set(rust_kind_id("line_comment"@, true), rust_kind_id("block_comment"@, true))
    &&& a.optional_empty_field_compilation@ == kept_quirks(builtin_quirk_kinds(), builtin_quirk_fields())
}

/// Adapters built over the built-in grammar, however many and whenever,
/// classify alike: same placeholder, same comment kinds, same quirks.
pub proof fn lemma_builtin_adapters_agree(a: Rust, b: Rust, sort: SortId, field: FieldId)
    requires
        builtin_lookups(a),
        builtin_lookups(b),
    ensures
        a.metavariable_sort == b.metavariable_sort,
        a.comment_sorts@.contains(sort) == b.comment_sorts@.contains(sort),
        a.optional_empty_field_compilation@.contains((sort, field)) == b.optional_empty_field_compilation@.contains(
            (sort, field),
        ),
{
}

/// The node kind and field of each construct whose optional field, left out,
/// must compile as present but empty.
pub open spec fn quirk_names() -> Seq<(&'static str, &'static str)> {
    seq![
        ("struct_item", "visibility"),
        ("union_item", "visibility"),
        ("enum_item", "visibility"),
        ("function_item", "visibility"),
        ("function_signature_item", "visibility"),
        ("visibility", "visibility"),
        ("function_item", "type_parameters"),
        ("function_signature_item", "type_parameters"),
    ]
}

/// The templates a Rust fragment is tried in.
pub open spec fn rust_contexts() -> Seq<(&'static str, &'static str)> {
    seq![
        ("", ""),
        ("", ";"),
        ("let GRIT_VAR = ", ";"),
        ("fn GRIT_FN(", ") {}"),
        ("fn GRIT_FN(GRIT_ARG:", ") { }"),
    ]
}

/// The quirk names, as a list.
fn quirk_name_list() -> (r: Vec<(&'static str, &'static str)>)
    ensures
        r@ == quirk_names(),
{
    let r = vec![
        ("struct_item", "visibility"),
        ("union_item", "visibility"),
        ("enum_item", "visibility"),
        ("function_item", "visibility"),
        ("function_signature_item", "visibility"),
        ("visibility", "visibility"),
        ("function_item", "type_parameters"),
        ("function_signature_item", "type_parameters"),
    ];
    assert(r@ =~= quirk_names());
    r
}

/// The comment kinds among those looked up: a name the grammar does not
/// define (kind 0) adds nothing.
pub open spec fn comment_set(line_comment: SortId, block_comment: SortId) -> Seq<SortId> {
    let first: Seq<SortId> = if line_comment != 0 {
        seq![line_comment]
    } else {
        Seq::empty()
    };
    if block_comment != 0 {
        first.push(block_comment)
    } else {
        first
    }
}

/// Quirk `i` resolved: the grammar defines both its kind and its field.
pub open spec fn quirk_resolved(kinds: Seq<SortId>, fields: Seq<Option<FieldId>>, i: int) -> bool {
    kinds[i] != 0 && fields[i] is Some
}

/// The error for a quirk that did not resolve: its kind's name where the kind
/// is unknown, else its field's name.
pub open spec fn quirk_error(e: SchemaError, kind: SortId, names: (&str, &str)) -> bool {
    if kind == 0 {
        e matches SchemaError::UnknownNodeKind(n) && n@ == names.0@
    } else {
        e matches SchemaError::UnknownField(n) && n@ == names.1@
    }
}

/// The resolved quirk pairs, in order.
pub open spec fn kept_quirks(kinds: Seq<SortId>, fields: Seq<Option<FieldId>>) -> Seq<(SortId, FieldId)>
    decreases kinds.len(),
{
    if kinds.len() == 0 || fields.len() == 0 {
        Seq::empty()
    } else {
        let rest = kept_quirks(kinds.drop_last(), fields.drop_last());
        if kinds.last() != 0 && fields.last() is Some {
            rest.push((kinds.last(), fields.last().unwrap()))
        } else {
            rest
        }
    }
}

/// No more quirks resolve than were looked up.
proof fn lemma_kept_quirks_len(kinds: Seq<SortId>, fields: Seq<Option<FieldId>>)
    ensures
        kept_quirks(kinds, fields).len() <= kinds.len(),
    decreases kinds.len(),
{
    if kinds.len() > 0 && fields.len() > 0 {
        lemma_kept_quirks_len(kinds.drop_last(), fields.drop_last());
    }
}

/// The per-grammar state of Rust: node-type table, special kinds and quirks.
#[derive(Debug, Clone)]
pub struct Rust {
    pub node_types: Vec<Vec<Field>>,
    pub metavariable_sort: SortId,
    pub comment_sorts: Vec<SortId>,
    pub language: Language,
    pub optional_empty_field_compilation: Vec<(SortId, FieldId)>,
}

impl Rust {
    /// The adapter from looked-up kinds: `metavariable_sort` is the placeholder
    /// kind, the comment kinds are those of `line_comment` and `block_comment`
    /// that the grammar defines (nonzero), and the quirk table is `quirks`.
    pub fn from_parts(
        language: Language,
        node_types: Vec<Vec<Field>>,
        metavariable_sort: SortId,
        line_comment: SortId,
        block_comment: SortId,
        quirks: Vec<(SortId, FieldId)>,
    ) -> (r: Self)
        ensures
            r.language == language,
            r.node_types == node_types,
            r.metavariable_sort == metavariable_sort,
            r.comment_sorts@ == comment_set(line_comment, block_comment),
            r.optional_empty_field_compilation == quirks,
    {
        let mut comment_sorts: Vec<SortId> = Vec::new();
        if line_comment != 0 {
            comment_sorts.push(line_comment);
        }
        if block_comment != 0 {
            comment_sorts.push(block_comment);
        }
        assert(comment_sorts@ =~= comment_set(line_comment, block_comment));
        Rust { node_types, metavariable_sort, comment_sorts, language, optional_empty_field_compilation: quirks }
    }

    /// The adapter from looked-up kinds, where every quirk resolved:
    /// `quirk_kinds[i]` and `quirk_fields[i]` are what the grammar gave for the
    /// names `quirk_names()[i]`. The first quirk whose kind is 0 is an
    /// `UnknownNodeKind`, or whose field is `None` an `UnknownField`, naming it.
    pub fn from_resolved(
        language: Language,
        node_types: Vec<Vec<Field>>,
        metavariable_sort: SortId,
        line_comment: SortId,
        block_comment: SortId,
        quirk_kinds: &Vec<SortId>,
        quirk_fields: &Vec<Option<FieldId>>,
    ) -> (r: Result<Self, SchemaError>)
        requires
            quirk_kinds@.len() == quirk_names().len(),
            quirk_fields@.len() == quirk_names().len(),
        ensures
            r is Ok <==> forall|i: int| 0 <= i < quirk_kinds@.len() ==> quirk_resolved(quirk_kinds@, quirk_fields@, i),
            r matches Ok(a) ==> {
                &&& a.language == language
                &&& a.node_types == node_types
                &&& a.metavariable_sort == metavariable_sort
                &&& a.comment_sorts@ == comment_set(line_comment, block_comment)
                &&& a.optional_empty_field_compilation@.len() == quirk_kinds@.len()
                &&& forall|i: int|
                    0 <= i < quirk_kinds@.len() ==> (#[trigger] a.optional_empty_field_compilation@[i]) == (
                    quirk_kinds@[i],
                    quirk_fields@[i].unwrap(),
                )
            },
            r matches Err(e) ==> exists|i: int|
                0 <= i < quirk_kinds@.len() && !quirk_resolved(quirk_kinds@, quirk_fields@, i) && (forall|j: int|
                    0 <= j < i ==> quirk_resolved(quirk_kinds@, quirk_fields@, j)) && quirk_error(
                    e,
                    quirk_kinds@[i],
                    #[trigger] quirk_names()[i],
                ),
    {
        let names = quirk_name_list();
        let mut quirks: Vec<(SortId, FieldId)> = Vec::new();
        let mut i: usize = 0;
        while i < quirk_kinds.len()
            invariant
                i <= quirk_kinds@.len(),
                quirk_kinds@.len() == quirk_names().len(),
                quirk_fields@.len() == quirk_names().len(),
                names@ == quirk_names(),
                quirks@.len() == i,
                forall|j: int| 0 <= j < i ==> quirk_resolved(quirk_kinds@, quirk_fields@, j),
                forall|j: int|
                    0 <= j < i ==> (#[trigger] quirks@[j]) == (quirk_kinds@[j], quirk_fields@[j].unwrap()),
            decreases quirk_kinds@.len() - i,
        {
            let kind = quirk_kinds[i];
            let (kind_name, field_name) = names[i];
            if kind == 0 {
                let e = SchemaError::UnknownNodeKind(kind_name.to_owned());
                assert(quirk_error(e, quirk_kinds@[i as int], quirk_names()[i as int]));
                assert(!quirk_resolved(quirk_kinds@, quirk_fields@, i as int));
                return Err(e);
            }
            match quirk_fields[i] {
                None => {
                    let e = SchemaError::UnknownField(field_name.to_owned());
                    assert(quirk_error(e, quirk_kinds@[i as int], quirk_names()[i as int]));
                    assert(!quirk_resolved(quirk_kinds@, quirk_fields@, i as int));
                    return Err(e);
                },
                Some(f) => quirks.push((kind, f)),
            }
            i += 1;
        }
        Ok(Self::from_parts(language, node_types, metavariable_sort, line_comment, block_comment, quirks))
    }

    /// The quirk pairs whose kind and field the grammar both defines.
    pub fn defined_quirks(quirk_kinds: &Vec<SortId>, quirk_fields: &Vec<Option<FieldId>>) -> (r: Vec<(SortId, FieldId)>)
        requires
            quirk_kinds@.len() == quirk_fields@.len(),
        ensures
            r@ == kept_quirks(quirk_kinds@, quirk_fields@),
    {
        let mut r: Vec<(SortId, FieldId)> = Vec::new();
        let mut i: usize = 0;
        while i < quirk_kinds.len()
            invariant
                i <= quirk_kinds@.len(),
                quirk_kinds@.len() == quirk_fields@.len(),
                r@ == kept_quirks(quirk_kinds@.subrange(0, i as int), quirk_fields@.subrange(0, i as int)),
            decreases quirk_kinds@.len() - i,
        {
            proof {
                assert(quirk_kinds@.subrange(0, i as int + 1).drop_last() =~= quirk_kinds@.subrange(0, i as int));
                assert(quirk_fields@.subrange(0, i as int + 1).drop_last() =~= quirk_fields@.subrange(0, i as int));
            }
            match quirk_fields[i] {
                Some(f) => {
                    if quirk_kinds[i] != 0 {
                        r.push((quirk_kinds[i], f));
                    }
                },
                None => {},
            }
            i += 1;
        }
        assert(quirk_kinds@.subrange(0, quirk_kinds@.len() as int) =~= quirk_kinds@);
        assert(quirk_fields@.subrange(0, quirk_fields@.len() as int) =~= quirk_fields@);
        r
    }

    /// Looks the quirk names up in `language`: kinds and fields, in order.
    fn look_up_quirks(lang: Option<Language>, language: &Language) -> (r: (Vec<SortId>, Vec<Option<FieldId>>))
        ensures
            r.0@.len() == quirk_names().len(),
            r.1@.len() == quirk_names().len(),
            lang is None ==> r.0@ == builtin_quirk_kinds() && r.1@ == builtin_quirk_fields(),
    {
        let names = quirk_name_list();
        let mut kinds: Vec<SortId> = Vec::new();
        let mut fields: Vec<Option<FieldId>> = Vec::new();
        let mut i: usize = 0;
        while i < names.len()
            invariant
                i <= names@.len(),
                names@ == quirk_names(),
                kinds@.len() == i,
                fields@.len() == i,
                lang is None ==> kinds@ == builtin_quirk_kinds().subrange(0, i as int),
                lang is None ==> fields@ == builtin_quirk_fields().subrange(0, i as int),
            decreases names@.len() - i,
        {
            let (kind, field) = names[i];
            kinds.push(kind_id_in(lang, language, kind, true));
            fields.push(field_id_in(lang, language, field));
            i += 1;
            proof {
                if lang is None {
                    assert(kinds@ =~= builtin_quirk_kinds().subrange(0, i as int));
                    assert(fields@ =~= builtin_quirk_fields().subrange(0, i as int));
                }
            }
        }
        proof {
            if lang is None {
                assert(kinds@ =~= builtin_quirk_kinds());
                assert(fields@ =~= builtin_quirk_fields());
            }
        }
        (kinds, fields)
    }

    /// Builds the adapter over `lang`, or over the built-in grammar, with the
    /// node-type table of the grammar's descriptor `schema` (`fields_for_nodes`:
    /// `Err` where the descriptor names a kind or field the grammar lacks). The
    /// quirk table holds the quirks whose kind and field the grammar defines
    /// (`defined_quirks`), and an undefined comment kind adds nothing.
    /// `with_node_types` is the strict construction, which also refuses a
    /// grammar that lacks a quirk name.
    pub fn new(lang: Option<Language>, schema: &Vec<NodeKindSchema>) -> (r: Result<Self, SchemaError>)
        ensures
            (forall|i: int| 0 <= i < schema@.len() ==> (#[trigger] schema@[i]).fields@.len() == 0) ==> r is Ok,
            r matches Ok(a) ==> {
                &&& lang matches Some(l) ==> a.language == l
                &&& loaded_from(a.node_types@, schema@)
                &&& a.comment_sorts@.len() <= 2
                &&& forall|k: int| 0 <= k < a.comment_sorts@.len() ==> #[trigger] a.comment_sorts@[k] != 0
                &&& a.optional_empty_field_compilation@.len() <= quirk_names().len()
                &&& lang is None ==> builtin_lookups(a)
            },
            r matches Err(SchemaError::UnknownNodeKind(n)) ==> exists|i: int|
                0 <= i < schema@.len() && n == (#[trigger] schema@[i]).kind,
            r matches Err(SchemaError::UnknownField(n)) ==> exists|i: int, k: int|
                0 <= i < schema@.len() && 0 <= k < schema@[i].fields@.len() && n == (
                #[trigger] schema@[i].fields@[k]).name,
    {
        let language = match lang {
            Some(l) => l,
            None => language(),
        };
        let node_types = match fields_for_nodes(&language, schema) {
            Ok(t) => t,
            Err(e) => {
                return Err(e);
            },
        };
        let metavariable_sort = kind_id_in(lang, &language, "grit_metavariable", true);
        let line_comment = kind_id_in(lang, &language, "line_comment", true);
        let block_comment = kind_id_in(lang, &language, "block_comment", true);
        let (kinds, fields) = Self::look_up_quirks(lang, &language);
        let quirks = Self::defined_quirks(&kinds, &fields);
        proof {
            lemma_kept_quirks_len(kinds@, fields@);
        }
        Ok(Self::from_parts(language, node_types, metavariable_sort, line_comment, block_comment, quirks))
    }

    /// Builds the adapter over `lang`, or over the built-in grammar, with the
    /// node-type table of `schema` and every quirk resolved (`from_resolved`);
    /// `Err` where the schema or a quirk names a kind or a field the grammar
    /// does not define.
    pub fn with_node_types(lang: Option<Language>, schema: &Vec<NodeKindSchema>) -> (r: Result<Self, SchemaError>)
        ensures
            r matches Ok(a) ==> {
                &&& lang matches Some(l) ==> a.language == l
                &&& a.comment_sorts@.len() <= 2
                &&& forall|k: int| 0 <= k < a.comment_sorts@.len() ==> #[trigger] a.comment_sorts@[k] != 0
                &&& loaded_from(a.node_types@, schema@)
                &&& a.optional_empty_field_compilation@.len() == quirk_names().len()
                &&& lang is None ==> {
                    &&& a.metavariable_sort == rust_kind_id("grit_metavariable"@, true)
                    &&& a.comment_sorts@ == comment_set(
                        rust_kind_id("line_comment"@, true),
                        rust_kind_id("block_comment"@, true),
                    )
                    &&& forall|i: int|
                        0 <= i < quirk_names().len() ==> (#[trigger] a.optional_empty_field_compilation@[i]) == (
                        builtin_quirk_kinds()[i],
                        builtin_quirk_fields()[i].unwrap(),
                    )
                }
            },
            r matches Err(SchemaError::UnknownNodeKind(n)) ==> (exists|i: int|
                0 <= i < schema@.len() && n == (#[trigger] schema@[i]).kind) || (exists|i: int|
                0 <= i < quirk_names().len() && n@ == (#[trigger] quirk_names()[i]).0@),
            r matches Err(SchemaError::UnknownField(n)) ==> (exists|i: int, k: int|
                0 <= i < schema@.len() && 0 <= k < schema@[i].fields@.len() && n == (
                #[trigger] schema@[i].fields@[k]).name) || (exists|i: int|
                0 <= i < quirk_names().len() && n@ == (#[trigger] quirk_names()[i]).1@),
    {
        let language = match lang {
            Some(l) => l,
            None => language(),
        };
        let node_types = match fields_for_nodes(&language, schema) {
            Ok(t) => t,
            Err(e) => {
                return Err(e);
            },
        };
        let metavariable_sort = kind_id_in(lang, &language, "grit_metavariable", true);
        let line_comment = kind_id_in(lang, &language, "line_comment", true);
        let block_comment = kind_id_in(lang, &language, "block_comment", true);
        let (kinds, fields) = Self::look_up_quirks(lang, &language);
        Self::from_resolved(language, node_types, metavariable_sort, line_comment, block_comment, &kinds, &fields)
    }

    /// Whether the write-once slot already holds an adapter.
    pub fn is_initialized(slot: &Option<Rust>) -> (r: bool)
        ensures
            r == slot is Some,
    {
        slot.is_some()
    }

    /// Fills the write-once slot with an adapter built by `new` where it is
    /// empty; an adapter already there stays, whatever `lang` and `schema` are.
    pub fn get_or_init(slot: &mut Option<Rust>, lang: Option<Language>, schema: &Vec<NodeKindSchema>) -> (r: Result<
        (),
        SchemaError,
    >)
        ensures
            (*old(slot)) is Some ==> *final(slot) == *old(slot) && r is Ok,
            r is Ok ==> (*final(slot)) is Some && exists|a: Rust| *final(slot) == first_writer(*old(slot), a),
            r is Ok && (*old(slot)) is None ==> loaded_from(final(slot).unwrap().node_types@, schema@),
            r is Err ==> *final(slot) == *old(slot),
    {
        if slot.is_none() {
            match Self::new(lang, schema) {
                Ok(a) => {
                    *slot = Some(a);
                    assert(*slot == first_writer(None, a));
                },
                Err(e) => {
                    return Err(e);
                },
            }
        } else {
            assert(*slot == first_writer(*slot, slot.unwrap()));
        }
        Ok(())
    }

    /// The node-type table, indexed by kind.
    pub fn node_types(&self) -> (r: &[Vec<Field>])
        ensures
            r@ == self.node_types@,
    {
        self.node_types.as_slice()
    }

    /// The fields of a node kind; empty for a kind the table does not know.
    pub fn fields_for(&self, sort: SortId) -> (r: &[Field])
        ensures
            r@ == fields_of(self.node_types@, sort),
    {
        crate::language::fields_for(&self.node_types, sort)
    }

    pub fn language_name(&self) -> (r: &'static str)
        ensures
            r@ == "Rust"@,
    {
        "Rust"
    }

    /// The templates a fragment is tried in, in order.
    pub fn snippet_context_strings(&self) -> (r: Vec<(&'static str, &'static str)>)
        ensures
            r@ == rust_contexts(),
    {
        let r = vec![
            ("", ""),
            ("", ";"),
            ("let GRIT_VAR = ", ";"),
            ("fn GRIT_FN(", ") {}"),
            ("fn GRIT_FN(GRIT_ARG:", ") { }"),
        ];
        assert(r@ =~= rust_contexts());
        r
    }

    /// A line comment holding `text`.
    pub fn make_single_line_comment(&self, text: &str) -> (r: String)
        ensures
            r@ == "// "@ + text@ + "\n"@,
    {
        let mut r = "// ".to_owned();
        r.append(text);
        r.append("\n");
        r
    }

    pub fn get_ts_language(&self) -> (r: Language)
        ensures
            r == self.language,
    {
        self.language
    }

    pub fn metavariable_sort(&self) -> (r: SortId)
        ensures
            r == self.metavariable_sort,
    {
        self.metavariable_sort
    }

    /// Whether `id` is one of the comment kinds.
    pub fn is_comment_sort(&self, id: SortId) -> (r: bool)
        ensures
            r == self.comment_sorts@.contains(id),
    {
        contains_sort(self.comment_sorts.as_slice(), id)
    }

    /// Whether the node is a comment.
    pub fn is_comment(&self, node: &SyntaxNode) -> (r: bool)
        ensures
            r == self.comment_sorts@.contains(node.kind),
    {
        self.is_comment_sort(node.kind)
    }

    /// Whether the node is a metavariable placeholder; none is where the
    /// grammar defines no placeholder kind (kind 0).
    pub fn is_metavariable(&self, node: &SyntaxNode) -> (r: bool)
        ensures
            r == (self.metavariable_sort != 0 && node.kind == self.metavariable_sort),
    {
        self.metavariable_sort != 0 && node.kind == self.metavariable_sort
    }

    /// Whether an optional field of this kind, left out, compiles as present.
    pub fn optional_empty_field_compilation(&self, sort_id: SortId, field_id: FieldId) -> (r: bool)
        ensures
            r == self.optional_empty_field_compilation@.contains((sort_id, field_id)),
    {
        contains_pair(&self.optional_empty_field_compilation, sort_id, field_id)
    }

    /// The parses of `fragment`, one per template that anchors it, in the
    /// order of the templates. A wrapped text whose parse has more than
    /// `MAX_SNIPPET_NODES` nodes is not considered.
    pub fn parse_snippet_contexts(&self, fragment: &str) -> (r: Vec<ParsedSnippet>)
        ensures
            exists|cs: Seq<Candidate>|
                {
                    &&& wraps_all(cs, rust_contexts(), fragment)
                    &&& r@.len() == selected(cs).len()
                    &&& forall|k: int| 0 <= k < r@.len() ==> model_of(#[trigger] r@[k]) == selected(cs)[k]
                },
    {
        let contexts = self.snippet_context_strings();
        let (_candidates, found) = resolve_snippet(self.language, &contexts, fragment);
        found
    }
}

} // verus!
