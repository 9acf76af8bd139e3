//! The tree-sitter calls the adapters rely on.

use tree_sitter::{Language, Node, Tree};
use vstd::prelude::*;

verus! {

/// A tree-sitter grammar handle, opaque here.
#[verifier::external_type_specification]
#[verifier::external_body]
pub struct ExLanguage(tree_sitter::Language);

/// A tree-sitter parse tree, opaque here.
#[verifier::external_type_specification]
#[verifier::external_body]
pub struct ExTree(tree_sitter::Tree);

/// A node of a tree-sitter parse tree, opaque here.
#[verifier::external_type_specification]
#[verifier::external_body]
pub struct ExNode<'a>(tree_sitter::Node<'a>);

/// Relies on the derived `Clone` of tree_sitter::Language, a `Copy` handle.
pub assume_specification[ <tree_sitter::Language as Clone>::clone ](lang: &Language) -> (r: Language)
    ensures
        r == *lang,
;

/// Relies on tree_sitter::Language::id_for_node_kind: the symbol of a kind name
/// (0 where the grammar has none); no property assumed.
pub assume_specification[ tree_sitter::Language::id_for_node_kind ](
    lang: &Language,
    kind: &str,
    named: bool,
) -> u16;

/// Relies on tree_sitter::Language::node_kind_count: the number of symbols; no
/// property assumed.
pub assume_specification[ tree_sitter::Language::node_kind_count ](lang: &Language) -> usize;

/// Relies on tree_sitter::Language::field_id_for_name: `None` where the grammar
/// has no field of that name, never the id 0.
#[verifier::external_body]
pub(crate) fn field_id(lang: &Language, name: &str) -> (r: Option<u16>)
    ensures
        r matches Some(id) ==> id != 0,
{
    lang.field_id_for_name(name)
}

/// Relies on tree_sitter::Language::field_name_for_id: the name of a field id,
/// `None` where the grammar has none.
#[verifier::external_body]
pub(crate) fn field_name(lang: &Language, id: u16) -> Option<String> {
    lang.field_name_for_id(id).map(|n| n.to_owned())
}

/// Relies on tree_sitter::Parser (new, set_language, parse): a tree for `text`,
/// or `None` where the parser gives none.
#[verifier::external_body]
pub(crate) fn parse_text(lang: Language, text: &str) -> Option<Tree> {
    let mut parser = tree_sitter::Parser::new();
    parser.set_language(lang).ok()?;
    parser.parse(text, None)
}

/// Relies on tree_sitter::Tree::root_node: the root of the tree, no property assumed.
pub assume_specification<'a>[ tree_sitter::Tree::root_node ](tree: &'a Tree) -> Node<'a>;

/// Relies on tree_sitter::Node::kind_id: the node's symbol, no property assumed.
pub assume_specification<'a>[ tree_sitter::Node::<'a>::kind_id ](node: &Node<'a>) -> u16;

/// Relies on tree_sitter::Node::start_byte: where the node starts, no property assumed.
pub assume_specification<'a>[ tree_sitter::Node::<'a>::start_byte ](node: &Node<'a>) -> usize;

/// Relies on tree_sitter::Node::end_byte: where the node ends, no property assumed.
pub assume_specification<'a>[ tree_sitter::Node::<'a>::end_byte ](node: &Node<'a>) -> usize;

/// Relies on tree_sitter::Node::is_error: whether it is an error node, no property assumed.
pub assume_specification<'a>[ tree_sitter::Node::<'a>::is_error ](node: &Node<'a>) -> bool;

/// Relies on tree_sitter::Node::is_missing: whether the parser inserted it, no property assumed.
pub assume_specification<'a>[ tree_sitter::Node::<'a>::is_missing ](node: &Node<'a>) -> bool;

/// Relies on tree_sitter::Node::child_count: the number of children, no property assumed.
pub assume_specification<'a>[ tree_sitter::Node::<'a>::child_count ](node: &Node<'a>) -> usize;

/// Relies on tree_sitter::Node::child: the child at an index, if any, no property assumed.
pub assume_specification<'a>[ tree_sitter::Node::<'a>::child ](node: &Node<'a>, i: usize) -> Option<Node<'a>>;

} // verus!
