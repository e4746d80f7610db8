//! The grammars: what this library has from the parser generator's runtime
//! and from the grammars made with it.
//!
//! The types, the two names and the functions marked `external_body` are
//! not proved: each such function makes its outside call, and its contract
//! is taken on trust from the outside crate. [`parse_nodes`] and
//! [`parse_tree`] at the end, like the rest of the library, are verified
//! against these contracts.
use crate::syntax::{well_formed, SyntaxNode, SyntaxTree};
pub use tree_sitter::Language as TSLanguage;
use vstd::prelude::*;

verus! {

/// `tree_sitter::Language`: a compiled grammar. Opaque here.
#[verifier::external_type_specification]
#[verifier::external_body]
pub struct ExLanguage(TSLanguage);

/// `tree_sitter::Tree`: the outcome of one parse. Opaque here; read through
/// [`tree_len`] and [`tree_node`].
#[verifier::external_type_specification]
#[verifier::external_body]
pub struct ExTree(tree_sitter::Tree);

/// The nodes of `tree`, in the order in which `TreeCursor::goto_descendant`
/// numbers them: document order, the root first.
pub uninterp spec fn tree_nodes(tree: tree_sitter::Tree) -> Seq<SyntaxNode>;

/// What parsing `text` with `language` gives: the nodes of the tree, or
/// `None` where the parser hands back no tree.
pub uninterp spec fn parse_outcome(language: TSLanguage, text: Seq<char>) -> Option<
    Seq<SyntaxNode>,
>;

/// `Parser::parse` on a parser made by `Parser::new` and given `language` by
/// `Parser::set_language`, with no earlier tree.
///
/// Trusted: the outcome depends on the grammar and the text alone. A fresh
/// parser has no timeout, no cancellation flag and no included ranges, so
/// nothing else enters the parse. `None` comes back where the grammar's
/// version does not fit the runtime or the parser returns no tree.
#[verifier::external_body]
pub(crate) fn parse_text(language: &TSLanguage, text: &str) -> (parsed: Option<tree_sitter::Tree>)
    ensures
        match parsed {
            Some(tree) => parse_outcome(*language, text@) == Some(tree_nodes(tree)),
            None => parse_outcome(*language, text@) is None,
        },
{
    let mut parser = tree_sitter::Parser::new();
    parser.set_language(language).ok()?;
    parser.parse(text, None)
}

/// `Node::descendant_count` of `Tree::root_node`.
///
/// Trusted: the count includes the root itself, so it is the number of nodes
/// that [`tree_node`] can reach.
#[verifier::external_body]
pub(crate) fn tree_len(tree: &tree_sitter::Tree) -> (count: usize)
    ensures
        count == tree_nodes(*tree).len(),
{
    tree.root_node().descendant_count()
}

/// `TreeCursor::goto_descendant` on a cursor from `Tree::walk`, then
/// `TreeCursor::node` and `TreeCursor::depth`.
///
/// Trusted: the cursor lands on node `i` of the tree, and the node's kind,
/// byte range, depth and error marks are read off it unchanged.
#[verifier::external_body]
pub(crate) fn tree_node(tree: &tree_sitter::Tree, i: usize) -> (node: SyntaxNode)
    requires
        i < tree_nodes(*tree).len(),
    ensures
        node == tree_nodes(*tree)[i as int],
{
    let mut cursor = tree.walk();
    cursor.goto_descendant(i);
    let at = cursor.node();
    SyntaxNode {
        kind: at.kind_id(),
        start: at.start_byte(),
        end: at.end_byte(),
        depth: cursor.depth(),
        error: at.is_error(),
        missing: at.is_missing(),
    }
}

/// `tree_sitter_c::language`. Trusted: it returns.
#[verifier::external_body]
pub(crate) fn c_language() -> TSLanguage {
    tree_sitter_c::language()
}

/// `tree_sitter_go::language`. Trusted: it returns.
#[verifier::external_body]
pub(crate) fn go_language() -> TSLanguage {
    tree_sitter_go::language()
}

/// `tree_sitter_html::language`. Trusted: it returns.
#[verifier::external_body]
pub(crate) fn html_language() -> TSLanguage {
    tree_sitter_html::language()
}

/// `tree_sitter_javascript::language`. Trusted: it returns.
#[verifier::external_body]
pub(crate) fn javascript_language() -> TSLanguage {
    tree_sitter_javascript::language()
}

/// `tree_sitter_kotlin::language`. Trusted: it returns.
#[verifier::external_body]
pub(crate) fn kotlin_language() -> TSLanguage {
    tree_sitter_kotlin::language()
}

/// `tree_sitter_lua::language`. Trusted: it returns.
#[verifier::external_body]
pub(crate) fn lua_language() -> TSLanguage {
    tree_sitter_lua::language()
}

/// `tree_sitter_python::language`. Trusted: it returns.
#[verifier::external_body]
pub(crate) fn python_language() -> TSLanguage {
    tree_sitter_python::language()
}

/// `tree_sitter_rust::language`. Trusted: it returns.
#[verifier::external_body]
pub(crate) fn rust_language() -> TSLanguage {
    tree_sitter_rust::language()
}

/// `tree_sitter_swift::language`. Trusted: it returns.
#[verifier::external_body]
pub(crate) fn swift_language() -> TSLanguage {
    tree_sitter_swift::language()
}

/// `tree_sitter_typescript::language_tsx`. Trusted: it returns.
#[verifier::external_body]
pub(crate) fn tsx_language() -> TSLanguage {
    tree_sitter_typescript::language_tsx()
}

/// `tree_sitter_typescript::language_typescript`. Trusted: it returns.
#[verifier::external_body]
pub(crate) fn typescript_language() -> TSLanguage {
    tree_sitter_typescript::language_typescript()
}

/// The tree that parsing `text` with `language` gives: the parser's nodes
/// where they list a tree, else `None`.
pub open spec fn parsed_tree(language: TSLanguage, text: Seq<char>) -> Option<Seq<SyntaxNode>> {
    match parse_outcome(language, text) {
        Some(nodes) => if well_formed(nodes) {
            Some(nodes)
        } else {
            None
        },
        None => None,
    }
}

/// Parses `text` with `language` and copies the nodes out of the parser's
/// tree.
pub fn parse_nodes(language: &TSLanguage, text: &str) -> (nodes: Option<Vec<SyntaxNode>>)
    ensures
        match nodes {
            Some(list) => parse_outcome(*language, text@) == Some(list@),
            None => parse_outcome(*language, text@) is None,
        },
{
    match parse_text(language, text) {
        None => None,
        Some(tree) => {
            let count = tree_len(&tree);
            let mut list: Vec<SyntaxNode> = Vec::new();
            let mut i: usize = 0;
            while i < count
                invariant
                    count == tree_nodes(tree).len(),
                    i <= count,
                    list@ == tree_nodes(tree).subrange(0, i as int),
                decreases count - i,
            {
                let node = tree_node(&tree, i);
                list.push(node);
                i = i + 1;
            }
            assert(list@ == tree_nodes(tree));
            Some(list)
        },
    }
}

/// The nodes of a tree that may be missing.
pub open spec fn tree_view(tree: Option<SyntaxTree>) -> Option<Seq<SyntaxNode>> {
    match tree {
        Some(t) => Some(t@),
        None => None,
    }
}

/// Parses `text` with `language` into a syntax tree.
pub fn parse_tree(language: &TSLanguage, text: &str) -> (tree: Option<SyntaxTree>)
    ensures
        tree_view(tree) == parsed_tree(*language, text@),
{
    match parse_nodes(language, text) {
        None => None,
        Some(list) => SyntaxTree::from_nodes(list),
    }
}

} // verus!
