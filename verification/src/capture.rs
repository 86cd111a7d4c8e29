//! Syntax trees of the `tree_sitter` parser, read into plain data.

use vstd::prelude::*;

use crate::lists::{group_lists, none, push};
use crate::tree::{is_tree, NodeFacts, NodeRecord, SyntaxTree};

verus! {

broadcast use group_lists;

/// A parse of `tree_sitter`.
#[verifier::external_type_specification]
#[verifier::external_body]
pub struct ExTree(tree_sitter::Tree);

/// A cursor of `tree_sitter`.
#[verifier::external_type_specification]
#[verifier::external_body]
pub struct ExTreeCursor<'cursor>(tree_sitter::TreeCursor<'cursor>);

/// The nodes of a parse, in the order in which a walk from the root reaches
/// them.
pub uninterp spec fn tree_nodes(tree: tree_sitter::Tree) -> Seq<NodeFacts>;

/// The nodes of the parse that a cursor walks over, in the order in which a
/// walk from the root reaches them.
pub uninterp spec fn cursor_nodes(cursor: tree_sitter::TreeCursor<'_>) -> Seq<NodeFacts>;

/// `Tree::walk`: a cursor over all nodes of the parse.
#[verifier::external_body]
fn walk_tree(tree: &tree_sitter::Tree) -> (res: tree_sitter::TreeCursor<'_>)
    ensures
        cursor_nodes(res) == tree_nodes(*tree),
{
    tree.walk()
}

/// `Node::descendant_count` of the root: the number of nodes, the root among
/// them.
#[verifier::external_body]
fn count_nodes(tree: &tree_sitter::Tree) -> (res: usize)
    ensures
        res == tree_nodes(*tree).len(),
{
    tree.root_node().descendant_count()
}

/// `TreeCursor::goto_descendant`: moves the cursor to the node at position `i`
/// of the walk. What the node and the cursor there tell is handed out as plain
/// values.
#[verifier::external_body]
fn read_node(cursor: &mut tree_sitter::TreeCursor<'_>, i: usize) -> (res: NodeRecord)
    requires
        i < cursor_nodes(*old(cursor)).len(),
    ensures
        cursor_nodes(*final(cursor)) == cursor_nodes(*old(cursor)),
        res.deep_view() == cursor_nodes(*old(cursor))[i as int],
{
    cursor.goto_descendant(i);
    let node = cursor.node();
    NodeRecord {
        kind: node.kind().to_string(),
        field: cursor.field_name().map(|name| name.to_string()),
        named: node.is_named(),
        depth: cursor.depth() as usize,
        start_byte: node.start_byte(),
        end_byte: node.end_byte(),
        start_row: node.start_position().row,
        end_row: node.end_position().row,
    }
}

impl SyntaxTree {
    /// Reads a parse of `source`, or says that it is not the parse of that
    /// source.
    pub fn capture(tree: &tree_sitter::Tree, source: &str) -> (res: Option<SyntaxTree>)
        ensures
            res is Some <==> is_tree(source@, tree_nodes(*tree)),
            res matches Some(t) ==> t.text() == source@ && t.nodes() == tree_nodes(*tree),
    {
        let count: usize = count_nodes(tree);
        let mut cursor = walk_tree(tree);
        let mut records: Vec<NodeRecord> = none();
        let mut i: usize = 0;
        while i < count
            invariant
                count == tree_nodes(*tree).len(),
                cursor_nodes(cursor) == tree_nodes(*tree),
                i <= count,
                records.deep_view() == tree_nodes(*tree).take(i as int),
            decreases count - i,
        {
            push(&mut records, read_node(&mut cursor, i));
            i += 1;
            assert(tree_nodes(*tree).take(i as int) =~= tree_nodes(*tree).take(i - 1).push(
                tree_nodes(*tree)[i - 1],
            ));
        }
        assert(tree_nodes(*tree).take(i as int) =~= tree_nodes(*tree));
        SyntaxTree::from_records(source.to_owned(), records)
    }
}

} // verus!
