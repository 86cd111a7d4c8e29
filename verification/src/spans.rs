//! Where a declaration begins.

use vstd::prelude::*;

use crate::tree::{group_tree, Node};
use crate::walk::{find_child, found, Test};

verus! {

broadcast use group_tree;

/// What can stand before a declaration without being part of it: annotations,
/// modifiers, attributes, decorators and comments.
pub open spec fn is_annotation_like(n: Node<'_>) -> bool {
    ||| n.isa("modifiers")
    ||| n.isa("annotation")
    ||| n.isa("marker_annotation")
    ||| n.isa("single_member_annotation")
    ||| n.isa("normal_annotation")
    ||| n.isa("annotation_modifier")
    ||| n.isa("function_modifier")
    ||| n.isa("platform_modifier")
    ||| n.isa("member_modifier")
    ||| n.isa("inheritance_modifier")
    ||| n.isa("parameter_modifier")
    ||| n.isa("reification_modifier")
    ||| n.isa("visibility_modifier")
    ||| n.isa("annotations")
    ||| n.isa("attribute")
    ||| n.isa("attributes")
    ||| n.isa("modifier")
    ||| n.isa("type_modifiers")
    ||| n.isa("user_type")
    ||| n.isa("attribute_list")
    ||| n.isa("block_comment")
    ||| n.isa("line_comment")
    ||| n.isa("comment")
    ||| n.isa("decorator")
}

/// The parts of a declaration proper.
pub struct DeclarationPart;

impl Test for DeclarationPart {
    open spec fn accepts(&self, c: Node<'_>) -> bool {
        !is_annotation_like(c)
    }

    fn test(&self, c: Node<'_>) -> (res: bool) {
        !(c.is("modifiers") || c.is("annotation") || c.is("marker_annotation") || c.is(
            "single_member_annotation",
        ) || c.is("normal_annotation") || c.is("annotation_modifier") || c.is("function_modifier")
            || c.is("platform_modifier") || c.is("member_modifier") || c.is("inheritance_modifier")
            || c.is("parameter_modifier") || c.is("reification_modifier") || c.is(
            "visibility_modifier",
        ) || c.is("annotations") || c.is("attribute") || c.is("attributes") || c.is("modifier")
            || c.is("type_modifiers") || c.is("user_type") || c.is("attribute_list") || c.is(
            "block_comment",
        ) || c.is("line_comment") || c.is("comment") || c.is("decorator"))
    }
}

/// The line on which a declaration begins, behind what stands before it.
pub open spec fn declaration_line(n: Node<'_>) -> u32 {
    match found(&DeclarationPart, n) {
        Some(c) => c.top(),
        None => n.top(),
    }
}

/// The line on which a declaration begins, behind its annotations, modifiers
/// and comments. Where there is nothing else, its first line. The line is one of
/// those of the node.
pub fn decl_keyword_line_from_node(n: &Node<'_>) -> (res: u32)
    ensures
        res == declaration_line(*n),
        n.top() <= res <= n.bottom(),
{
    match find_child(&DeclarationPart, *n) {
        Some(c) => c.start_line(),
        None => n.start_line(),
    }
}

} // verus!
