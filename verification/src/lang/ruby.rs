//! Ruby: methods, classes and modules.

use vstd::prelude::*;

use crate::docs::{join_lines, joined_lines};
use crate::items::{class_at, function_at, new_class, new_function};
use crate::lists::{backwards, emit, group_lists, none, one, push_some, some_seq};
use crate::nodes::{field_text, field_text_or_empty, field_txt, or_empty};
use crate::text::own;
use crate::tree::{group_tree, Node};
use crate::types::{Class, ClassInfo, Function, FunctionInfo};
use crate::walk::{
    gather, gathered, inside, is_inside, look_back_from, nearest_first, pick_all, picked, Back,
    Picker, Test, Walker,
};

verus! {

broadcast use {group_tree, group_lists};

/// Classes and modules. The keywords that begin them are of the same kinds, but
/// are no declarations.
pub struct ClassNode;

impl Test for ClassNode {
    open spec fn accepts(&self, c: Node<'_>) -> bool {
        c.facts().named && (c.isa("class") || c.isa("module"))
    }

    fn test(&self, c: Node<'_>) -> (res: bool) {
        c.is_named() && (c.is("class") || c.is("module"))
    }
}

/// The parameters in a parameter list.
pub struct Params;

impl Picker for Params {
    type Item = String;

    open spec fn picks(&self, c: Node<'_>) -> Seq<Seq<char>> {
        if c.isa("identifier") || c.isa("splat_parameter") || c.isa("hash_splat_parameter")
            || c.isa("block_parameter") || c.isa("destructured_parameter") {
            seq![c.txt()]
        } else if c.isa("optional_parameter") || c.isa("keyword_parameter") {
            some_seq(field_txt(c, "name"))
        } else {
            Seq::empty()
        }
    }

    fn pick(&self, c: Node<'_>, out: &mut Vec<String>) {
        if c.is("identifier") || c.is("splat_parameter") || c.is("hash_splat_parameter") || c.is(
            "block_parameter",
        ) || c.is("destructured_parameter") {
            emit(out, own(c.text()));
        } else if c.is("optional_parameter") || c.is("keyword_parameter") {
            push_some(out, field_text(&c, "name"));
        }
    }
}

/// The parameters of a method.
pub open spec fn params(n: Node<'_>) -> Seq<Seq<char>> {
    match n.at("parameters") {
        Some(list) => picked(&Params, list),
        None => Seq::empty(),
    }
}

/// The parameters of a method.
pub fn extract_ruby_params(n: &Node<'_>) -> (res: Vec<String>)
    ensures
        res.deep_view() == params(*n),
{
    match n.child_by_field_name("parameters") {
        Some(list) => pick_all(&Params, list),
        None => none(),
    }
}

/// Comments.
pub struct Comments;

impl Back for Comments {
    type Item = String;

    open spec fn passes(&self, c: Node<'_>) -> bool {
        c.isa("comment")
    }

    open spec fn takes(&self, c: Node<'_>) -> Option<Seq<char>> {
        Some(c.txt())
    }

    fn pass(&self, c: Node<'_>) -> (res: bool) {
        c.is("comment")
    }

    fn take(&self, c: Node<'_>) -> (res: Option<String>) {
        Some(own(c.text()))
    }
}

/// The node before a definition. Before the first node of a class body stands
/// what stands before the body.
pub open spec fn node_before<'a>(n: Node<'a>) -> Option<Node<'a>> {
    match n.left() {
        Some(p) => Some(p),
        None => match n.up() {
            Some(body) if body.isa("body_statement") => body.left(),
            _ => None,
        },
    }
}

/// The comments just before a definition, as written.
pub open spec fn docstring(n: Node<'_>) -> Option<Seq<char>> {
    joined_lines(nearest_first(&Comments, node_before(n)).reverse())
}

/// The comments just before a definition, as written.
pub fn extract_ruby_docstring(n: &Node<'_>) -> (res: Option<String>)
    ensures
        res.deep_view() == docstring(*n),
{
    let before = match n.prev_sibling() {
        Some(p) => Some(p),
        None => match n.parent() {
            Some(body) => if body.is("body_statement") {
                body.prev_sibling()
            } else {
                None
            },
            None => None,
        },
    };
    join_lines(&backwards(look_back_from(&Comments, before)))
}

/// What is reported of a method.
pub open spec fn function_info(n: Node<'_>, is_method: bool) -> Function {
    Function {
        params: params(n),
        docstring: docstring(n),
        is_method,
        decorators: if n.isa("singleton_method") {
            seq!["self"@]
        } else {
            Seq::empty()
        },
        ..function_at(or_empty(field_txt(n, "name")), n)
    }
}

/// What is reported of a method.
pub fn extract_ruby_function_info(n: &Node<'_>, is_method: bool) -> (res: FunctionInfo)
    ensures
        res.deep_view() == function_info(*n, is_method),
{
    let mut info = new_function(field_text_or_empty(n, "name"), n);
    info.params = extract_ruby_params(n);
    info.docstring = extract_ruby_docstring(n);
    info.is_method = is_method;
    if n.is("singleton_method") {
        info.decorators = one(own("self"));
    }
    info
}

/// The methods of a file outside of classes and modules.
pub struct Functions;

impl Walker for Functions {
    type Item = FunctionInfo;

    open spec fn yields(&self, c: Node<'_>) -> Seq<Function> {
        if (c.isa("method") || c.isa("singleton_method")) && !inside(&ClassNode, c) {
            seq![function_info(c, false)]
        } else {
            Seq::empty()
        }
    }

    open spec fn enters<'a>(&self, c: Node<'a>) -> Option<Node<'a>> {
        if c.isa("method") || c.isa("singleton_method") || ClassNode.accepts(c) {
            None
        } else {
            Some(c)
        }
    }

    fn visit<'a>(&self, c: Node<'a>, out: &mut Vec<FunctionInfo>) -> (res: Option<Node<'a>>) {
        if c.is("method") || c.is("singleton_method") {
            if !is_inside(&ClassNode, &c) {
                emit(out, extract_ruby_function_info(&c, false));
            }
            None
        } else if ClassNode.test(c) {
            None
        } else {
            Some(c)
        }
    }
}

/// The methods of a class or module body, but for those of nested ones.
pub struct BodyMethods;

impl Walker for BodyMethods {
    type Item = FunctionInfo;

    open spec fn yields(&self, c: Node<'_>) -> Seq<Function> {
        if c.isa("method") || c.isa("singleton_method") {
            seq![function_info(c, true)]
        } else {
            Seq::empty()
        }
    }

    open spec fn enters<'a>(&self, c: Node<'a>) -> Option<Node<'a>> {
        if c.isa("method") || c.isa("singleton_method") || ClassNode.accepts(c) {
            None
        } else {
            Some(c)
        }
    }

    fn visit<'a>(&self, c: Node<'a>, out: &mut Vec<FunctionInfo>) -> (res: Option<Node<'a>>) {
        if c.is("method") || c.is("singleton_method") {
            emit(out, extract_ruby_function_info(&c, true));
            None
        } else if ClassNode.test(c) {
            None
        } else {
            Some(c)
        }
    }
}

/// What is reported of a class or module.
pub open spec fn class_info(n: Node<'_>) -> Class {
    Class {
        bases: if n.isa("class") {
            some_seq(field_txt(n, "superclass"))
        } else {
            Seq::empty()
        },
        docstring: docstring(n),
        methods: match n.at("body") {
            Some(body) => gathered(&BodyMethods, body),
            None => Seq::empty(),
        },
        decorators: if n.isa("class") {
            Seq::empty()
        } else {
            seq!["module"@]
        },
        ..class_at(or_empty(field_txt(n, "name")), n)
    }
}

/// What is reported of a class or module.
pub fn extract_ruby_class_info(n: &Node<'_>) -> (res: ClassInfo)
    ensures
        res.deep_view() == class_info(*n),
{
    let mut info = new_class(field_text_or_empty(n, "name"), n);
    info.docstring = extract_ruby_docstring(n);
    match n.child_by_field_name("body") {
        Some(body) => {
            info.methods = gather(&BodyMethods, body);
        },
        None => {},
    }
    if n.is("class") {
        push_some(&mut info.bases, field_text(n, "superclass"));
    } else {
        info.decorators = one(own("module"));
    }
    info
}

/// All classes and modules of a file, also those inside of others.
pub struct Classes;

impl Walker for Classes {
    type Item = ClassInfo;

    open spec fn yields(&self, c: Node<'_>) -> Seq<Class> {
        if ClassNode.accepts(c) {
            seq![class_info(c)]
        } else {
            Seq::empty()
        }
    }

    open spec fn enters<'a>(&self, c: Node<'a>) -> Option<Node<'a>> {
        if ClassNode.accepts(c) {
            c.at("body")
        } else {
            Some(c)
        }
    }

    fn visit<'a>(&self, c: Node<'a>, out: &mut Vec<ClassInfo>) -> (res: Option<Node<'a>>) {
        if ClassNode.test(c) {
            emit(out, extract_ruby_class_info(&c));
            c.child_by_field_name("body")
        } else {
            Some(c)
        }
    }
}

} // verus!
