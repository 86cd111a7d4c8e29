//! Ruby: `require` and `require_relative`.

use vstd::prelude::*;

use crate::lists::{emit, group_lists, none};
use crate::nodes::{first, first_child, string_content, unquoted};
use crate::text::own;
use crate::tree::{group_tree, same, Node};
use crate::types::{import, import_info, Import, ImportInfo};
use crate::walk::{fold, folded, Fold, Walker};

verus! {

broadcast use {group_tree, group_lists};

/// The text of the last identifier among the children.
pub struct MethodName;

impl Fold for MethodName {
    type State = String;

    open spec fn step(&self, s: Seq<char>, c: Node<'_>) -> Seq<char> {
        if c.isa("identifier") {
            c.txt()
        } else {
            s
        }
    }

    fn next(&self, s: String, c: Node<'_>) -> (res: String) {
        if c.is("identifier") {
            own(c.text())
        } else {
            s
        }
    }
}

/// The content of the string that a call is given.
pub struct StringArgument;

impl Fold for StringArgument {
    type State = String;

    open spec fn step(&self, s: Seq<char>, c: Node<'_>) -> Seq<char> {
        if c.isa("argument_list") {
            match first(c, "string") {
                Some(literal) => {
                    let content = match first(literal, "string_content") {
                        Some(inner) => inner.txt(),
                        None => s,
                    };
                    if content.len() == 0 {
                        unquoted(literal.txt())
                    } else {
                        content
                    }
                },
                None => s,
            }
        } else {
            s
        }
    }

    fn next(&self, s: String, c: Node<'_>) -> (res: String) {
        if c.is("argument_list") {
            match first_child(&c, "string") {
                Some(literal) => {
                    let content = match first_child(&literal, "string_content") {
                        Some(inner) => own(inner.text()),
                        None => s,
                    };
                    if content.as_str().is_empty() {
                        string_content(&literal)
                    } else {
                        content
                    }
                },
                None => s,
            }
        } else {
            s
        }
    }
}

/// The import that a call makes, where it is `require` or `require_relative`
/// of a string.
pub open spec fn call_import(c: Node<'_>) -> Seq<Import> {
    let method = folded(&MethodName, Seq::empty(), c);
    let argument = folded(&StringArgument, Seq::empty(), c);
    if (method == "require"@ || method == "require_relative"@) && argument.len() > 0 {
        seq![import(argument, Seq::empty(), None, None, c.top())]
    } else {
        Seq::empty()
    }
}

/// All imports of a file.
pub struct Imports;

impl Walker for Imports {
    type Item = ImportInfo;

    open spec fn yields(&self, c: Node<'_>) -> Seq<Import> {
        if c.isa("call") {
            call_import(c)
        } else {
            Seq::empty()
        }
    }

    open spec fn enters<'a>(&self, c: Node<'a>) -> Option<Node<'a>> {
        Some(c)
    }

    fn visit<'a>(&self, c: Node<'a>, out: &mut Vec<ImportInfo>) -> (res: Option<Node<'a>>) {
        if c.is("call") {
            let method = fold(&MethodName, String::new(), c);
            let argument = fold(&StringArgument, String::new(), c);
            let requires_file = same(method.as_str(), "require") || same(
                method.as_str(),
                "require_relative",
            );
            if requires_file && !argument.as_str().is_empty() {
                emit(out, import_info(argument, none(), None, None, c.start_line()));
            }
        }
        Some(c)
    }
}

} // verus!
