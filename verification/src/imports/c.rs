//! C and C++: header directives.

use vstd::prelude::*;

use crate::lists::{group_lists, none, push_some, some_seq};
use crate::text::{own, strip, stripped};
use crate::tree::{group_tree, Node};
use crate::types::{import, import_info, Import, ImportInfo};
use crate::walk::Walker;

verus! {

broadcast use {group_tree, group_lists};

/// The header that a directive names: `Some(true)` marks a system header,
/// `Some(false)` a local one. A macro names no header.
pub open spec fn header_import(n: Node<'_>) -> Option<Import> {
    match n.at("path") {
        Some(path) => if path.isa("system_lib_string") {
            Some(
                import(stripped(path.txt(), "<>"@), Seq::empty(), Some(true), None, n.top()),
            )
        } else if path.isa("string_literal") {
            Some(
                import(stripped(path.txt(), "\""@), Seq::empty(), Some(false), None, n.top()),
            )
        } else {
            None
        },
        None => None,
    }
}

fn parse_header(n: &Node<'_>) -> (res: Option<ImportInfo>)
    ensures
        res.deep_view() == header_import(*n),
{
    match n.child_by_field_name("path") {
        Some(path) => if path.is("system_lib_string") {
            let module = own(strip(path.text(), "<>"));
            Some(import_info(module, none(), Some(true), None, n.start_line()))
        } else if path.is("string_literal") {
            let module = own(strip(path.text(), "\""));
            Some(import_info(module, none(), Some(false), None, n.start_line()))
        } else {
            None
        },
        None => None,
    }
}

/// All headers of a file.
pub struct Imports;

impl Walker for Imports {
    type Item = ImportInfo;

    open spec fn yields(&self, c: Node<'_>) -> Seq<Import> {
        if c.isa("preproc_include") {
            some_seq(header_import(c))
        } else {
            Seq::empty()
        }
    }

    open spec fn enters<'a>(&self, c: Node<'a>) -> Option<Node<'a>> {
        if c.isa("preproc_include") {
            None
        } else {
            Some(c)
        }
    }

    fn visit<'a>(&self, c: Node<'a>, out: &mut Vec<ImportInfo>) -> (res: Option<Node<'a>>) {
        if c.is("preproc_include") {
            push_some(out, parse_header(&c));
            None
        } else {
            Some(c)
        }
    }
}

} // verus!
