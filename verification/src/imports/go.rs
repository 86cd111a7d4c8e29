//! Go: `import "pkg"`, with or without an alias.

use vstd::prelude::*;

use crate::lists::{emit, group_lists, none};
use crate::nodes::{field_content, field_text, field_txt, field_unquoted, string_content, unquoted};
use crate::tree::{group_tree, Node};
use crate::types::{import, import_info, Import, ImportInfo};
use crate::walk::{pick_into, picked, Picker, Walker};

verus! {

broadcast use {group_tree, group_lists};

/// The import that an import spec makes.
pub open spec fn spec_import(n: Node<'_>) -> Import {
    import(
        field_unquoted(n, "path"),
        Seq::empty(),
        Some(false),
        field_txt(n, "name"),
        n.top(),
    )
}

fn parse_import_spec(n: &Node<'_>) -> (res: ImportInfo)
    ensures
        res.deep_view() == spec_import(*n),
{
    import_info(
        field_content(n, "path"),
        none(),
        Some(false),
        field_text(n, "name"),
        n.start_line(),
    )
}

/// The import specs between the parentheses of an import declaration.
pub struct Specs;

impl Picker for Specs {
    type Item = ImportInfo;

    open spec fn picks(&self, c: Node<'_>) -> Seq<Import> {
        if c.isa("import_spec") {
            seq![spec_import(c)]
        } else {
            Seq::empty()
        }
    }

    fn pick(&self, c: Node<'_>, out: &mut Vec<ImportInfo>) {
        if c.is("import_spec") {
            emit(out, parse_import_spec(&c));
        }
    }
}

/// The imports of an import declaration.
pub struct Declared;

impl Picker for Declared {
    type Item = ImportInfo;

    open spec fn picks(&self, c: Node<'_>) -> Seq<Import> {
        if c.isa("import_spec") {
            seq![spec_import(c)]
        } else if c.isa("import_spec_list") {
            picked(&Specs, c)
        } else if c.isa("interpreted_string_literal") {
            seq![import(unquoted(c.txt()), Seq::empty(), Some(false), None, c.top())]
        } else {
            Seq::empty()
        }
    }

    fn pick(&self, c: Node<'_>, out: &mut Vec<ImportInfo>) {
        if c.is("import_spec") {
            emit(out, parse_import_spec(&c));
        } else if c.is("import_spec_list") {
            pick_into(&Specs, c, out);
        } else if c.is("interpreted_string_literal") {
            emit(out, import_info(string_content(&c), none(), Some(false), None, c.start_line()));
        }
    }
}

/// All imports of a file.
pub struct Imports;

impl Walker for Imports {
    type Item = ImportInfo;

    open spec fn yields(&self, c: Node<'_>) -> Seq<Import> {
        if c.isa("import_declaration") {
            picked(&Declared, c)
        } else {
            Seq::empty()
        }
    }

    open spec fn enters<'a>(&self, c: Node<'a>) -> Option<Node<'a>> {
        if c.isa("import_declaration") {
            None
        } else {
            Some(c)
        }
    }

    fn visit<'a>(&self, c: Node<'a>, out: &mut Vec<ImportInfo>) -> (res: Option<Node<'a>>) {
        if c.is("import_declaration") {
            pick_into(&Declared, c, out);
            None
        } else {
            Some(c)
        }
    }
}

} // verus!
