//! Python: `import x`, `from x import y`, relative imports.

use vstd::prelude::*;

use crate::lists::{emit, group_lists, none, one};
use crate::nodes::{field_text, field_text_or_empty, field_txt, or_empty};
use crate::text::{join, joined, own};
use crate::tree::{group_tree, same, Node};
use crate::types::{import, import_info, Import, ImportInfo};
use crate::walk::{pick_all, pick_into, picked, Picker, Walker};

verus! {

broadcast use {group_tree, group_lists};

/// The modules of an `import` statement.
pub struct Modules {
    pub line: u32,
}

impl Picker for Modules {
    type Item = ImportInfo;

    open spec fn picks(&self, c: Node<'_>) -> Seq<Import> {
        if c.isa("dotted_name") {
            seq![import(c.txt(), Seq::empty(), Some(false), None, self.line)]
        } else if c.isa("aliased_import") {
            seq![
                import(
                    or_empty(field_txt(c, "name")),
                    Seq::empty(),
                    Some(false),
                    field_txt(c, "alias"),
                    self.line,
                ),
            ]
        } else {
            Seq::empty()
        }
    }

    fn pick(&self, c: Node<'_>, out: &mut Vec<ImportInfo>) {
        if c.is("dotted_name") {
            emit(out, import_info(own(c.text()), none(), Some(false), None, self.line));
        } else if c.is("aliased_import") {
            let module = field_text_or_empty(&c, "name");
            emit(out, import_info(module, none(), Some(false), field_text(&c, "alias"), self.line));
        }
    }
}

/// The features that a `from __future__ import` names.
pub struct FutureNames;

impl Picker for FutureNames {
    type Item = String;

    open spec fn picks(&self, c: Node<'_>) -> Seq<Seq<char>> {
        if (c.isa("dotted_name") || c.isa("identifier")) && c.txt() != "__future__"@ {
            seq![c.txt()]
        } else {
            Seq::empty()
        }
    }

    fn pick(&self, c: Node<'_>, out: &mut Vec<String>) {
        if (c.is("dotted_name") || c.is("identifier")) && !same(c.text(), "__future__") {
            emit(out, own(c.text()));
        }
    }
}

/// The aliased names of a `from` import: an import each.
pub struct FromAliases<'b> {
    pub statement: Node<'b>,
}

impl<'b> Picker for FromAliases<'b> {
    type Item = ImportInfo;

    open spec fn picks(&self, c: Node<'_>) -> Seq<Import> {
        if c.isa("aliased_import") {
            seq![
                import(
                    from_module(self.statement),
                    seq![or_empty(field_txt(c, "name"))],
                    Some(true),
                    field_txt(c, "alias"),
                    self.statement.top(),
                ),
            ]
        } else {
            Seq::empty()
        }
    }

    fn pick(&self, c: Node<'_>, out: &mut Vec<ImportInfo>) {
        if c.is("aliased_import") {
            let name = field_text_or_empty(&c, "name");
            let alias = field_text(&c, "alias");
            let module = python_from_module(&self.statement);
            let line: u32 = self.statement.start_line();
            emit(out, import_info(module, one(name), Some(true), alias, line));
        }
    }
}

/// The dots and names of a relative import.
pub struct RelativeParts;

impl Picker for RelativeParts {
    type Item = String;

    open spec fn picks(&self, c: Node<'_>) -> Seq<Seq<char>> {
        if c.isa(".") || c.isa("relative_import") {
            seq!["."@]
        } else if c.isa("dotted_name") {
            seq![c.txt()]
        } else {
            Seq::empty()
        }
    }

    fn pick(&self, c: Node<'_>, out: &mut Vec<String>) {
        if c.is(".") || c.is("relative_import") {
            emit(out, own("."));
        } else if c.is("dotted_name") {
            emit(out, own(c.text()));
        }
    }
}

/// The module that a `from` import names.
pub open spec fn from_module(n: Node<'_>) -> Seq<char> {
    if n.isa("future_import_statement") {
        "__future__"@
    } else {
        match n.at("module_name") {
            Some(m) => m.txt(),
            None => joined(picked(&RelativeParts, n), ""@),
        }
    }
}

fn python_from_module(n: &Node<'_>) -> (res: String)
    ensures
        res@ == from_module(*n),
{
    if n.is("future_import_statement") {
        own("__future__")
    } else {
        match n.child_by_field_name("module_name") {
            Some(m) => own(m.text()),
            None => join(&pick_all(&RelativeParts, *n), ""),
        }
    }
}

/// The names of a `from` import that have no alias: those behind the module.
pub struct FromNames {
    pub behind: usize,
}

impl Picker for FromNames {
    type Item = String;

    open spec fn picks(&self, c: Node<'_>) -> Seq<Seq<char>> {
        if c.isa("dotted_name") || c.isa("identifier") {
            if c.facts().start_byte > self.behind {
                seq![c.txt()]
            } else {
                Seq::empty()
            }
        } else if c.isa("wildcard_import") {
            seq!["*"@]
        } else {
            Seq::empty()
        }
    }

    fn pick(&self, c: Node<'_>, out: &mut Vec<String>) {
        if c.is("dotted_name") || c.is("identifier") {
            if c.start_byte() > self.behind {
                emit(out, own(c.text()));
            }
        } else if c.is("wildcard_import") {
            emit(out, own("*"));
        }
    }
}

/// The names of a `from` import that have no alias.
pub open spec fn from_names(n: Node<'_>) -> Seq<Seq<char>> {
    if n.isa("future_import_statement") {
        picked(&FutureNames, n)
    } else {
        let behind = match n.at("module_name") {
            Some(m) => m.facts().end_byte as usize,
            None => 0,
        };
        picked(&FromNames { behind }, n)
    }
}

fn python_from_names(n: &Node<'_>) -> (res: Vec<String>)
    ensures
        res.deep_view() == from_names(*n),
{
    if n.is("future_import_statement") {
        pick_all(&FutureNames, *n)
    } else {
        let behind: usize = match n.child_by_field_name("module_name") {
            Some(m) => m.end_byte(),
            None => 0,
        };
        pick_all(&FromNames { behind }, *n)
    }
}

/// All imports of a file.
pub struct Imports;

impl Walker for Imports {
    type Item = ImportInfo;

    open spec fn yields(&self, c: Node<'_>) -> Seq<Import> {
        if c.isa("import_statement") {
            picked(&Modules { line: c.top() }, c)
        } else if c.isa("future_import_statement") || c.isa("import_from_statement") {
            picked(&FromAliases { statement: c }, c) + if from_names(c).len() > 0 {
                seq![import(from_module(c), from_names(c), Some(true), None, c.top())]
            } else {
                Seq::empty()
            }
        } else {
            Seq::empty()
        }
    }

    open spec fn enters<'a>(&self, c: Node<'a>) -> Option<Node<'a>> {
        if c.isa("import_statement") || c.isa("future_import_statement") || c.isa(
            "import_from_statement",
        ) {
            None
        } else {
            Some(c)
        }
    }

    fn visit<'a>(&self, c: Node<'a>, out: &mut Vec<ImportInfo>) -> (res: Option<Node<'a>>) {
        if c.is("import_statement") {
            pick_into(&Modules { line: c.start_line() }, c, out);
            None
        } else if c.is("future_import_statement") || c.is("import_from_statement") {
            pick_into(&FromAliases { statement: c }, c, out);
            let names = python_from_names(&c);
            if names.len() > 0 {
                let module = python_from_module(&c);
                emit(out, import_info(module, names, Some(true), None, c.start_line()));
            }
            None
        } else {
            Some(c)
        }
    }
}

} // verus!
