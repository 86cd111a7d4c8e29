//! Java: `import a.b.C`, `import a.b.*`, `import static ..`.

use vstd::prelude::*;

use crate::lists::{emit, group_lists, none};
use crate::nodes::{first, has_child};
use crate::text::{concat, own};
use crate::tree::{group_tree, Node};
use crate::types::{import, import_info, Import, ImportInfo};
use crate::walk::{fold, folded, Fold, Walker};

verus! {

broadcast use {group_tree, group_lists};

/// The text of the last name among the children.
pub struct LastName;

impl Fold for LastName {
    type State = String;

    open spec fn step(&self, s: Seq<char>, c: Node<'_>) -> Seq<char> {
        if c.isa("scoped_identifier") || c.isa("identifier") {
            c.txt()
        } else {
            s
        }
    }

    fn next(&self, s: String, c: Node<'_>) -> (res: String) {
        if c.is("scoped_identifier") || c.is("identifier") {
            own(c.text())
        } else {
            s
        }
    }
}

/// The import that an import declaration makes.
pub open spec fn declared_import(n: Node<'_>) -> Import {
    let path = folded(&LastName, Seq::empty(), n);
    let module = if first(n, "asterisk") is Some {
        path + ".*"@
    } else {
        path
    };
    import(module, Seq::empty(), Some(first(n, "static") is Some), None, n.top())
}

fn parse_import_declaration(n: &Node<'_>) -> (res: ImportInfo)
    ensures
        res.deep_view() == declared_import(*n),
{
    let path = fold(&LastName, String::new(), *n);
    let module = if has_child(n, "asterisk") {
        concat(path.as_str(), ".*")
    } else {
        path
    };
    import_info(module, none(), Some(has_child(n, "static")), None, n.start_line())
}

/// All imports of a file.
pub struct Imports;

impl Walker for Imports {
    type Item = ImportInfo;

    open spec fn yields(&self, c: Node<'_>) -> Seq<Import> {
        if c.isa("import_declaration") {
            seq![declared_import(c)]
        } else {
            Seq::empty()
        }
    }

    open spec fn enters<'a>(&self, c: Node<'a>) -> Option<Node<'a>> {
        if c.isa("import_declaration") {
            None
        } else {
            Some(c)
        }
    }

    fn visit<'a>(&self, c: Node<'a>, out: &mut Vec<ImportInfo>) -> (res: Option<Node<'a>>) {
        if c.is("import_declaration") {
            emit(out, parse_import_declaration(&c));
            None
        } else {
            Some(c)
        }
    }
}

} // verus!
