//! C#: `using` directives.

use vstd::prelude::*;

use crate::lists::{emit, group_lists, none};
use crate::nodes::{first, text_of_child, txt_of};
use crate::text::{contains, has, own};
use crate::tree::{group_tree, Node};
use crate::types::{import, import_info, Import, ImportInfo};
use crate::walk::{fold, folded, Fold, Walker};

verus! {

broadcast use {group_tree, group_lists};

/// The module, the alias, and whether the `=` between them was passed. A name
/// before the `=` is the alias, a name behind it the module; without a `=` the
/// first name is the module.
pub struct UsingParts;

impl Fold for UsingParts {
    type State = (String, Option<String>, bool);

    open spec fn step(
        &self,
        s: (Seq<char>, Option<Seq<char>>, bool),
        c: Node<'_>,
    ) -> (Seq<char>, Option<Seq<char>>, bool) {
        if c.isa("=") {
            if s.0.len() > 0 && s.1 is None {
                (Seq::empty(), Some(s.0), true)
            } else {
                (s.0, s.1, true)
            }
        } else if c.isa("name_equals") {
            let alias = match s.1 {
                Some(name) => Some(name),
                None => txt_of(first(c, "identifier")),
            };
            (Seq::empty(), alias, true)
        } else if c.isa("qualified_name") || c.isa("identifier") || c.isa("name") {
            if s.2 || s.0.len() == 0 {
                (c.txt(), s.1, s.2)
            } else {
                s
            }
        } else {
            s
        }
    }

    fn next(&self, s: (String, Option<String>, bool), c: Node<'_>) -> (res: (
        String,
        Option<String>,
        bool,
    )) {
        let ghost before = s.deep_view();
        let (module, alias, past_equals) = s;
        assert(before == (module@, alias.deep_view(), past_equals));
        if c.is("=") {
            if !module.as_str().is_empty() && alias.is_none() {
                (String::new(), Some(module), true)
            } else {
                (module, alias, true)
            }
        } else if c.is("name_equals") {
            let alias = match alias {
                Some(name) => Some(name),
                None => text_of_child(&c, "identifier"),
            };
            (String::new(), alias, true)
        } else if c.is("qualified_name") || c.is("identifier") || c.is("name") {
            if past_equals || module.as_str().is_empty() {
                (own(c.text()), alias, past_equals)
            } else {
                (module, alias, past_equals)
            }
        } else {
            (module, alias, past_equals)
        }
    }
}

/// The import that a `using` directive makes.
pub open spec fn using_import(c: Node<'_>) -> Seq<Import> {
    let parts = folded(&UsingParts, (Seq::empty(), None, false), c);
    if parts.0.len() > 0 {
        seq![
            import(
                parts.0,
                Seq::empty(),
                Some(has(c.txt(), "static"@) || has(c.txt(), "global"@)),
                parts.1,
                c.top(),
            ),
        ]
    } else {
        Seq::empty()
    }
}

/// All imports of a file.
pub struct Imports;

impl Walker for Imports {
    type Item = ImportInfo;

    open spec fn yields(&self, c: Node<'_>) -> Seq<Import> {
        if c.isa("using_directive") {
            using_import(c)
        } else {
            Seq::empty()
        }
    }

    open spec fn enters<'a>(&self, c: Node<'a>) -> Option<Node<'a>> {
        if c.isa("using_directive") {
            None
        } else {
            Some(c)
        }
    }

    fn visit<'a>(&self, c: Node<'a>, out: &mut Vec<ImportInfo>) -> (res: Option<Node<'a>>) {
        if c.is("using_directive") {
            let (module, alias, _past) = fold(&UsingParts, (String::new(), None, false), c);
            let is_static = contains(c.text(), "static") || contains(c.text(), "global");
            if !module.as_str().is_empty() {
                emit(out, import_info(module, none(), Some(is_static), alias, c.start_line()));
            }
            None
        } else {
            Some(c)
        }
    }
}

} // verus!
