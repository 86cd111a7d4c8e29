//! Lua and Luau: `require`.

use vstd::prelude::*;

use crate::lists::{emit, group_lists, none};
use crate::nodes::{first, first_child, string_content, unquoted};
use crate::text::{concat, concat3, own};
use crate::tree::{group_tree, same, Node};
use crate::types::{import, import_info, on_line, with_line, Import, ImportInfo};
use crate::walk::{fold, folded, Fold, Walker};

verus! {

broadcast use {group_tree, group_lists};

/// `base.name`, or `name` where there is no base.
pub open spec fn dotted(base: Seq<char>, name: Seq<char>) -> Seq<char> {
    if base.len() == 0 {
        name
    } else {
        base + "."@ + name
    }
}

fn dotted_path(base: &str, name: &str) -> (res: String)
    ensures
        res@ == dotted(base@, name@),
{
    if base.is_empty() {
        own(name)
    } else {
        concat3(base, ".", name)
    }
}

/// The path that `a.b.c` spells.
pub open spec fn dot_path(n: Node<'_>) -> Seq<char>
    decreases n.rank(), 0nat,
{
    match n.at("field") {
        Some(field) => match n.at("table") {
            Some(table) => dotted(path_segment(table), field.txt()),
            None => field.txt(),
        },
        None => Seq::empty(),
    }
}

/// The path that `a["b"]` or `a[b]` spells.
pub open spec fn bracket_path(n: Node<'_>) -> Seq<char>
    decreases n.rank(), 0nat,
{
    match (n.at("table"), n.at("field")) {
        (Some(table), Some(field)) => {
            let base = path_segment(table);
            if field.isa("string") {
                dotted(base, unquoted(field.txt()))
            } else if base.len() == 0 {
                field.txt()
            } else {
                base + "["@ + field.txt() + "]"@
            }
        },
        _ => Seq::empty(),
    }
}

/// The path that the left side of an index spells.
pub open spec fn path_segment(n: Node<'_>) -> Seq<char>
    decreases n.rank(), 1nat,
{
    if n.isa("identifier") {
        n.txt()
    } else if n.isa("dot_index_expression") {
        dot_path(n)
    } else if n.isa("bracket_index_expression") {
        bracket_path(n)
    } else if n.isa("parenthesized_expression") {
        match n.named_from(0, 0) {
            Some(inner) => path_segment(inner),
            None => Seq::empty(),
        }
    } else {
        n.txt()
    }
}

/// The name that `x:WaitForChild("name")` or `x:FindFirstChild("name")` looks up.
pub open spec fn method_call_path(n: Node<'_>) -> Seq<char> {
    match n.at("name") {
        Some(name) if name.isa("method_index_expression") => match name.at("method") {
            Some(m) if m.txt() == "WaitForChild"@ || m.txt() == "FindFirstChild"@ => match n.at(
                "arguments",
            ) {
                Some(args) => match first(args, "string") {
                    Some(s) => unquoted(s.txt()),
                    None => Seq::empty(),
                },
                None => Seq::empty(),
            },
            _ => Seq::empty(),
        },
        _ => Seq::empty(),
    }
}

/// The module that the argument of `require` names, or the empty text.
pub open spec fn module_text(n: Node<'_>) -> Seq<char>
    decreases n.rank(),
{
    if n.isa("string") {
        unquoted(n.txt())
    } else if n.isa("identifier") {
        n.txt()
    } else if n.isa("dot_index_expression") {
        dot_path(n)
    } else if n.isa("bracket_index_expression") {
        bracket_path(n)
    } else if n.isa("function_call") {
        method_call_path(n)
    } else if n.isa("parenthesized_expression") {
        match n.named_from(0, 0) {
            Some(inner) => module_text(inner),
            None => Seq::empty(),
        }
    } else {
        Seq::empty()
    }
}

/// The path that `a.b.c` spells.
pub fn lua_dot_index_path(n: &Node<'_>) -> (res: String)
    ensures
        res@ == dot_path(*n),
    decreases n.rank(), 0nat,
{
    match n.child_by_field_name("field") {
        Some(field) => match n.child_by_field_name("table") {
            Some(table) => {
                let base = lua_require_path_segment(&table);
                dotted_path(base.as_str(), field.text())
            },
            None => own(field.text()),
        },
        None => String::new(),
    }
}

/// The path that `a["b"]` or `a[b]` spells.
pub fn lua_bracket_index_path(n: &Node<'_>) -> (res: String)
    ensures
        res@ == bracket_path(*n),
    decreases n.rank(), 0nat,
{
    match (n.child_by_field_name("table"), n.child_by_field_name("field")) {
        (Some(table), Some(field)) => {
            let base = lua_require_path_segment(&table);
            if field.is("string") {
                let key = string_content(&field);
                dotted_path(base.as_str(), key.as_str())
            } else if base.as_str().is_empty() {
                own(field.text())
            } else {
                let open = concat3(base.as_str(), "[", field.text());
                concat(open.as_str(), "]")
            }
        },
        _ => String::new(),
    }
}

/// The path that the left side of an index spells.
pub fn lua_require_path_segment(n: &Node<'_>) -> (res: String)
    ensures
        res@ == path_segment(*n),
    decreases n.rank(), 1nat,
{
    if n.is("identifier") {
        own(n.text())
    } else if n.is("dot_index_expression") {
        lua_dot_index_path(n)
    } else if n.is("bracket_index_expression") {
        lua_bracket_index_path(n)
    } else if n.is("parenthesized_expression") {
        match n.named_child(0) {
            Some(inner) => lua_require_path_segment(&inner),
            None => String::new(),
        }
    } else {
        own(n.text())
    }
}

/// The name that `x:WaitForChild("name")` or `x:FindFirstChild("name")` looks up.
pub fn lua_require_method_call_path(n: &Node<'_>) -> (res: String)
    ensures
        res@ == method_call_path(*n),
{
    let name = match n.child_by_field_name("name") {
        Some(name) => name,
        None => return String::new(),
    };
    if !name.is("method_index_expression") {
        return String::new();
    }
    let method = match name.child_by_field_name("method") {
        Some(m) => m,
        None => return String::new(),
    };
    if !same(method.text(), "WaitForChild") && !same(method.text(), "FindFirstChild") {
        return String::new();
    }
    match n.child_by_field_name("arguments") {
        Some(args) => match first_child(&args, "string") {
            Some(s) => string_content(&s),
            None => String::new(),
        },
        None => String::new(),
    }
}

/// The module that the argument of `require` names, or the empty text.
pub fn lua_require_module_path(n: &Node<'_>) -> (res: String)
    ensures
        res@ == module_text(*n),
    decreases n.rank(),
{
    if n.is("string") {
        string_content(n)
    } else if n.is("identifier") {
        own(n.text())
    } else if n.is("dot_index_expression") {
        lua_dot_index_path(n)
    } else if n.is("bracket_index_expression") {
        lua_bracket_index_path(n)
    } else if n.is("function_call") {
        lua_require_method_call_path(n)
    } else if n.is("parenthesized_expression") {
        match n.named_child(0) {
            Some(inner) => lua_require_module_path(&inner),
            None => String::new(),
        }
    } else {
        String::new()
    }
}

/// The module that the first argument of a call names, or the empty text.
pub open spec fn argument_path(n: Node<'_>) -> Seq<char> {
    match n.named_from(0, 0) {
        Some(c) => module_text(c),
        None => Seq::empty(),
    }
}

fn extract_string_from_arguments(n: &Node<'_>) -> (res: String)
    ensures
        res@ == argument_path(*n),
{
    match n.named_child(0) {
        Some(c) => lua_require_module_path(&c),
        None => String::new(),
    }
}

/// Whether `require` was passed, and the module behind it.
pub struct RequireParts;

impl Fold for RequireParts {
    type State = (bool, String);

    open spec fn step(&self, s: (bool, Seq<char>), c: Node<'_>) -> (bool, Seq<char>) {
        if c.isa("identifier") {
            (s.0 || c.txt() == "require"@, s.1)
        } else if c.isa("arguments") {
            if s.0 {
                (s.0, argument_path(c))
            } else {
                s
            }
        } else if c.isa("string") {
            if s.0 {
                (s.0, unquoted(c.txt()))
            } else {
                s
            }
        } else {
            s
        }
    }

    fn next(&self, s: (bool, String), c: Node<'_>) -> (res: (bool, String)) {
        let ghost before = s.deep_view();
        let (is_require, module) = s;
        assert(before == (is_require, module@));
        if c.is("identifier") {
            (is_require || same(c.text(), "require"), module)
        } else if c.is("arguments") {
            if is_require {
                (is_require, extract_string_from_arguments(&c))
            } else {
                (is_require, module)
            }
        } else if c.is("string") {
            if is_require {
                (is_require, string_content(&c))
            } else {
                (is_require, module)
            }
        } else {
            (is_require, module)
        }
    }
}

/// The import that a call makes, where it is `require` of a module. Its line is
/// not set.
pub open spec fn require_import(n: Node<'_>) -> Option<Import> {
    let parts = folded(&RequireParts, (false, Seq::empty()), n);
    if parts.0 && parts.1.len() > 0 {
        Some(import(parts.1, Seq::empty(), None, None, 0))
    } else {
        None
    }
}

/// The import that a call makes, where it is `require` of a module. Its line is
/// not set.
pub fn extract_lua_require(n: &Node<'_>) -> (res: Option<ImportInfo>)
    ensures
        res.deep_view() == require_import(*n),
{
    let start: (bool, String) = (false, String::new());
    assert(start.deep_view() == (false, Seq::<char>::empty()));
    let parts = fold(&RequireParts, start, *n);
    assert(parts.deep_view() == (parts.0, parts.1@));
    let (is_require, module) = parts;
    if is_require && !module.as_str().is_empty() {
        Some(import_info(module, none(), None, None, 0))
    } else {
        None
    }
}

/// All imports of a file.
pub struct Imports;

impl Walker for Imports {
    type Item = ImportInfo;

    open spec fn yields(&self, c: Node<'_>) -> Seq<Import> {
        match require_import(c) {
            Some(made) if c.isa("function_call") => seq![on_line(made, c.top())],
            _ => Seq::empty(),
        }
    }

    open spec fn enters<'a>(&self, c: Node<'a>) -> Option<Node<'a>> {
        if c.isa("function_call") && require_import(c) is Some {
            None
        } else {
            Some(c)
        }
    }

    fn visit<'a>(&self, c: Node<'a>, out: &mut Vec<ImportInfo>) -> (res: Option<Node<'a>>) {
        if c.is("function_call") {
            match extract_lua_require(&c) {
                Some(made) => {
                    emit(out, with_line(made, c.start_line()));
                    None
                },
                None => Some(c),
            }
        } else {
            Some(c)
        }
    }
}

} // verus!
