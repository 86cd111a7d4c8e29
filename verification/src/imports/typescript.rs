//! TypeScript and JavaScript: `import`, `import(..)`, `export .. from`, `require(..)`.

use vstd::prelude::*;

use crate::lists::{emit, group_lists, none, push_some, some_seq};
use crate::nodes::{
    field_content, field_text, field_txt, field_unquoted, first, first_child, has_child,
    string_content, unquoted,
};
use crate::text::own;
use crate::tree::{group_tree, same, Node};
use crate::types::{import, import_info, on_line, with_line, Import, ImportInfo};
use crate::walk::{
    find_child, find_last_child, fold, folded, found, last_found, pick_all, pick_into, picked,
    Fold, Picker, Test, Walker,
};

verus! {

broadcast use {group_tree, group_lists};

/// What a call is made with: neither punctuation nor comments.
pub struct Argument;

impl Test for Argument {
    open spec fn accepts(&self, c: Node<'_>) -> bool {
        c.facts().named && !c.isa("comment")
    }

    fn test(&self, c: Node<'_>) -> (res: bool) {
        c.is_named() && !c.is("comment")
    }
}

/// The one argument in an argument list.
pub open spec fn only_argument<'a>(args: Node<'a>) -> Option<Node<'a>> {
    match (found(&Argument, args), last_found(&Argument, args)) {
        (Some(c), Some(last)) if c.index() == last.index() => Some(c),
        _ => None,
    }
}

fn find_only_argument<'a>(args: &Node<'a>) -> (res: Option<Node<'a>>)
    ensures
        res == only_argument(*args),
{
    match (find_child(&Argument, *args), find_last_child(&Argument, *args)) {
        (Some(c), Some(last)) => if c.id() == last.id() {
            Some(c)
        } else {
            None
        },
        _ => None,
    }
}

/// The module that a literal names: that in a string, or in a template without
/// substitutions.
pub open spec fn literal_module(n: Node<'_>) -> Option<Seq<char>> {
    if (n.isa("string") || (n.isa("template_string") && first(n, "template_substitution") is None))
        && unquoted(n.txt()).len() > 0 {
        Some(unquoted(n.txt()))
    } else {
        None
    }
}

fn find_literal_module(n: &Node<'_>) -> (res: Option<String>)
    ensures
        res.deep_view() == literal_module(*n),
{
    if n.is("string") || (n.is("template_string") && !has_child(n, "template_substitution")) {
        let module = string_content(n);
        if !module.as_str().is_empty() {
            return Some(module);
        }
    }
    None
}

/// The argument list of a call.
pub open spec fn argument_list<'a>(n: Node<'a>) -> Option<Node<'a>> {
    match n.at("arguments") {
        Some(args) if args.isa("arguments") => Some(args),
        _ => None,
    }
}

fn find_argument_list<'a>(n: &Node<'a>) -> (res: Option<Node<'a>>)
    ensures
        res == argument_list(*n),
{
    match n.child_by_field_name("arguments") {
        Some(args) => if args.is("arguments") {
            Some(args)
        } else {
            None
        },
        None => None,
    }
}

/// The module that `require` is called with, where its only argument is a
/// literal.
pub open spec fn required_module(n: Node<'_>) -> Option<Seq<char>> {
    match (n.at("function"), argument_list(n)) {
        (Some(f), Some(args)) if f.isa("identifier") && f.txt() == "require"@ => match only_argument(
            args,
        ) {
            Some(c) => literal_module(c),
            None => None,
        },
        _ => None,
    }
}

/// The import that a call of `require` makes. Its line is not set.
pub open spec fn cjs_require(n: Node<'_>) -> Option<Import> {
    match required_module(n) {
        Some(module) => Some(import(module, Seq::empty(), Some(true), None, 0)),
        None => None,
    }
}

/// The import that a call of `require` makes. Its line is not set.
pub fn parse_cjs_require(n: &Node<'_>) -> (res: Option<ImportInfo>)
    ensures
        res.deep_view() == cjs_require(*n),
{
    let function = match n.child_by_field_name("function") {
        Some(f) => f,
        None => return None,
    };
    if !function.is("identifier") || !same(function.text(), "require") {
        return None;
    }
    let args = match find_argument_list(n) {
        Some(args) => args,
        None => return None,
    };
    let argument = match find_only_argument(&args) {
        Some(c) => c,
        None => return None,
    };
    match find_literal_module(&argument) {
        Some(module) => Some(import_info(module, none(), Some(true), None, 0)),
        None => None,
    }
}

/// The module that `import(..)` loads, where its first argument is a literal.
pub open spec fn loaded_module(n: Node<'_>) -> Option<Seq<char>> {
    match (n.at("function"), argument_list(n)) {
        (Some(f), Some(args)) if f.isa("import") => match found(&Argument, args) {
            Some(c) => literal_module(c),
            None => None,
        },
        _ => None,
    }
}

/// The import that a call of `import` makes. Its line is not set.
pub open spec fn dynamic_import(n: Node<'_>) -> Option<Import> {
    match loaded_module(n) {
        Some(module) => Some(import(module, Seq::empty(), Some(true), None, 0)),
        None => None,
    }
}

/// The import that a call of `import` makes. Its line is not set.
pub fn parse_dynamic_import(n: &Node<'_>) -> (res: Option<ImportInfo>)
    ensures
        res.deep_view() == dynamic_import(*n),
{
    let function = match n.child_by_field_name("function") {
        Some(f) => f,
        None => return None,
    };
    if !function.is("import") {
        return None;
    }
    let args = match find_argument_list(n) {
        Some(args) => args,
        None => return None,
    };
    let argument = match find_child(&Argument, args) {
        Some(c) => c,
        None => return None,
    };
    match find_literal_module(&argument) {
        Some(module) => Some(import_info(module, none(), Some(true), None, 0)),
        None => None,
    }
}

/// The imports that a call makes.
pub open spec fn call_imports(n: Node<'_>) -> Seq<Import> {
    match (cjs_require(n), dynamic_import(n)) {
        (Some(made), _) => seq![on_line(made, n.top())],
        (None, Some(made)) => seq![on_line(made, n.top())],
        (None, None) => Seq::empty(),
    }
}

fn add_call_imports(n: &Node<'_>, out: &mut Vec<ImportInfo>)
    ensures
        final(out).deep_view() == old(out).deep_view() + call_imports(*n),
{
    match parse_cjs_require(n) {
        Some(made) => emit(out, with_line(made, n.start_line())),
        None => match parse_dynamic_import(n) {
            Some(made) => emit(out, with_line(made, n.start_line())),
            None => {},
        },
    }
}

/// The names that `{ a, b as c }` takes from a module.
pub struct Specifiers;

impl Picker for Specifiers {
    type Item = String;

    open spec fn picks(&self, c: Node<'_>) -> Seq<Seq<char>> {
        if c.isa("import_specifier") {
            some_seq(field_txt(c, "name"))
        } else {
            Seq::empty()
        }
    }

    fn pick(&self, c: Node<'_>, out: &mut Vec<String>) {
        if c.is("import_specifier") {
            push_some(out, field_text(&c, "name"));
        }
    }
}

/// The names of an import clause.
pub struct ClauseNames;

impl Picker for ClauseNames {
    type Item = String;

    open spec fn picks(&self, c: Node<'_>) -> Seq<Seq<char>> {
        if c.isa("identifier") {
            seq![c.txt()]
        } else if c.isa("named_imports") {
            picked(&Specifiers, c)
        } else if c.isa("namespace_import") {
            seq!["*"@] + match first(c, "identifier") {
                Some(id) => seq![id.txt()],
                None => Seq::empty(),
            }
        } else {
            Seq::empty()
        }
    }

    fn pick(&self, c: Node<'_>, out: &mut Vec<String>) {
        if c.is("identifier") {
            emit(out, own(c.text()));
        } else if c.is("named_imports") {
            pick_into(&Specifiers, c, out);
        } else if c.is("namespace_import") {
            emit(out, own("*"));
            match first_child(&c, "identifier") {
                Some(id) => emit(out, own(id.text())),
                None => {},
            }
        }
    }
}

/// Whether an import clause names a default import that no namespace follows.
pub struct IsDefault;

impl Fold for IsDefault {
    type State = bool;

    open spec fn step(&self, s: bool, c: Node<'_>) -> bool {
        if c.isa("identifier") {
            true
        } else if c.isa("namespace_import") && first(c, "identifier") is Some {
            false
        } else {
            s
        }
    }

    fn next(&self, s: bool, c: Node<'_>) -> (res: bool) {
        if c.is("identifier") {
            true
        } else if c.is("namespace_import") && has_child(&c, "identifier") {
            false
        } else {
            s
        }
    }
}

/// The import that an `import` statement makes.
pub open spec fn statement_import(n: Node<'_>) -> Import {
    match first(n, "import_clause") {
        Some(clause) => import(
            field_unquoted(n, "source"),
            picked(&ClauseNames, clause),
            Some(!folded(&IsDefault, false, clause)),
            None,
            n.top(),
        ),
        None => import(field_unquoted(n, "source"), Seq::empty(), Some(true), None, n.top()),
    }
}

fn parse_import_statement(n: &Node<'_>) -> (res: ImportInfo)
    ensures
        res.deep_view() == statement_import(*n),
{
    let module = field_content(n, "source");
    match first_child(n, "import_clause") {
        Some(clause) => {
            let names = pick_all(&ClauseNames, clause);
            let is_default: bool = fold(&IsDefault, false, clause);
            import_info(module, names, Some(!is_default), None, n.start_line())
        },
        None => import_info(module, none(), Some(true), None, n.start_line()),
    }
}

/// All imports of a file.
pub struct Imports;

impl Walker for Imports {
    type Item = ImportInfo;

    open spec fn yields(&self, c: Node<'_>) -> Seq<Import> {
        if c.isa("call_expression") {
            call_imports(c)
        } else if c.isa("import_statement") {
            seq![statement_import(c)]
        } else if c.isa("export_statement") {
            match c.at("source") {
                Some(s) => seq![
                    import(unquoted(s.txt()), Seq::empty(), Some(true), None, c.top()),
                ],
                None => Seq::empty(),
            }
        } else {
            Seq::empty()
        }
    }

    open spec fn enters<'a>(&self, c: Node<'a>) -> Option<Node<'a>> {
        if c.isa("import_statement") || c.isa("export_statement") {
            None
        } else {
            Some(c)
        }
    }

    fn visit<'a>(&self, c: Node<'a>, out: &mut Vec<ImportInfo>) -> (res: Option<Node<'a>>) {
        if c.is("call_expression") {
            add_call_imports(&c, out);
        } else if c.is("import_statement") {
            emit(out, parse_import_statement(&c));
        } else if c.is("export_statement") {
            match c.child_by_field_name("source") {
                Some(s) => emit(
                    out,
                    import_info(string_content(&s), none(), Some(true), None, c.start_line()),
                ),
                None => {},
            }
        }
        if c.is("import_statement") || c.is("export_statement") {
            None
        } else {
            Some(c)
        }
    }
}

} // verus!
