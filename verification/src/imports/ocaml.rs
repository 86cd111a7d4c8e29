//! OCaml: opened and copied-in modules, module aliases, qualified names.

use vstd::prelude::*;

use crate::lists::{emit, group_lists, none, one, push_some, some_seq};
use crate::nodes::{first, first_child, lemma_first_rank};
use crate::text::{join, joined, own};
use crate::tree::{group_tree, Node};
use crate::types::{import, import_info, Import, ImportInfo};
use crate::walk::{fold, folded, pick_into, picked, Fold, Picker, Walker};

verus! {

broadcast use {group_tree, group_lists, lemma_first_rank};

/// The module path that a `module_path` node spells, its parts joined by dots.
pub open spec fn module_text(n: Node<'_>) -> Seq<char>
    decreases n.rank(), n.arity() + 1,
{
    let parts = module_parts(n, n.arity());
    if parts.len() == 0 {
        n.txt()
    } else {
        joined(parts, "."@)
    }
}

/// The parts of a module path among the first `k` children.
pub open spec fn module_parts(n: Node<'_>, k: nat) -> Seq<Seq<char>>
    decreases n.rank(), k,
{
    if k == 0 || k > n.arity() {
        Seq::empty()
    } else {
        let c = n.kid(k - 1);
        module_parts(n, (k - 1) as nat) + if c.isa("module_name") {
            seq![c.txt()]
        } else if c.isa("module_path") {
            seq![module_text(c)]
        } else {
            Seq::empty()
        }
    }
}

/// The module path that a `module_path` node spells.
pub fn extract_ocaml_module_path_text(n: &Node<'_>) -> (res: String)
    ensures
        res@ == module_text(*n),
    decreases n.rank(),
{
    let mut parts: Vec<String> = none();
    let count: usize = n.child_count();
    let mut i: usize = 0;
    while i < count
        invariant
            count == n.arity(),
            i <= count,
            parts.deep_view() == module_parts(*n, i as nat),
        decreases count - i,
    {
        let c = n.child(i);
        if c.is("module_name") {
            emit(&mut parts, own(c.text()));
        } else if c.is("module_path") {
            emit(&mut parts, extract_ocaml_module_path_text(&c));
        }
        i += 1;
    }
    if parts.len() == 0 {
        own(n.text())
    } else {
        join(&parts, ".")
    }
}

/// The module path that the first `module_path` child spells.
pub open spec fn child_module_path(n: Node<'_>) -> Option<Seq<char>> {
    match first(n, "module_path") {
        Some(c) => Some(module_text(c)),
        None => None,
    }
}

fn extract_ocaml_module_path(n: &Node<'_>) -> (res: Option<String>)
    ensures
        res.deep_view() == child_module_path(*n),
{
    match first_child(n, "module_path") {
        Some(c) => Some(extract_ocaml_module_path_text(&c)),
        None => None,
    }
}

/// The module that qualifies a path.
pub open spec fn path_qualifier(n: Node<'_>) -> Option<Seq<char>> {
    match n.named_from(0, 0) {
        Some(c) if c.isa("module_path") => Some(module_text(c)),
        _ => None,
    }
}

fn extract_ocaml_path_qualifier(n: &Node<'_>) -> (res: Option<String>)
    ensures
        res.deep_view() == path_qualifier(*n),
{
    match n.named_child(0) {
        Some(c) => if c.is("module_path") {
            Some(extract_ocaml_module_path_text(&c))
        } else {
            None
        },
        None => None,
    }
}

/// The name at the end of a path: the last named child that is no module path.
pub struct PathLeaf;

impl Fold for PathLeaf {
    type State = Option<String>;

    open spec fn step(&self, s: Option<Seq<char>>, c: Node<'_>) -> Option<Seq<char>> {
        if c.facts().named && !c.isa("module_path") {
            Some(c.txt())
        } else {
            s
        }
    }

    fn next(&self, s: Option<String>, c: Node<'_>) -> (res: Option<String>) {
        if c.is_named() && !c.is("module_path") {
            Some(own(c.text()))
        } else {
            s
        }
    }
}

/// The import that a qualified name makes.
pub open spec fn path_import(n: Node<'_>) -> Option<Import> {
    match path_qualifier(n) {
        Some(module) => Some(
            import(
                module,
                some_seq(folded(&PathLeaf, None, n)),
                Some(false),
                None,
                n.top(),
            ),
        ),
        None => None,
    }
}

fn parse_path(n: &Node<'_>) -> (res: Option<ImportInfo>)
    ensures
        res.deep_view() == path_import(*n),
{
    match extract_ocaml_path_qualifier(n) {
        Some(module) => {
            let mut names: Vec<String> = none();
            push_some(&mut names, fold(&PathLeaf, None, *n));
            Some(import_info(module, names, Some(false), None, n.start_line()))
        },
        None => None,
    }
}

/// The name that a module binding gives, and the module that it gives it to.
pub struct BindingParts;

impl Fold for BindingParts {
    type State = (Option<String>, Option<String>);

    open spec fn step(&self, s: (Option<Seq<char>>, Option<Seq<char>>), c: Node<'_>) -> (
        Option<Seq<char>>,
        Option<Seq<char>>,
    ) {
        if c.isa("module_name") && s.0 is None {
            (Some(c.txt()), s.1)
        } else if c.isa("module_path") {
            (s.0, Some(module_text(c)))
        } else {
            s
        }
    }

    fn next(&self, s: (Option<String>, Option<String>), c: Node<'_>) -> (res: (
        Option<String>,
        Option<String>,
    )) {
        let ghost before = s.deep_view();
        let (alias, target) = s;
        assert(before == (alias.deep_view(), target.deep_view()));
        if c.is("module_name") && alias.is_none() {
            (Some(own(c.text())), target)
        } else if c.is("module_path") {
            (alias, Some(extract_ocaml_module_path_text(&c)))
        } else {
            (alias, target)
        }
    }
}

/// The aliases that a module definition makes.
pub struct Bindings {
    pub line: u32,
}

impl Picker for Bindings {
    type Item = ImportInfo;

    open spec fn picks(&self, c: Node<'_>) -> Seq<Import> {
        if c.isa("module_binding") {
            let parts = folded(&BindingParts, (None, None), c);
            match parts.1 {
                Some(target) => seq![
                    import(target, Seq::empty(), Some(false), parts.0, self.line),
                ],
                None => Seq::empty(),
            }
        } else {
            Seq::empty()
        }
    }

    fn pick(&self, c: Node<'_>, out: &mut Vec<ImportInfo>) {
        if c.is("module_binding") {
            let start: (Option<String>, Option<String>) = (None, None);
            assert(start.deep_view() == (None::<Seq<char>>, None::<Seq<char>>));
            let parts = fold(&BindingParts, start, c);
            assert(parts.deep_view() == (parts.0.deep_view(), parts.1.deep_view()));
            match parts.1 {
                Some(target) => emit(
                    out,
                    import_info(target, none(), Some(false), parts.0, self.line),
                ),
                None => {},
            }
        }
    }
}

/// The import that makes all names of a module known.
pub open spec fn whole_module(n: Node<'_>) -> Seq<Import> {
    match child_module_path(n) {
        Some(module) => seq![import(module, seq!["*"@], Some(true), None, n.top())],
        None => Seq::empty(),
    }
}

fn parse_whole_module(n: &Node<'_>, out: &mut Vec<ImportInfo>)
    ensures
        final(out).deep_view() == old(out).deep_view() + whole_module(*n),
{
    match extract_ocaml_module_path(n) {
        Some(module) => emit(
            out,
            import_info(module, one(own("*")), Some(true), None, n.start_line()),
        ),
        None => {},
    }
}

/// All imports of a file.
pub struct Imports;

impl Walker for Imports {
    type Item = ImportInfo;

    open spec fn yields(&self, c: Node<'_>) -> Seq<Import> {
        if c.isa("open_module") || c.isa("include_module") {
            whole_module(c)
        } else if c.isa("module_definition") {
            picked(&Bindings { line: c.top() }, c)
        } else if c.isa("value_path") || c.isa("constructor_path") || c.isa(
            "type_constructor_path",
        ) || c.isa("field_path") {
            some_seq(path_import(c))
        } else {
            Seq::empty()
        }
    }

    open spec fn enters<'a>(&self, c: Node<'a>) -> Option<Node<'a>> {
        if c.isa("open_module") || c.isa("include_module") {
            None
        } else if c.isa("module_definition") {
            Some(c)
        } else if c.isa("value_path") || c.isa("constructor_path") || c.isa(
            "type_constructor_path",
        ) || c.isa("field_path") {
            None
        } else {
            Some(c)
        }
    }

    fn visit<'a>(&self, c: Node<'a>, out: &mut Vec<ImportInfo>) -> (res: Option<Node<'a>>) {
        if c.is("open_module") || c.is("include_module") {
            parse_whole_module(&c, out);
            None
        } else if c.is("module_definition") {
            pick_into(&Bindings { line: c.start_line() }, c, out);
            Some(c)
        } else if c.is("value_path") || c.is("constructor_path") || c.is("type_constructor_path")
            || c.is("field_path") {
            push_some(out, parse_path(&c));
            None
        } else {
            Some(c)
        }
    }
}

} // verus!
