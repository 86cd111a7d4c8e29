//! PHP: `use` declarations, and expressions that load another file.

use vstd::prelude::*;
use vstd::string::StrSliceExecFns;

use crate::lists::{emit, extend, group_lists, none};
use crate::nodes::{first, has_child};
use crate::text::{
    begins, chars_of, concat3, contains, find, has, own, place, starts_with, strip, strip_back,
    strip_front, stripped, stripped_back, stripped_front, trim, trimmed,
};
use crate::tree::{group_tree, Node};
use crate::types::{import, import_info, on_line, with_line, Import, ImportInfo};
use crate::walk::{find_child, fold, folded, found, pick_into, picked, Fold, Picker, Test, Walker};

verus! {

broadcast use {group_tree, group_lists};

/// Whether ` as `, in letters of either case, stands at position `i`.
pub open spec fn as_at(s: Seq<char>, i: int) -> bool {
    &&& 0 <= i && i + 4 <= s.len()
    &&& s[i] == ' '
    &&& s[i + 1] == 'a' || s[i + 1] == 'A'
    &&& s[i + 2] == 's' || s[i + 2] == 'S'
    &&& s[i + 3] == ' '
}

/// The first position at or behind `i` at which ` as ` stands.
pub open spec fn as_from(s: Seq<char>, i: int) -> Option<int>
    decreases s.len() - i,
{
    if i < 0 || i >= s.len() {
        None
    } else if as_at(s, i) {
        Some(i)
    } else {
        as_from(s, i + 1)
    }
}

/// The module of a use clause, and the alias behind its ` as `.
pub open spec fn use_alias(clause: Seq<char>) -> (Seq<char>, Option<Seq<char>>) {
    match as_from(clause, 0) {
        Some(k) => (trimmed(clause.take(k)), Some(trimmed(clause.skip(k + 4)))),
        None => (clause, None),
    }
}

/// The module of a use clause, and the alias behind its ` as `.
pub fn parse_php_use_alias(clause: &str) -> (res: (String, Option<String>))
    ensures
        res.deep_view() == use_alias(clause@),
{
    let cs: Vec<char> = chars_of(clause);
    let n: usize = cs.len();
    let mut i: usize = 0;
    while i < n
        invariant
            n == cs.len(),
            cs@ == clause@,
            i <= n,
            as_from(clause@, 0) == as_from(clause@, i as int),
        decreases n - i,
    {
        if n - i >= 4 && cs[i] == ' ' && (cs[i + 1] == 'a' || cs[i + 1] == 'A') && (cs[i + 2] == 's'
            || cs[i + 2] == 'S') && cs[i + 3] == ' ' {
            assert(as_at(clause@, i as int));
            let module = own(trim(clause.substring_char(0, i)));
            let rest: &str = clause.substring_char(i + 4, n);
            assert(rest@ =~= clause@.skip(i + 4));
            return (module, Some(own(trim(rest))));
        }
        i += 1;
    }
    (own(clause), None)
}

/// `prefix\name`, or `name` where there is no prefix.
pub open spec fn namespaced(prefix: Seq<char>, name: Seq<char>) -> Seq<char> {
    if prefix.len() == 0 {
        name
    } else {
        prefix + "\\"@ + name
    }
}

/// The import that a clause below a namespace makes.
pub open spec fn clause_import(c: Node<'_>, prefix: Seq<char>, line: u32) -> Seq<Import> {
    if c.isa("namespace_use_clause") {
        let parts = use_alias(trimmed(c.txt()));
        seq![import(namespaced(prefix, parts.0), Seq::empty(), Some(true), parts.1, line)]
    } else {
        Seq::empty()
    }
}

fn parse_clause(c: &Node<'_>, prefix: &str, line: u32, out: &mut Vec<ImportInfo>)
    ensures
        final(out).deep_view() == old(out).deep_view() + clause_import(*c, prefix@, line),
{
    if c.is("namespace_use_clause") {
        let parts = parse_php_use_alias(trim(c.text()));
        assert(parts.deep_view() == (parts.0@, parts.1.deep_view()));
        let (name, alias) = parts;
        let module = if prefix.is_empty() {
            name
        } else {
            concat3(prefix, "\\", name.as_str())
        };
        emit(out, import_info(module, none(), Some(true), alias, line));
    }
}

/// The imports that the first `k` children of a group make.
pub open spec fn group_imports(n: Node<'_>, prefix: Seq<char>, line: u32, k: nat) -> Seq<Import>
    decreases k,
{
    if k == 0 {
        Seq::empty()
    } else {
        group_imports(n, prefix, line, (k - 1) as nat) + clause_import(n.kid(k - 1), prefix, line)
    }
}

fn parse_group(n: &Node<'_>, prefix: &str, line: u32, out: &mut Vec<ImportInfo>)
    ensures
        final(out).deep_view() == old(out).deep_view() + group_imports(
            *n,
            prefix@,
            line,
            n.arity(),
        ),
{
    let count: usize = n.child_count();
    let ghost start = out.deep_view();
    let mut i: usize = 0;
    while i < count
        invariant
            count == n.arity(),
            i <= count,
            out.deep_view() == start + group_imports(*n, prefix@, line, i as nat),
        decreases count - i,
    {
        let c = n.child(i);
        let ghost before = group_imports(*n, prefix@, line, i as nat);
        parse_clause(&c, prefix, line, out);
        assert(start + before + clause_import(c, prefix@, line) =~= start + (before + clause_import(
            c,
            prefix@,
            line,
        )));
        i += 1;
    }
}

/// The namespace before the groups of a declaration, and their imports.
pub struct Groups {
    pub line: u32,
}

impl Fold for Groups {
    type State = (String, Vec<ImportInfo>);

    open spec fn step(&self, s: (Seq<char>, Seq<Import>), c: Node<'_>) -> (Seq<char>, Seq<Import>) {
        if c.isa("namespace_name") || c.isa("qualified_name") || c.isa("name") {
            (c.txt(), s.1)
        } else if c.isa("namespace_use_group") {
            (s.0, s.1 + group_imports(c, s.0, self.line, c.arity()))
        } else {
            s
        }
    }

    fn next(&self, s: (String, Vec<ImportInfo>), c: Node<'_>) -> (res: (String, Vec<ImportInfo>)) {
        let ghost before = s.deep_view();
        let (prefix, made) = s;
        assert(before == (prefix@, made.deep_view()));
        let mut made = made;
        if c.is("namespace_name") || c.is("qualified_name") || c.is("name") {
            (own(c.text()), made)
        } else if c.is("namespace_use_group") {
            parse_group(&c, prefix.as_str(), self.line, &mut made);
            (prefix, made)
        } else {
            (prefix, made)
        }
    }
}

/// The imports that a use declaration makes.
pub open spec fn declaration_imports(n: Node<'_>) -> Seq<Import> {
    if first(n, "namespace_use_group") is Some {
        folded(&Groups { line: n.top() }, (Seq::empty(), Seq::empty()), n).1
    } else {
        group_imports(n, Seq::empty(), n.top(), n.arity())
    }
}

fn extract_php_use_declaration(n: &Node<'_>, out: &mut Vec<ImportInfo>)
    ensures
        final(out).deep_view() == old(out).deep_view() + declaration_imports(*n),
{
    let line: u32 = n.start_line();
    let nothing = String::new();
    if has_child(n, "namespace_use_group") {
        let start: (String, Vec<ImportInfo>) = (nothing, none());
        assert(start.deep_view() == (Seq::<char>::empty(), Seq::<Import>::empty()));
        let parts = fold(&Groups { line }, start, *n);
        assert(parts.deep_view() == (parts.0@, parts.1.deep_view()));
        extend(out, parts.1);
    } else {
        parse_group(n, nothing.as_str(), line, out);
    }
}

/// Strings with either sort of quotes.
pub struct Quoted;

impl Test for Quoted {
    open spec fn accepts(&self, c: Node<'_>) -> bool {
        c.isa("string") || c.isa("encapsed_string")
    }

    fn test(&self, c: Node<'_>) -> (res: bool) {
        c.is("string") || c.is("encapsed_string")
    }
}

/// What can name the file that is loaded.
pub struct FileName;

impl Test for FileName {
    open spec fn accepts(&self, c: Node<'_>) -> bool {
        Quoted.accepts(c) || c.isa("binary_expression") || c.isa("parenthesized_expression")
    }

    fn test(&self, c: Node<'_>) -> (res: bool) {
        Quoted.test(c) || c.is("binary_expression") || c.is("parenthesized_expression")
    }
}

/// The text without the quotes around it.
pub open spec fn bare(s: Seq<char>) -> Seq<char> {
    stripped(s, "\"'"@)
}

/// The file that an expression names: the content of a string, also in
/// parentheses, or else the expression as it stands.
pub open spec fn named_file(n: Node<'_>) -> Seq<char> {
    match found(&FileName, n) {
        Some(c) => if Quoted.accepts(c) {
            bare(c.txt())
        } else if c.isa("binary_expression") {
            c.txt()
        } else {
            match found(&Quoted, c) {
                Some(s) if bare(s.txt()).len() > 0 => bare(s.txt()),
                _ => c.txt(),
            }
        },
        None => Seq::empty(),
    }
}

fn find_named_file(n: &Node<'_>) -> (res: String)
    ensures
        res@ == named_file(*n),
{
    match find_child(&FileName, *n) {
        Some(c) => if Quoted.test(c) {
            own(strip(c.text(), "\"'"))
        } else if c.is("binary_expression") {
            own(c.text())
        } else {
            match find_child(&Quoted, c) {
                Some(s) => {
                    let file: &str = strip(s.text(), "\"'");
                    if file.is_empty() {
                        own(c.text())
                    } else {
                        own(file)
                    }
                },
                None => own(c.text()),
            }
        },
        None => String::new(),
    }
}

/// What stands behind `word` in the text, without parentheses and quotes.
pub open spec fn file_behind(text: Seq<char>, word: Seq<char>) -> Seq<char> {
    match place(text, word) {
        Some(k) => stripped(
            stripped_back(stripped_front(trimmed(text.skip(k + word.len())), "( "@), "); "@),
            "\"'"@,
        ),
        None => Seq::empty(),
    }
}

fn find_file_behind(text: &str, word: &str) -> (res: String)
    ensures
        res@ == file_behind(text@, word@),
{
    match find(text, word) {
        Some(k) => {
            let n: usize = text.unicode_len();
            let from: usize = k + word.unicode_len();
            let rest: &str = text.substring_char(from, n);
            assert(rest@ =~= text@.skip(k + word@.len()));
            own(strip(strip_back(strip_front(trim(rest), "( "), "); "), "\"'"))
        },
        None => String::new(),
    }
}

/// The file that an expression names, read from its text.
pub open spec fn file_in_text(text: Seq<char>) -> Seq<char> {
    if file_behind(text, "require_once"@).len() > 0 {
        file_behind(text, "require_once"@)
    } else if file_behind(text, "require"@).len() > 0 {
        file_behind(text, "require"@)
    } else if file_behind(text, "include_once"@).len() > 0 {
        file_behind(text, "include_once"@)
    } else {
        file_behind(text, "include"@)
    }
}

fn find_file_in_text(text: &str) -> (res: String)
    ensures
        res@ == file_in_text(text@),
{
    let file = find_file_behind(text, "require_once");
    if !file.as_str().is_empty() {
        return file;
    }
    let file = find_file_behind(text, "require");
    if !file.as_str().is_empty() {
        return file;
    }
    let file = find_file_behind(text, "include_once");
    if !file.as_str().is_empty() {
        return file;
    }
    find_file_behind(text, "include")
}

/// The import that an expression makes which loads another file. It is marked
/// `Some(true)` where the file must be there, and has the alias `once` where
/// the file is loaded one time only.
pub open spec fn loaded_file(n: Node<'_>) -> Option<Import> {
    let file = if named_file(n).len() > 0 {
        named_file(n)
    } else {
        file_in_text(n.txt())
    };
    if file.len() == 0 {
        None
    } else {
        Some(
            import(
                file,
                Seq::empty(),
                Some(begins(n.tag(), "require"@)),
                if has(n.tag(), "_once"@) {
                    Some("once"@)
                } else {
                    None
                },
                0,
            ),
        )
    }
}

/// The import that an expression makes which loads another file.
pub fn extract_php_require_include(n: &Node<'_>) -> (res: Option<ImportInfo>)
    ensures
        res.deep_view() == loaded_file(*n),
{
    let named = find_named_file(n);
    let file = if !named.as_str().is_empty() {
        named
    } else {
        find_file_in_text(n.text())
    };
    if file.as_str().is_empty() {
        return None;
    }
    let alias = if contains(n.kind(), "_once") {
        Some(own("once"))
    } else {
        None
    };
    Some(import_info(file, none(), Some(starts_with(n.kind(), "require")), alias, 0))
}

/// The expressions that load another file.
pub struct Loads;

impl Test for Loads {
    open spec fn accepts(&self, c: Node<'_>) -> bool {
        c.isa("require_expression") || c.isa("require_once_expression") || c.isa(
            "include_expression",
        ) || c.isa("include_once_expression")
    }

    fn test(&self, c: Node<'_>) -> (res: bool) {
        c.is("require_expression") || c.is("require_once_expression") || c.is("include_expression")
            || c.is("include_once_expression")
    }
}

/// The import of an expression that loads another file, on the given line.
pub open spec fn loaded_on(c: Node<'_>, line: u32) -> Seq<Import> {
    match loaded_file(c) {
        Some(made) => seq![on_line(made, line)],
        None => Seq::empty(),
    }
}

fn load_on(c: &Node<'_>, line: u32, out: &mut Vec<ImportInfo>)
    ensures
        final(out).deep_view() == old(out).deep_view() + loaded_on(*c, line),
{
    match extract_php_require_include(c) {
        Some(made) => emit(out, with_line(made, line)),
        None => {},
    }
}

/// The files that an expression statement loads.
pub struct StatementLoads {
    pub line: u32,
}

impl Picker for StatementLoads {
    type Item = ImportInfo;

    open spec fn picks(&self, c: Node<'_>) -> Seq<Import> {
        if Loads.accepts(c) {
            loaded_on(c, self.line)
        } else {
            Seq::empty()
        }
    }

    fn pick(&self, c: Node<'_>, out: &mut Vec<ImportInfo>) {
        if Loads.test(c) {
            load_on(&c, self.line, out);
        }
    }
}

/// All imports of a file.
pub struct Imports;

impl Walker for Imports {
    type Item = ImportInfo;

    open spec fn yields(&self, c: Node<'_>) -> Seq<Import> {
        if c.isa("namespace_use_declaration") {
            declaration_imports(c)
        } else if c.isa("expression_statement") {
            picked(&StatementLoads { line: c.top() }, c)
        } else if Loads.accepts(c) {
            loaded_on(c, c.top())
        } else {
            Seq::empty()
        }
    }

    open spec fn enters<'a>(&self, c: Node<'a>) -> Option<Node<'a>> {
        if c.isa("namespace_use_declaration") || c.isa("expression_statement") || Loads.accepts(c) {
            None
        } else {
            Some(c)
        }
    }

    fn visit<'a>(&self, c: Node<'a>, out: &mut Vec<ImportInfo>) -> (res: Option<Node<'a>>) {
        if c.is("namespace_use_declaration") {
            extract_php_use_declaration(&c, out);
            None
        } else if c.is("expression_statement") {
            pick_into(&StatementLoads { line: c.start_line() }, c, out);
            None
        } else if Loads.test(c) {
            load_on(&c, c.start_line(), out);
            None
        } else {
            Some(c)
        }
    }
}

} // verus!
