//! Rust: `use`, `mod` and crate declarations.

use vstd::prelude::*;
use vstd::string::StrSliceExecFns;

use crate::lists::{emit, group_lists, none, one, push};
use crate::nodes::{field_text, field_txt};
use crate::text::{
    ahead_all, concat3, find, join, joined, own, pieces, place, split, strip, stripped, trim,
    trimmed, without_suffixes,
};
use crate::tree::{group_tree, Node};
use crate::types::{import, import_info, Import, ImportInfo};
use crate::walk::{find_child, found, Test, Walker};

verus! {

broadcast use {group_tree, group_lists};

/// `prefix::path`, or `path` where there is no prefix.
pub open spec fn scoped(prefix: Seq<char>, path: Seq<char>) -> Seq<char> {
    if prefix.len() == 0 {
        path
    } else {
        prefix + "::"@ + path
    }
}

fn scoped_path(prefix: &str, path: &str) -> (res: String)
    ensures
        res@ == scoped(prefix@, path@),
{
    if prefix.is_empty() {
        own(path)
    } else {
        concat3(prefix, "::", path)
    }
}

/// The module and the name of a path: what stands before its last `::`, and
/// what stands behind it.
pub open spec fn module_and_name(path: Seq<char>) -> (Seq<char>, Seq<char>) {
    let parts = pieces(path, "::"@);
    if parts.len() > 1 {
        (joined(parts.drop_last(), "::"@), parts.last())
    } else {
        (Seq::empty(), path)
    }
}

fn split_path(path: &str) -> (res: (String, String))
    ensures
        res.deep_view() == module_and_name(path@),
{
    proof {
        reveal_strlit("::");
    }
    let mut parts: Vec<String> = split(path, "::");
    let ghost all = parts.deep_view();
    if parts.len() > 1 {
        match parts.pop() {
            Some(name) => {
                assert(parts.deep_view() =~= all.drop_last());
                (join(&parts, "::"), name)
            },
            None => (String::new(), own(path)),
        }
    } else {
        (String::new(), own(path))
    }
}

/// What the path of a glob import can be made of.
pub struct GlobPath;

impl Test for GlobPath {
    open spec fn accepts(&self, c: Node<'_>) -> bool {
        c.facts().named && (c.isa("scoped_identifier") || c.isa("identifier") || c.isa("self")
            || c.isa("super") || c.isa("crate") || c.isa("metavariable"))
    }

    fn test(&self, c: Node<'_>) -> (res: bool) {
        c.is_named() && (c.is("scoped_identifier") || c.is("identifier") || c.is("self") || c.is(
            "super",
        ) || c.is("crate") || c.is("metavariable"))
    }
}

/// The modules and names that a use tree below `prefix` takes in.
pub open spec fn use_paths(n: Node<'_>, prefix: Seq<char>) -> Seq<(Seq<char>, Seq<char>)>
    decreases n.rank(), n.arity() + 1,
{
    if n.isa("scoped_identifier") || n.isa("identifier") {
        seq![module_and_name(scoped(prefix, n.txt()))]
    } else if n.isa("scoped_use_list") {
        match n.at("path") {
            Some(path) => use_paths_upto(n, scoped(prefix, path.txt()), true, n.arity()),
            None => Seq::empty(),
        }
    } else if n.isa("use_list") {
        use_paths_upto(n, prefix, false, n.arity())
    } else if n.isa("use_as_clause") {
        match n.at("path") {
            Some(path) => use_paths(path, prefix),
            None => Seq::empty(),
        }
    } else if n.isa("use_wildcard") {
        let path = match found(&GlobPath, n) {
            Some(c) => c.txt(),
            None => Seq::empty(),
        };
        let module = if path.len() == 0 {
            prefix
        } else {
            scoped(prefix, path)
        };
        seq![(module, "*"@)]
    } else if n.isa("self") {
        seq![(prefix, "self"@)]
    } else {
        use_paths_upto(n, prefix, false, n.arity())
    }
}

/// What the first `k` children of a use tree take in: all of them, or the
/// lists among them.
pub open spec fn use_paths_upto(n: Node<'_>, prefix: Seq<char>, lists_only: bool, k: nat) -> Seq<
    (Seq<char>, Seq<char>),
>
    decreases n.rank(), k,
{
    if k == 0 || k > n.arity() {
        Seq::empty()
    } else {
        let c = n.kid(k - 1);
        use_paths_upto(n, prefix, lists_only, (k - 1) as nat) + if lists_only && !c.isa(
            "use_list",
        ) {
            Seq::empty()
        } else {
            use_paths(c, prefix)
        }
    }
}

/// Collects the modules and names that a use tree below `prefix` takes in.
pub fn collect_rust_use_paths(n: &Node<'_>, prefix: &str, out: &mut Vec<(String, String)>)
    ensures
        final(out).deep_view() == old(out).deep_view() + use_paths(*n, prefix@),
    decreases n.rank(), 1nat,
{
    if n.is("scoped_identifier") || n.is("identifier") {
        let path = scoped_path(prefix, n.text());
        emit(out, split_path(path.as_str()));
    } else if n.is("scoped_use_list") {
        match n.child_by_field_name("path") {
            Some(path) => {
                let below = scoped_path(prefix, path.text());
                collect_from_children(n, below.as_str(), true, out);
            },
            None => {},
        }
    } else if n.is("use_list") {
        collect_from_children(n, prefix, false, out);
    } else if n.is("use_as_clause") {
        match n.child_by_field_name("path") {
            Some(path) => collect_rust_use_paths(&path, prefix, out),
            None => {},
        }
    } else if n.is("use_wildcard") {
        let path = match find_child(&GlobPath, *n) {
            Some(c) => own(c.text()),
            None => String::new(),
        };
        let module = if path.as_str().is_empty() {
            own(prefix)
        } else {
            scoped_path(prefix, path.as_str())
        };
        emit(out, (module, own("*")));
    } else if n.is("self") {
        emit(out, (own(prefix), own("self")));
    } else {
        collect_from_children(n, prefix, false, out);
    }
}

fn collect_from_children(
    n: &Node<'_>,
    prefix: &str,
    lists_only: bool,
    out: &mut Vec<(String, String)>,
)
    ensures
        final(out).deep_view() == old(out).deep_view() + use_paths_upto(
            *n,
            prefix@,
            lists_only,
            n.arity(),
        ),
    decreases n.rank(), 0nat,
{
    let count: usize = n.child_count();
    let ghost start = out.deep_view();
    let mut i: usize = 0;
    while i < count
        invariant
            count == n.arity(),
            i <= count,
            out.deep_view() == start + use_paths_upto(*n, prefix@, lists_only, i as nat),
        decreases count - i,
    {
        let c = n.child(i);
        if !lists_only || c.is("use_list") {
            collect_rust_use_paths(&c, prefix, out);
        }
        i += 1;
    }
}

/// The name of one member of a brace list, without its alias.
pub open spec fn member_name(s: Seq<char>) -> Seq<char> {
    let t = trimmed(s);
    match place(t, " as "@) {
        Some(k) => trimmed(t.take(k)),
        None => t,
    }
}

/// The names of the members of a brace list that are not empty.
pub open spec fn member_names(parts: Seq<Seq<char>>, k: nat) -> Seq<Seq<char>>
    decreases k,
{
    if k == 0 {
        Seq::empty()
    } else {
        let name = member_name(parts[k - 1]);
        member_names(parts, (k - 1) as nat) + if name.len() > 0 {
            seq![name]
        } else {
            Seq::empty()
        }
    }
}

fn collect_member_names(parts: &Vec<String>) -> (res: Vec<String>)
    ensures
        res.deep_view() == member_names(parts.deep_view(), parts@.len()),
{
    let mut res: Vec<String> = none();
    let mut i: usize = 0;
    while i < parts.len()
        invariant
            i <= parts.len(),
            res.deep_view() == member_names(parts.deep_view(), i as nat),
        decreases parts.len() - i,
    {
        let t: &str = trim(parts[i].as_str());
        let name: &str = match find(t, " as ") {
            Some(k) => trim(t.substring_char(0, k)),
            None => t,
        };
        assert(name@ == member_name(parts.deep_view()[i as int]));
        if !name.is_empty() {
            emit(&mut res, own(name));
        }
        i += 1;
    }
    res
}

/// The module and the names of a use path that is read as text.
pub open spec fn use_text(text: Seq<char>) -> (Seq<char>, Seq<Seq<char>>) {
    match place(text, "{"@) {
        Some(k) => {
            let parts = pieces(stripped(text.skip(k), "{}"@), ","@);
            (ahead_all(text.take(k), "::"@), member_names(parts, parts.len()))
        },
        None => {
            let parts = pieces(text, "::"@);
            if parts.len() > 1 {
                (joined(parts.drop_last(), "::"@), seq![parts.last()])
            } else {
                (text, Seq::empty())
            }
        },
    }
}

/// Reads a use path as text.
pub fn parse_use_text(text: &str) -> (res: (String, Vec<String>))
    ensures
        res.deep_view() == use_text(text@),
{
    proof {
        reveal_strlit("::");
        reveal_strlit(",");
    }
    match find(text, "{") {
        Some(k) => {
            let n: usize = text.unicode_len();
            let module = own(without_suffixes(text.substring_char(0, k), "::"));
            let list: &str = text.substring_char(k, n);
            assert(list@ =~= text@.skip(k as int));
            let parts = split(strip(list, "{}"), ",");
            (module, collect_member_names(&parts))
        },
        None => {
            let parts = split(text, "::");
            if parts.len() > 1 {
                let (module, name) = split_path(text);
                (module, one(name))
            } else {
                (own(text), none())
            }
        },
    }
}

/// The names, without their modules.
pub open spec fn names_of(paths: Seq<(Seq<char>, Seq<char>)>) -> Seq<Seq<char>> {
    Seq::new(paths.len(), |i: int| paths[i].1)
}

/// The module and the names of the argument of a `use`: the module of the
/// first path, and the names of all.
pub open spec fn use_argument(n: Node<'_>) -> (Seq<char>, Seq<Seq<char>>) {
    let paths = use_paths(n, Seq::empty());
    if paths.len() > 0 {
        (paths[0].0, names_of(paths))
    } else {
        use_text(n.txt())
    }
}

/// Reads the argument of a `use`.
pub fn parse_rust_use_path(n: &Node<'_>) -> (res: (String, Vec<String>))
    ensures
        res.deep_view() == use_argument(*n),
{
    let mut paths: Vec<(String, String)> = none();
    let root = String::new();
    collect_rust_use_paths(n, root.as_str(), &mut paths);
    if paths.len() > 0 {
        let module = paths[0].0.clone();
        let mut names: Vec<String> = none();
        let mut i: usize = 0;
        while i < paths.len()
            invariant
                i <= paths.len(),
                names@.len() == i,
                forall|k: int| 0 <= k < i ==> names@[k]@ == paths@[k].1@,
            decreases paths.len() - i,
        {
            names.push(paths[i].1.clone());
            i += 1;
        }
        assert(names.deep_view() =~= names_of(paths.deep_view()));
        (module, names)
    } else {
        parse_use_text(n.text())
    }
}

/// All imports of a file.
pub struct Imports;

impl Walker for Imports {
    type Item = ImportInfo;

    open spec fn yields(&self, c: Node<'_>) -> Seq<Import> {
        if c.isa("use_declaration") {
            match c.at("argument") {
                Some(arg) => seq![
                    import(use_argument(arg).0, use_argument(arg).1, Some(true), None, c.top()),
                ],
                None => Seq::empty(),
            }
        } else if c.isa("mod_item") {
            match field_txt(c, "name") {
                Some(name) if c.at("body") is None => seq![
                    import(name, Seq::empty(), Some(false), None, c.top()),
                ],
                _ => Seq::empty(),
            }
        } else if c.isa("extern_crate_declaration") {
            match field_txt(c, "name") {
                Some(name) => seq![
                    import(name, Seq::empty(), Some(false), field_txt(c, "alias"), c.top()),
                ],
                None => Seq::empty(),
            }
        } else {
            Seq::empty()
        }
    }

    open spec fn enters<'a>(&self, c: Node<'a>) -> Option<Node<'a>> {
        if c.isa("use_declaration") {
            None
        } else if c.isa("mod_item") {
            c.at("body")
        } else if c.isa("extern_crate_declaration") {
            None
        } else {
            Some(c)
        }
    }

    fn visit<'a>(&self, c: Node<'a>, out: &mut Vec<ImportInfo>) -> (res: Option<Node<'a>>) {
        if c.is("use_declaration") {
            match c.child_by_field_name("argument") {
                Some(arg) => {
                    let (module, names) = parse_rust_use_path(&arg);
                    emit(out, import_info(module, names, Some(true), None, c.start_line()));
                },
                None => {},
            }
            None
        } else if c.is("mod_item") {
            let body = c.child_by_field_name("body");
            if body.is_none() {
                match field_text(&c, "name") {
                    Some(name) => emit(
                        out,
                        import_info(name, none(), Some(false), None, c.start_line()),
                    ),
                    None => {},
                }
            }
            body
        } else if c.is("extern_crate_declaration") {
            match field_text(&c, "name") {
                Some(name) => {
                    let alias = field_text(&c, "alias");
                    emit(out, import_info(name, none(), Some(false), alias, c.start_line()));
                },
                None => {},
            }
            None
        } else {
            Some(c)
        }
    }
}

} // verus!
