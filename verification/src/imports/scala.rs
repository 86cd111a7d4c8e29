//! Scala: `import a.b.C`, `import a.b._`, `import a.b.{C, D => E, _}`.

use vstd::prelude::*;
use vstd::string::StrSliceExecFns;

use crate::lists::{emit, group_lists, none, one};
use crate::text::{
    behind_or_all, concat3, contains, ends, ends_with, find, has, own, pieces, place, split,
    strip_back, strip_front, stripped_back, stripped_front, trim, trimmed, without_prefix,
};
use crate::tree::{group_tree, same, Node};
use crate::types::{import, import_info, Import, ImportInfo};
use crate::walk::Walker;

verus! {

broadcast use {group_tree, group_lists};

/// `base.name`, or `name` where there is no base.
pub open spec fn member(base: Seq<char>, name: Seq<char>) -> Seq<char> {
    if base.len() == 0 {
        name
    } else {
        base + "."@ + name
    }
}

fn member_path(base: &str, name: &str) -> (res: String)
    ensures
        res@ == member(base@, name@),
{
    if base.is_empty() {
        own(name)
    } else {
        concat3(base, ".", name)
    }
}

/// The import that one selector between the braces makes.
pub open spec fn selector_import(base: Seq<char>, selector: Seq<char>, line: u32) -> Seq<Import> {
    let s = trimmed(selector);
    let parts = pieces(s, "=>"@);
    if s.len() == 0 {
        Seq::empty()
    } else if has(s, "=>"@) {
        if parts.len() == 2 && trimmed(parts[0]) != "_"@ {
            let alias = trimmed(parts[1]);
            seq![
                import(
                    member(base, trimmed(parts[0])),
                    Seq::empty(),
                    Some(false),
                    if alias == "_"@ {
                        None
                    } else {
                        Some(alias)
                    },
                    line,
                ),
            ]
        } else {
            Seq::empty()
        }
    } else if s == "_"@ {
        seq![import(base, seq!["*"@], Some(true), None, line)]
    } else {
        seq![import(member(base, s), Seq::empty(), Some(false), None, line)]
    }
}

fn parse_selector(base: &str, selector: &str, line: u32, out: &mut Vec<ImportInfo>)
    ensures
        final(out).deep_view() == old(out).deep_view() + selector_import(base@, selector@, line),
{
    proof {
        reveal_strlit("=>");
    }
    let s: &str = trim(selector);
    if s.is_empty() {
        return;
    }
    if contains(s, "=>") {
        let parts = split(s, "=>");
        if parts.len() == 2 {
            assert(parts.deep_view()[0] == parts@[0]@);
            assert(parts.deep_view()[1] == parts@[1]@);
            let member_name: &str = trim(parts[0].as_str());
            let alias: &str = trim(parts[1].as_str());
            if same(member_name, "_") {
                return;
            }
            let shown = if same(alias, "_") {
                None
            } else {
                Some(own(alias))
            };
            emit(
                out,
                import_info(member_path(base, member_name), none(), Some(false), shown, line),
            );
        }
    } else if same(s, "_") {
        emit(out, import_info(own(base), one(own("*")), Some(true), None, line));
    } else {
        emit(out, import_info(member_path(base, s), none(), Some(false), None, line));
    }
}

/// The imports that the first `k` selectors make.
pub open spec fn selector_imports(
    base: Seq<char>,
    selectors: Seq<Seq<char>>,
    line: u32,
    k: nat,
) -> Seq<Import>
    decreases k,
{
    if k == 0 {
        Seq::empty()
    } else {
        selector_imports(base, selectors, line, (k - 1) as nat) + selector_import(
            base,
            selectors[k - 1],
            line,
        )
    }
}

/// The imports that an import clause (what stands behind `import`) makes.
pub open spec fn text_imports(text: Seq<char>, line: u32) -> Seq<Import> {
    match place(text, "{"@) {
        Some(k) => {
            let base = stripped_back(text.take(k), "."@);
            let list = trimmed(stripped_back(stripped_front(text.skip(k), "{"@), "}"@));
            let selectors = pieces(list, ","@);
            selector_imports(base, selectors, line, selectors.len())
        },
        None => if ends(text, "._"@) {
            seq![import(text.take(text.len() - 2), seq!["*"@], Some(true), None, line)]
        } else {
            seq![import(text, Seq::empty(), Some(false), None, line)]
        },
    }
}

/// Reads an import clause (what stands behind `import`).
pub fn parse_scala_import_text(text: &str, out: &mut Vec<ImportInfo>, line: u32)
    ensures
        final(out).deep_view() == old(out).deep_view() + text_imports(text@, line),
{
    proof {
        reveal_strlit(",");
        reveal_strlit("._");
    }
    let n: usize = text.unicode_len();
    match find(text, "{") {
        Some(k) => {
            let base: &str = strip_back(text.substring_char(0, k), ".");
            let list: &str = text.substring_char(k, n);
            assert(list@ =~= text@.skip(k as int));
            let inner: &str = trim(strip_back(strip_front(list, "{"), "}"));
            let selectors = split(inner, ",");
            let ghost all = selectors.deep_view();
            let ghost start = out.deep_view();
            let mut i: usize = 0;
            while i < selectors.len()
                invariant
                    i <= selectors.len(),
                    all == selectors.deep_view(),
                    out.deep_view() == start + selector_imports(base@, all, line, i as nat),
                decreases selectors.len() - i,
            {
                assert(all[i as int] == selectors@[i as int]@);
                let ghost before = selector_imports(base@, all, line, i as nat);
                parse_selector(base, selectors[i].as_str(), line, out);
                assert(start + before + selector_import(base@, all[i as int], line) =~= start + (
                before + selector_import(base@, all[i as int], line)));
                i += 1;
            }
        },
        None => {
            if ends_with(text, "._") {
                let base = own(text.substring_char(0, n - 2));
                emit(out, import_info(base, one(own("*")), Some(true), None, line));
            } else {
                emit(out, import_info(own(text), none(), Some(false), None, line));
            }
        },
    }
}

/// All imports of a file.
pub struct Imports;

impl Walker for Imports {
    type Item = ImportInfo;

    open spec fn yields(&self, c: Node<'_>) -> Seq<Import> {
        if c.isa("import_declaration") {
            text_imports(trimmed(behind_or_all(c.txt(), "import "@)), c.top())
        } else {
            Seq::empty()
        }
    }

    open spec fn enters<'a>(&self, c: Node<'a>) -> Option<Node<'a>> {
        if c.isa("import_declaration") {
            None
        } else {
            Some(c)
        }
    }

    fn visit<'a>(&self, c: Node<'a>, out: &mut Vec<ImportInfo>) -> (res: Option<Node<'a>>) {
        if c.is("import_declaration") {
            let text: &str = trim(without_prefix(c.text(), "import "));
            parse_scala_import_text(text, out, c.start_line());
            None
        } else {
            Some(c)
        }
    }
}

} // verus!
