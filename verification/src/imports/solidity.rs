//! Solidity: `import "x"`, with an alias for the file or with selected names.

use vstd::prelude::*;

use crate::lists::{by_offset, emit, group_lists, none, push_some, some_seq, sort_by_offset};
use crate::nodes::{string_content, unquoted};
use crate::text::{concat3, own};
use crate::tree::{group_tree, Node};
use crate::types::{import, import_info, Import, ImportInfo};
use crate::walk::{pick_all, picked, Picker, Walker};

verus! {

broadcast use {group_tree, group_lists};

/// The children that fill a field, each with its offset in the source.
pub struct Filling<'b> {
    pub field: &'b str,
}

impl<'b> Picker for Filling<'b> {
    type Item = (usize, String);

    open spec fn picks(&self, c: Node<'_>) -> Seq<(usize, Seq<char>)> {
        if c.facts().field == Some(self.field@) {
            seq![(c.facts().start_byte as usize, c.txt())]
        } else {
            Seq::empty()
        }
    }

    fn pick(&self, c: Node<'_>, out: &mut Vec<(usize, String)>) {
        if c.fills(self.field) {
            emit(out, (c.start_byte(), own(c.text())));
        }
    }
}

/// The children that fill the field `field`, in the order of the source.
pub open spec fn filling(n: Node<'_>, field: &str) -> Seq<(usize, Seq<char>)> {
    by_offset(picked(&Filling { field }, n))
}

/// The first text at or behind position `i` whose offset lies between the two.
pub open spec fn between(s: Seq<(usize, Seq<char>)>, low: int, high: int, i: int) -> Option<
    Seq<char>,
>
    decreases s.len() - i,
{
    if i < 0 || i >= s.len() {
        None
    } else if low < s[i].0 && s[i].0 < high {
        Some(s[i].1)
    } else {
        between(s, low, high, i + 1)
    }
}

fn find_between(list: &Vec<(usize, String)>, low: usize, high: usize) -> (res: Option<String>)
    ensures
        res.deep_view() == between(list.deep_view(), low as int, high as int, 0),
{
    let ghost all = list.deep_view();
    let mut i: usize = 0;
    while i < list.len()
        invariant
            i <= list.len(),
            all == list.deep_view(),
            between(all, low as int, high as int, 0) == between(
                all,
                low as int,
                high as int,
                i as int,
            ),
        decreases list.len() - i,
    {
        assert(all[i as int] == list@[i as int].deep_view());
        if low < list[i].0 && list[i].0 < high {
            return Some(list[i].1.clone());
        }
        i += 1;
    }
    None
}

/// The name at position `i`, with the alias that stands between it and the
/// next name.
pub open spec fn renamed(
    names: Seq<(usize, Seq<char>)>,
    aliases: Seq<(usize, Seq<char>)>,
    i: int,
) -> Seq<char> {
    let high = if i + 1 < names.len() {
        names[i + 1].0
    } else {
        usize::MAX
    };
    match between(aliases, names[i].0 as int, high as int, 0) {
        Some(alias) => names[i].1 + " as "@ + alias,
        None => names[i].1,
    }
}

/// The selected names, with their aliases.
pub open spec fn selected(
    names: Seq<(usize, Seq<char>)>,
    aliases: Seq<(usize, Seq<char>)>,
) -> Seq<Seq<char>> {
    Seq::new(names.len(), |i: int| renamed(names, aliases, i))
}

fn select(names: &Vec<(usize, String)>, aliases: &Vec<(usize, String)>) -> (res: Vec<String>)
    ensures
        res.deep_view() == selected(names.deep_view(), aliases.deep_view()),
{
    let ghost all = names.deep_view();
    let ghost others = aliases.deep_view();
    let mut res: Vec<String> = Vec::new();
    let mut i: usize = 0;
    while i < names.len()
        invariant
            i <= names.len(),
            all == names.deep_view(),
            others == aliases.deep_view(),
            res@.len() == i,
            forall|k: int| 0 <= k < i ==> (#[trigger] res@[k])@ == renamed(all, others, k),
        decreases names.len() - i,
    {
        assert(all[i as int] == names@[i as int].deep_view());
        let high: usize = if i + 1 < names.len() {
            assert(all[i + 1] == names@[i + 1].deep_view());
            names[i + 1].0
        } else {
            usize::MAX
        };
        let name: &str = names[i].1.as_str();
        let shown = match find_between(aliases, names[i].0, high) {
            Some(alias) => concat3(name, " as ", alias.as_str()),
            None => own(name),
        };
        assert(shown@ == renamed(all, others, i as int));
        res.push(shown);
        i += 1;
    }
    assert(res.deep_view() =~= selected(all, others));
    res
}

/// The import that an import directive makes.
pub open spec fn directive_import(n: Node<'_>) -> Option<Import> {
    match n.at("source") {
        Some(source) => {
            let module = unquoted(source.txt());
            let names = filling(n, "import_name");
            let aliases = filling(n, "alias");
            if module.len() == 0 {
                None
            } else if names.len() > 0 {
                Some(import(module, selected(names, aliases), None, None, n.top()))
            } else if aliases.len() > 0 {
                Some(import(module, Seq::empty(), None, Some(aliases[0].1), n.top()))
            } else {
                Some(import(module, Seq::empty(), None, None, n.top()))
            }
        },
        None => None,
    }
}

/// The import that an import directive makes.
pub fn parse_solidity_import_directive(n: &Node<'_>) -> (res: Option<ImportInfo>)
    ensures
        res.deep_view() == directive_import(*n),
{
    let source = match n.child_by_field_name("source") {
        Some(source) => source,
        None => return None,
    };
    let module = string_content(&source);
    if module.as_str().is_empty() {
        return None;
    }
    let names = sort_by_offset(pick_all(&Filling { field: "import_name" }, *n));
    let aliases = sort_by_offset(pick_all(&Filling { field: "alias" }, *n));
    let line: u32 = n.start_line();
    if names.len() > 0 {
        return Some(import_info(module, select(&names, &aliases), None, None, line));
    }
    if aliases.len() > 0 {
        assert(aliases.deep_view()[0] == aliases@[0].deep_view());
        return Some(import_info(module, none(), None, Some(aliases[0].1.clone()), line));
    }
    Some(import_info(module, none(), None, None, line))
}

/// All imports of a file.
pub struct Imports;

impl Walker for Imports {
    type Item = ImportInfo;

    open spec fn yields(&self, c: Node<'_>) -> Seq<Import> {
        if c.isa("import_directive") {
            some_seq(directive_import(c))
        } else {
            Seq::empty()
        }
    }

    open spec fn enters<'a>(&self, c: Node<'a>) -> Option<Node<'a>> {
        if c.isa("import_directive") {
            None
        } else {
            Some(c)
        }
    }

    fn visit<'a>(&self, c: Node<'a>, out: &mut Vec<ImportInfo>) -> (res: Option<Node<'a>>) {
        if c.is("import_directive") {
            push_some(out, parse_solidity_import_directive(&c));
            None
        } else {
            Some(c)
        }
    }
}

} // verus!
