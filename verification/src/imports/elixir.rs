//! Elixir: `import`, `alias`, `require` and `use`.

use vstd::prelude::*;

use crate::lists::{emit, group_lists, none, one};
use crate::text::{concat3, own, pieces, split, strip_back, stripped_back, trim, trimmed};
use crate::tree::{group_tree, same, Node};
use crate::types::{import, import_info, Import, ImportInfo};
use crate::walk::{fold, folded, pick_into, picked, Fold, Picker, Walker};

verus! {

broadcast use {group_tree, group_lists};

/// The aliases and identifiers between the braces of `A.{B, C}`.
pub struct TupleMembers;

impl Picker for TupleMembers {
    type Item = String;

    open spec fn picks(&self, c: Node<'_>) -> Seq<Seq<char>> {
        if c.isa("alias") || c.isa("identifier") {
            seq![c.txt()]
        } else {
            Seq::empty()
        }
    }

    fn pick(&self, c: Node<'_>, out: &mut Vec<String>) {
        if c.is("alias") || c.is("identifier") {
            emit(out, own(c.text()));
        }
    }
}

/// The members of the tuples below a dotted alias. A first alias is its prefix.
pub struct AliasParts;

impl Fold for AliasParts {
    type State = (String, Vec<String>);

    open spec fn step(&self, s: (Seq<char>, Seq<Seq<char>>), c: Node<'_>) -> (
        Seq<char>,
        Seq<Seq<char>>,
    ) {
        if c.isa("alias") && s.0.len() == 0 {
            (c.txt(), s.1)
        } else if c.isa("tuple") {
            (s.0, s.1 + picked(&TupleMembers, c))
        } else {
            s
        }
    }

    fn next(&self, s: (String, Vec<String>), c: Node<'_>) -> (res: (String, Vec<String>)) {
        let ghost before = s.deep_view();
        let (prefix, members) = s;
        assert(before == (prefix@, members.deep_view()));
        let mut members = members;
        if c.is("alias") && prefix.as_str().is_empty() {
            (own(c.text()), members)
        } else if c.is("tuple") {
            pick_into(&TupleMembers, c, &mut members);
            (prefix, members)
        } else {
            (prefix, members)
        }
    }
}

/// The modules that `A.{B, C}` stands for: `A.B` and `A.C`.
pub open spec fn expanded(n: Node<'_>) -> Seq<Seq<char>> {
    let parts = folded(&AliasParts, (Seq::empty(), Seq::empty()), n);
    if parts.0.len() == 0 {
        Seq::empty()
    } else {
        Seq::new(parts.1.len(), |i: int| parts.0 + "."@ + parts.1[i])
    }
}

/// Expands `A.{B, C}` to `A.B` and `A.C`.
pub fn expand_elixir_multi_alias(n: &Node<'_>) -> (res: Vec<String>)
    ensures
        res.deep_view() == expanded(*n),
{
    let parts: (String, Vec<String>) = fold(&AliasParts, (String::new(), none()), *n);
    let ghost start: (String, Vec<String>) = (parts.0, parts.1);
    assert(parts.deep_view() == (parts.0@, parts.1.deep_view()));
    let (prefix, members) = parts;
    let mut res: Vec<String> = none();
    if prefix.as_str().is_empty() {
        return res;
    }
    let mut i: usize = 0;
    while i < members.len()
        invariant
            i <= members.len(),
            res@.len() == i,
            forall|k: int| 0 <= k < i ==> res@[k]@ == prefix@ + "."@ + members@[k]@,
        decreases members.len() - i,
    {
        res.push(concat3(prefix.as_str(), ".", members[i].as_str()));
        i += 1;
    }
    assert(res.deep_view() =~= expanded(*n));
    res
}

/// Whether an `as:` was passed, and the alias behind it.
pub struct PairParts;

impl Fold for PairParts {
    type State = (bool, Option<String>);

    open spec fn step(&self, s: (bool, Option<Seq<char>>), c: Node<'_>) -> (
        bool,
        Option<Seq<char>>,
    ) {
        if c.isa("keyword") {
            (s.0 || stripped_back(trimmed(c.txt()), ":"@) == "as"@, s.1)
        } else if c.isa("alias") && s.0 {
            (s.0, Some(c.txt()))
        } else {
            s
        }
    }

    fn next(&self, s: (bool, Option<String>), c: Node<'_>) -> (res: (bool, Option<String>)) {
        let ghost before = s.deep_view();
        let (is_as, alias) = s;
        assert(before == (is_as, alias.deep_view()));
        if c.is("keyword") {
            (is_as || same(strip_back(trim(c.text()), ":"), "as"), alias)
        } else if c.is("alias") && is_as {
            (is_as, Some(own(c.text())))
        } else {
            (is_as, alias)
        }
    }
}

/// The alias that the keywords of a directive give with `as:`.
pub struct AsKeyword;

impl Fold for AsKeyword {
    type State = Option<String>;

    open spec fn step(&self, s: Option<Seq<char>>, c: Node<'_>) -> Option<Seq<char>> {
        if c.isa("pair") {
            folded(&PairParts, (false, s), c).1
        } else {
            s
        }
    }

    fn next(&self, s: Option<String>, c: Node<'_>) -> (res: Option<String>) {
        if c.is("pair") {
            let start: (bool, Option<String>) = (false, s);
            assert(start.deep_view() == (false, s.deep_view()));
            fold(&PairParts, start, c).1
        } else {
            s
        }
    }
}

/// The module, the modules of a brace form, and the alias among the arguments
/// of a directive.
pub struct Arguments;

impl Fold for Arguments {
    type State = (String, Vec<String>, Option<String>);

    open spec fn step(
        &self,
        s: (Seq<char>, Seq<Seq<char>>, Option<Seq<char>>),
        c: Node<'_>,
    ) -> (Seq<char>, Seq<Seq<char>>, Option<Seq<char>>) {
        if c.isa("alias") && s.0.len() == 0 {
            (c.txt(), s.1, s.2)
        } else if c.isa("dot") && s.0.len() == 0 && s.1.len() == 0 {
            (s.0, expanded(c), s.2)
        } else if c.isa("keywords") {
            (s.0, s.1, folded(&AsKeyword, s.2, c))
        } else {
            s
        }
    }

    fn next(&self, s: (String, Vec<String>, Option<String>), c: Node<'_>) -> (res: (
        String,
        Vec<String>,
        Option<String>,
    )) {
        let ghost before = s.deep_view();
        let (module, several, alias) = s;
        assert(before == (module@, several.deep_view(), alias.deep_view()));
        if c.is("alias") && module.as_str().is_empty() {
            (own(c.text()), several, alias)
        } else if c.is("dot") && module.as_str().is_empty() && several.len() == 0 {
            (module, expand_elixir_multi_alias(&c), alias)
        } else if c.is("keywords") {
            (module, several, fold(&AsKeyword, alias, c))
        } else {
            (module, several, alias)
        }
    }
}

/// What a call says as a directive.
pub struct Directive;

/// A directive: its keyword, its module, the modules of its brace form, and
/// its alias.
pub type DirectiveParts = (Seq<char>, (Seq<char>, Seq<Seq<char>>, Option<Seq<char>>));

impl Fold for Directive {
    type State = (String, (String, Vec<String>, Option<String>));

    open spec fn step(&self, s: DirectiveParts, c: Node<'_>) -> DirectiveParts {
        if c.isa("identifier") {
            (c.txt(), s.1)
        } else if c.isa("arguments") {
            (s.0, folded(&Arguments, s.1, c))
        } else {
            s
        }
    }

    fn next(
        &self,
        s: (String, (String, Vec<String>, Option<String>)),
        c: Node<'_>,
    ) -> (res: (String, (String, Vec<String>, Option<String>))) {
        let ghost before = s.deep_view();
        let (keyword, rest) = s;
        assert(before == (keyword@, rest.deep_view()));
        if c.is("identifier") {
            (own(c.text()), rest)
        } else if c.is("arguments") {
            (keyword, fold(&Arguments, rest, c))
        } else {
            (keyword, rest)
        }
    }
}

/// What the call `n` says as a directive.
pub open spec fn directive(n: Node<'_>) -> DirectiveParts {
    folded(&Directive, (Seq::empty(), (Seq::empty(), Seq::empty(), None)), n)
}

/// The modules that a directive names.
pub open spec fn directive_modules(n: Node<'_>) -> Seq<Seq<char>> {
    let (module, several, _alias) = directive(n).1;
    if several.len() > 0 {
        several
    } else if module.len() > 0 {
        seq![module]
    } else {
        Seq::empty()
    }
}

/// Whether the keyword makes a call an import.
pub open spec fn is_import_keyword(keyword: Seq<char>) -> bool {
    keyword == "import"@ || keyword == "alias"@ || keyword == "require"@ || keyword == "use"@
}

/// The import of one module of a directive. `alias` gives the module the name
/// behind `as:`, where it names one module, or the last part of its path.
pub open spec fn directive_import(
    keyword: Seq<char>,
    module: Seq<char>,
    explicit: Option<Seq<char>>,
    only: bool,
    line: u32,
) -> Import {
    if keyword == "import"@ {
        import(module, seq!["*"@], Some(true), None, line)
    } else if keyword == "alias"@ {
        let alias = match explicit {
            Some(name) if only => name,
            _ => pieces(module, "."@).last(),
        };
        import(module, Seq::empty(), Some(false), Some(alias), line)
    } else if keyword == "require"@ {
        import(module, Seq::empty(), Some(false), None, line)
    } else {
        import(module, seq!["*"@], Some(true), None, line)
    }
}

fn make_directive_import(
    keyword: &str,
    module: &String,
    explicit: &Option<String>,
    only: bool,
    line: u32,
) -> (res: ImportInfo)
    ensures
        res.deep_view() == directive_import(keyword@, module@, explicit.deep_view(), only, line),
{
    if same(keyword, "import") {
        import_info(module.clone(), one(own("*")), Some(true), None, line)
    } else if same(keyword, "alias") {
        let alias: String = match explicit {
            Some(name) if only => name.clone(),
            _ => last_segment(module.as_str()),
        };
        import_info(module.clone(), none(), Some(false), Some(alias), line)
    } else if same(keyword, "require") {
        import_info(module.clone(), none(), Some(false), None, line)
    } else {
        import_info(module.clone(), one(own("*")), Some(true), None, line)
    }
}

/// The part of a dotted path behind its last dot.
fn last_segment(path: &str) -> (res: String)
    ensures
        res@ == pieces(path@, "."@).last(),
{
    proof {
        reveal_strlit(".");
    }
    let parts = split(path, ".");
    assert(parts.deep_view().last() == parts@[parts@.len() - 1]@);
    parts[parts.len() - 1].clone()
}

/// The imports of the first `k` modules of a directive.
pub open spec fn directive_imports(n: Node<'_>, k: nat) -> Seq<Import>
    decreases k,
{
    if k == 0 {
        Seq::empty()
    } else {
        directive_imports(n, (k - 1) as nat) + seq![
            directive_import(
                directive(n).0,
                directive_modules(n)[k - 1],
                directive(n).1.2,
                directive_modules(n).len() == 1,
                n.top(),
            ),
        ]
    }
}

/// Reads the call `c` as a directive; says whether it is one.
fn parse_directive(c: &Node<'_>, out: &mut Vec<ImportInfo>) -> (res: bool)
    ensures
        res == is_import_keyword(directive(*c).0),
        final(out).deep_view() == old(out).deep_view() + if res {
            directive_imports(*c, directive_modules(*c).len())
        } else {
            Seq::empty()
        },
{
    let none_yet: (String, (String, Vec<String>, Option<String>)) = (
        String::new(),
        (String::new(), none(), None),
    );
    assert(none_yet.deep_view() == (
        Seq::<char>::empty(),
        (Seq::<char>::empty(), Seq::<Seq<char>>::empty(), None::<Seq<char>>),
    )) by {
        assert(none_yet.1.deep_view() == (
            Seq::<char>::empty(),
            Seq::<Seq<char>>::empty(),
            None::<Seq<char>>,
        ));
    }
    let parts = fold(&Directive, none_yet, *c);
    assert(parts.deep_view() == (parts.0@, parts.1.deep_view()));
    let (keyword, rest) = parts;
    assert(rest.deep_view() == (rest.0@, rest.1.deep_view(), rest.2.deep_view()));
    let (module, several, alias) = rest;
    if !(same(keyword.as_str(), "import") || same(keyword.as_str(), "alias") || same(
        keyword.as_str(),
        "require",
    ) || same(keyword.as_str(), "use")) {
        return false;
    }
    let modules: Vec<String> = if several.len() > 0 {
        several
    } else if !module.as_str().is_empty() {
        one(module)
    } else {
        none()
    };
    assert(modules.deep_view() == directive_modules(*c));
    let line: u32 = c.start_line();
    let ghost start = out.deep_view();
    let mut i: usize = 0;
    while i < modules.len()
        invariant
            i <= modules.len(),
            modules.deep_view() == directive_modules(*c),
            keyword@ == directive(*c).0,
            alias.deep_view() == directive(*c).1.2,
            line == c.top(),
            out.deep_view() == start + directive_imports(*c, i as nat),
        decreases modules.len() - i,
    {
        assert(modules.deep_view()[i as int] == modules@[i as int]@);
        let ghost before = directive_imports(*c, i as nat);
        let made = make_directive_import(
            keyword.as_str(),
            &modules[i],
            &alias,
            modules.len() == 1,
            line,
        );
        emit(out, made);
        assert(start + before + seq![made.deep_view()] =~= start + (before + seq![
            made.deep_view(),
        ]));
        i += 1;
    }
    true
}

/// All imports of a file.
pub struct Imports;

impl Walker for Imports {
    type Item = ImportInfo;

    open spec fn yields(&self, c: Node<'_>) -> Seq<Import> {
        if c.isa("call") && is_import_keyword(directive(c).0) {
            directive_imports(c, directive_modules(c).len())
        } else {
            Seq::empty()
        }
    }

    open spec fn enters<'a>(&self, c: Node<'a>) -> Option<Node<'a>> {
        if c.isa("call") && is_import_keyword(directive(c).0) {
            None
        } else {
            Some(c)
        }
    }

    fn visit<'a>(&self, c: Node<'a>, out: &mut Vec<ImportInfo>) -> (res: Option<Node<'a>>) {
        if c.is("call") && parse_directive(&c, out) {
            None
        } else {
            Some(c)
        }
    }
}

} // verus!
