//! Swift: `import Module`, `import struct Module.Name`, `@testable import Module`.

use vstd::prelude::*;

use crate::lists::{emit, group_lists, none};
use crate::text::{
    behind, join, joined, own, split_whitespace, strip_back, strip_prefix, stripped_back, trim,
    trimmed, words,
};
use crate::tree::{group_tree, same, Node};
use crate::types::{import, import_info, on_line, with_line, Import, ImportInfo};
use crate::walk::Walker;

verus! {

broadcast use {group_tree, group_lists};

/// Whether a word says what sort of declaration is imported.
pub open spec fn is_kind_keyword(word: Seq<char>) -> bool {
    word == "struct"@ || word == "class"@ || word == "enum"@ || word == "protocol"@ || word
        == "typealias"@ || word == "func"@ || word == "var"@ || word == "let"@
}

fn kind_keyword(word: &str) -> (res: bool)
    ensures
        res == is_kind_keyword(word@),
{
    same(word, "struct") || same(word, "class") || same(word, "enum") || same(word, "protocol")
        || same(word, "typealias") || same(word, "func") || same(word, "var") || same(word, "let")
}

/// The text without the attribute at its front.
pub open spec fn without_attribute(raw: Seq<char>) -> Seq<char> {
    match behind(trimmed(raw), "@"@) {
        Some(rest) => joined(words(rest).skip(if words(rest).len() > 0 { 1 } else { 0 }), " "@),
        None => trimmed(raw),
    }
}

fn strip_attribute(raw: &str) -> (res: String)
    ensures
        res@ == without_attribute(raw@),
{
    let text: &str = trim(raw);
    match strip_prefix(text, "@") {
        Some(rest) => {
            let mut tokens = split_whitespace(rest);
            let ghost all = tokens.deep_view();
            if tokens.len() > 0 {
                tokens.remove(0);
                assert(tokens.deep_view() =~= all.skip(1));
            } else {
                assert(tokens.deep_view() =~= all.skip(0));
            }
            join(&tokens, " ")
        },
        None => own(text),
    }
}

/// The position behind the first `import` at or behind position `i`.
pub open spec fn behind_import(tokens: Seq<Seq<char>>, i: int) -> Option<int>
    decreases tokens.len() - i,
{
    if i < 0 || i >= tokens.len() {
        None
    } else if tokens[i] == "import"@ {
        Some(i + 1)
    } else {
        behind_import(tokens, i + 1)
    }
}

/// The word that names the module: the one behind `import`, or the one behind
/// that where it says what sort of declaration is imported.
pub open spec fn module_word(tokens: Seq<Seq<char>>) -> Option<Seq<char>> {
    match behind_import(tokens, 0) {
        Some(k) => if k >= tokens.len() {
            None
        } else if !is_kind_keyword(tokens[k]) {
            Some(tokens[k])
        } else if k + 1 >= tokens.len() {
            None
        } else {
            Some(tokens[k + 1])
        },
        None => None,
    }
}

fn find_module_word(tokens: &Vec<String>) -> (res: Option<String>)
    ensures
        res.deep_view() == module_word(tokens.deep_view()),
{
    let ghost all = tokens.deep_view();
    let n: usize = tokens.len();
    let mut i: usize = 0;
    while i < n
        invariant
            n == tokens.len(),
            all == tokens.deep_view(),
            i <= n,
            behind_import(all, 0) == behind_import(all, i as int),
        decreases n - i,
    {
        assert(all[i as int] == tokens@[i as int]@);
        if same(tokens[i].as_str(), "import") {
            assert(behind_import(all, 0) == Some(i + 1));
            if i + 1 >= n {
                return None;
            }
            assert(all[i + 1] == tokens@[i + 1]@);
            if !kind_keyword(tokens[i + 1].as_str()) {
                return Some(tokens[i + 1].clone());
            }
            if i + 2 >= n {
                return None;
            }
            assert(all[i + 2] == tokens@[i + 2]@);
            return Some(tokens[i + 2].clone());
        }
        i += 1;
    }
    None
}

/// The import that the text of an import declaration makes.
pub open spec fn text_import(raw: Seq<char>) -> Option<Import> {
    match module_word(words(without_attribute(raw))) {
        Some(word) => {
            let module = trimmed(stripped_back(word, ";"@));
            if module.len() == 0 {
                None
            } else {
                Some(import(module, Seq::empty(), None, None, 0))
            }
        },
        None => None,
    }
}

/// The import that the text of an import declaration makes. Its line is not set.
pub fn parse_swift_import_text(raw: &str) -> (res: Option<ImportInfo>)
    ensures
        res.deep_view() == text_import(raw@),
{
    let text = strip_attribute(raw);
    match find_module_word(&split_whitespace(text.as_str())) {
        Some(word) => {
            let module: &str = trim(strip_back(word.as_str(), ";"));
            if module.is_empty() {
                None
            } else {
                Some(import_info(own(module), none(), None, None, 0))
            }
        },
        None => None,
    }
}

/// All imports of a file.
pub struct Imports;

impl Walker for Imports {
    type Item = ImportInfo;

    open spec fn yields(&self, c: Node<'_>) -> Seq<Import> {
        match text_import(c.txt()) {
            Some(made) if c.isa("import_declaration") => seq![on_line(made, c.top())],
            _ => Seq::empty(),
        }
    }

    open spec fn enters<'a>(&self, c: Node<'a>) -> Option<Node<'a>> {
        if c.isa("import_declaration") {
            None
        } else {
            Some(c)
        }
    }

    fn visit<'a>(&self, c: Node<'a>, out: &mut Vec<ImportInfo>) -> (res: Option<Node<'a>>) {
        if c.is("import_declaration") {
            match parse_swift_import_text(c.text()) {
                Some(made) => emit(out, with_line(made, c.start_line())),
                None => {},
            }
            None
        } else {
            Some(c)
        }
    }
}

} // verus!
